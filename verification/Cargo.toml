[package]
name = "ghostwire"
version = "0.2.0"
edition = "2021"
publish = false

[dependencies]
base64 = "0.22"
ipnet = "2"
age = "0.11"
age-core = "0.11"
chacha20poly1305 = "0.10"
p256 = "0.13"
yubikey = "0.8"
secrecy = "0.10"
zeroize = "1"
serde = { version = "1", features = ["derive"] }
serde_json = "1"
anyhow = "1"
thiserror = "2"
clap = { version = "4", features = ["derive"] }
rpassword = "7"
tracing = "0.1"
tracing-subscriber = { version = "0.3", features = ["env-filter"] }
wireguard-nt = "0.5"
windows-service = "0.8"
windows = { version = "0.62", features = ["Win32_Security", "Win32_Security_Authorization", "Win32_Storage_FileSystem", "Win32_System_Pipes", "Win32_System_Memory", "Win32_System_IO"] }
