//! The decisions of the user interface: the tunnel state it shows, the PIN
//! dialog, the close confirmation, and the remembered configuration.
pub mod app;
pub mod config;
pub mod state;
