# GhostWire

A WireGuard client for Windows whose configuration is encrypted with `age`
to a key that lives on a YubiKey: the configuration is decrypted in memory,
with the ECDH done on the card, and pushed to the `wireguard-nt` driver by
a privileged service that the window and the command line talk to over a
named pipe.

## Layout

- `src/` is the library, verified with Verus:
  - `config/`: the `wg-quick` INI parser (`parse`), its mathematical model
    (`spec.rs`) and its laws (`laws.rs`);
  - `ipc/`: the requests and responses, their framing on the pipe, and
    what a client makes of each response;
  - `service/`: the service's decisions: the `Connect` rate limit, the
    number of clients served at once, the checks on the configuration
    path, the slot names, the registry of active tunnels, and the answer
    to every request;
  - `crypto/`: unwrapping the file key of a `piv-p256` stanza, and the
    checks on the decrypted plaintext;
  - `ui/`: the window's state and decisions;
  - `net.rs`, `encoding.rs`, `text.rs`: network values, base64 and hex,
    and the text operations the rest is built from.
- `tests/`: the tests of the library.
- `app/`: the executable around the library: the Windows service and its
  named pipe, the YubiKey and `age` decryption, the `wireguard-nt` tunnel,
  the egui window and the command line.

Calls into outside crates go through small trusted wrappers whose
contracts are stated next to them; everything else in `src/` is proved.
