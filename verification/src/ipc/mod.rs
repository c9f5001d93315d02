//! Messages between the user-side clients (UI, CLI) and the privileged
//! service, and their framing on the named pipe: a little-endian `u32`
//! length followed by the JSON payload.
use vstd::prelude::*;

pub mod client;
pub mod frame;
pub mod messages;

verus! {

/// Full name of the service's named pipe.
pub const PIPE_NAME: &'static str = "\\\\.\\pipe\\GhostWireService";

} // verus!
