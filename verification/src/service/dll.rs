//! Where the service loads `wireguard.dll` from: only from the directory
//! of its own executable, resolved from `current_exe()`, never from the
//! working directory or the DLL search order.
use vstd::prelude::*;

verus! {

/// A place, relative to the executable's directory, where the driver DLL
/// is looked for.
#[derive(Debug, Clone, Copy, PartialEq, Eq)]
pub enum DllLocation {
    /// `wireguard.dll` next to the executable.
    NextToExe,
    /// `wireguard-nt\wireguard.dll` under the executable's directory.
    WireguardNtSubdir,
}

/// Picks the DLL from whether it exists next to the executable and in
/// its `wireguard-nt` subdirectory: the first one found, else none.
pub fn wireguard_dll_choice(next_to_exe: bool, in_subdir: bool) -> (r: Option<DllLocation>)
    ensures
        r == if next_to_exe {
            Some(DllLocation::NextToExe)
        } else if in_subdir {
            Some(DllLocation::WireguardNtSubdir)
        } else {
            None
        },
{
    if next_to_exe {
        Some(DllLocation::NextToExe)
    } else if in_subdir {
        Some(DllLocation::WireguardNtSubdir)
    } else {
        None
    }
}

} // verus!
