//! The remembered user choices: the last configuration file and slot.
use vstd::prelude::*;

verus! {

/// What the window remembers between launches.
#[derive(Debug, Clone)]
pub struct UserConfig {
    /// Last `.conf.age` file used (absolute path).
    pub last_config_path: Option<String>,
    /// Last YubiKey slot used.
    pub last_slot: Option<String>,
}

impl Default for UserConfig {
    fn default() -> (c: Self)
        ensures
            c.last_config_path is None,
            c.last_slot is None,
    {
        UserConfig { last_config_path: None, last_slot: None }
    }
}

impl UserConfig {
    /// The remembered choices, from the result of reading them: what was
    /// read, or nothing remembered when reading failed (no file yet).
    pub fn load(loaded: Result<UserConfig, String>) -> (c: Self)
        ensures
            match loaded {
                Ok(l) => c.last_config_path == l.last_config_path && c.last_slot == l.last_slot,
                Err(_) => c.last_config_path is None && c.last_slot is None,
            },
    {
        match loaded {
            Ok(c) => c,
            Err(_) => UserConfig::default(),
        }
    }
}

} // verus!
