//! What the service does with a control request from the Windows service
//! manager: `Stop` cuts every tunnel and ends the service.
use vstd::prelude::*;

use crate::service::registry::TunnelRegistry;

verus! {

/// The control requests the service tells apart.
#[derive(Debug, Clone, Copy, PartialEq, Eq)]
pub enum ServiceControlKind {
    Stop,
    Interrogate,
    /// Any other request.
    Other,
}

/// The answer to the service manager.
#[derive(Debug, Clone, Copy, PartialEq, Eq)]
pub enum ControlAnswer {
    NoError,
    NotImplemented,
}

/// Handles a control request: answers it, and says whether the service
/// must now stop. `Stop` drops every tunnel, which takes it down.
pub fn handle_control<T>(control: ServiceControlKind, registry: &mut TunnelRegistry<T>) -> (r: (
    ControlAnswer,
    bool,
))
    requires
        old(registry).wf(),
    ensures
        final(registry).wf(),
        match control {
            ServiceControlKind::Stop => r == (ControlAnswer::NoError, true)
                && final(registry).tunnels() == Map::<Seq<char>, T>::empty(),
            ServiceControlKind::Interrogate => r == (ControlAnswer::NoError, false)
                && *final(registry) == *old(registry),
            ServiceControlKind::Other => r == (ControlAnswer::NotImplemented, false)
                && *final(registry) == *old(registry),
        },
{
    match control {
        ServiceControlKind::Stop => {
            registry.clear();
            (ControlAnswer::NoError, true)
        },
        ServiceControlKind::Interrogate => (ControlAnswer::NoError, false),
        ServiceControlKind::Other => (ControlAnswer::NotImplemented, false),
    }
}

} // verus!
