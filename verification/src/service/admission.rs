//! How many clients the service serves at once: at most four; a client
//! that comes while four are served is turned away at once.
use vstd::prelude::*;

verus! {

/// Clients served at the same time, at most.
pub const MAX_CONCURRENT_CLIENTS: usize = 4;

/// The number of clients served after one event, from `n`: a client that
/// comes (`arrives`) is served if fewer than `MAX_CONCURRENT_CLIENTS` are,
/// else turned away; a served client that leaves frees its place.
pub open spec fn admit_step(n: nat, arrives: bool) -> nat {
    if arrives {
        if n < MAX_CONCURRENT_CLIENTS {
            n + 1
        } else {
            n
        }
    } else if n > 0 {
        (n - 1) as nat
    } else {
        0
    }
}

/// The number of clients served after a run of events, from none.
pub open spec fn served_after(events: Seq<bool>) -> nat
    decreases events.len(),
{
    if events.len() == 0 {
        0
    } else {
        admit_step(served_after(events.drop_last()), events.last())
    }
}

/// Whatever clients come and go, never more than `MAX_CONCURRENT_CLIENTS`
/// are served at once.
pub proof fn law_at_most_four_served(events: Seq<bool>)
    ensures
        served_after(events) <= MAX_CONCURRENT_CLIENTS,
    decreases events.len(),
{
    if events.len() > 0 {
        law_at_most_four_served(events.drop_last());
    }
}

/// The count of clients being served.
pub struct ClientSlots {
    active: usize,
}

impl ClientSlots {
    /// Clients being served.
    pub closed spec fn served(&self) -> nat {
        self.active as nat
    }

    /// Never more than `MAX_CONCURRENT_CLIENTS` clients are served.
    pub closed spec fn wf(&self) -> bool {
        self.active <= MAX_CONCURRENT_CLIENTS
    }

    /// No client served yet.
    pub fn new() -> (s: Self)
        ensures
            s.wf(),
            s.served() == 0,
            s.served() == served_after(Seq::empty()),
    {
        ClientSlots { active: 0 }
    }

    /// Never more than `MAX_CONCURRENT_CLIENTS` clients are served.
    pub proof fn lemma_served_bounded(&self)
        requires
            self.wf(),
        ensures
            self.served() <= MAX_CONCURRENT_CLIENTS,
    {
    }

    /// Clients being served.
    pub fn active(&self) -> (n: usize)
        ensures
            n == self.served(),
    {
        self.active
    }

    /// A client comes: it is served (and counted) if fewer than
    /// `MAX_CONCURRENT_CLIENTS` are, else turned away.
    pub fn try_admit(&mut self) -> (admitted: bool)
        requires
            old(self).wf(),
        ensures
            final(self).wf(),
            admitted == (old(self).served() < MAX_CONCURRENT_CLIENTS),
            final(self).served() == if admitted {
                old(self).served() + 1
            } else {
                old(self).served()
            },
            final(self).served() == admit_step(old(self).served(), true),
            final(self).served() <= MAX_CONCURRENT_CLIENTS,
    {
        if self.active >= MAX_CONCURRENT_CLIENTS {
            false
        } else {
            self.active = self.active + 1;
            true
        }
    }

    /// A served client leaves.
    pub fn release(&mut self)
        requires
            old(self).wf(),
            old(self).served() > 0,
        ensures
            final(self).wf(),
            final(self).served() == old(self).served() - 1,
            final(self).served() == admit_step(old(self).served(), false),
            final(self).served() <= MAX_CONCURRENT_CLIENTS,
    {
        self.active = self.active - 1;
    }
}

} // verus!
