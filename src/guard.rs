use vstd::prelude::*;

verus! {

/// Records whether the one-time setup has already been run.
pub struct SetupGuard {
    ran: bool,
}

impl SetupGuard {
    /// Whether the setup has been run.
    pub closed spec fn has_run(&self) -> bool {
        self.ran
    }

    /// A guard in the "not yet run" state.
    pub fn new() -> (r: SetupGuard)
        ensures
            !r.has_run(),
    {
        SetupGuard { ran: false }
    }

    /// Whether the setup has been run.
    pub fn is_done(&self) -> (r: bool)
        ensures
            r == self.has_run(),
    {
        self.ran
    }

    /// Claims the right to run the setup: true exactly on the first call.
    pub fn claim(&mut self) -> (first: bool)
        ensures
            first == !old(self).has_run(),
            final(self).has_run(),
            old(self).has_run() ==> *final(self) == *old(self),
    {
        let first = !self.ran;
        self.ran = true;
        first
    }
}

} // verus!
