//! The shared cancellation signal of a viewing session.
//!
//! One flag per session, shared by every concurrent participant.
//! Any of them may trip it; all of them poll it; nothing ever
//! resets it — a new session gets a new flag. There is no method
//! that clears the flag, so a tripped flag stays tripped.

use vstd::prelude::*;

verus! {

/// A trip-once cancellation flag.
pub struct CancelFlag {
    pub tripped: bool,
}

impl CancelFlag {
    /// A fresh, untripped flag.
    pub fn new() -> (r: CancelFlag)
        ensures
            !r.tripped,
    {
        CancelFlag { tripped: false }
    }

    /// Trips the flag; idempotent.
    pub fn trip(&mut self)
        ensures
            final(self).tripped,
    {
        self.tripped = true;
    }

    /// Observes the flag.
    pub fn is_tripped(&self) -> (r: bool)
        ensures
            r == self.tripped,
    {
        self.tripped
    }
}

} // verus!
