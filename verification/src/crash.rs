//! The signal that the connection is lost.

use vstd::prelude::*;

verus! {

/// A hook that is to run when the connection is lost, and then never again.
/// Both the reader and the writer report their end here; the hook goes to
/// whoever reports first.
pub struct OnDrop<F> {
    hook: Option<F>,
}

impl<F> OnDrop<F> {
    /// The hook, while it has not been handed out.
    pub closed spec fn armed(&self) -> Option<F> {
        self.hook
    }

    /// A signal that holds `hook`.
    pub fn new(hook: F) -> (signal: Self)
        ensures
            signal.armed() == Some(hook),
    {
        OnDrop { hook: Some(hook) }
    }

    /// Hands out the hook, for the caller to run, the first time it is
    /// called; afterwards there is nothing left to hand out.
    pub fn consume(&mut self) -> (hook: Option<F>)
        ensures
            hook == old(self).armed(),
            final(self).armed() is None,
    {
        self.hook.take()
    }
}

} // verus!
