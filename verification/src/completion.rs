use vstd::prelude::*;

verus! {

/// The aggregate outcome of a batch, shared by every worker of a pool.
///
/// It starts clean. The first fatal error that is recorded stays; later ones
/// are dropped, and nothing ever clears it.
pub struct CompletionState<E> {
    first: Option<E>,
}

impl<E> CompletionState<E> {
    /// The first fatal error recorded so far, if any.
    pub closed spec fn first_error(&self) -> Option<E> {
        self.first
    }

    /// Whether a fatal error was recorded.
    pub open spec fn errored(&self) -> bool {
        self.first_error().is_some()
    }

    /// A clean state.
    pub fn new() -> (s: Self)
        ensures
            s.first_error() == None::<E>,
    {
        CompletionState { first: None }
    }

    /// Whether a fatal error was recorded.
    pub fn is_errored(&self) -> (r: bool)
        ensures
            r == self.errored(),
    {
        self.first.is_some()
    }

    /// The state as a result: `Ok` while clean, else the first fatal error.
    pub fn result(&self) -> (r: Result<(), &E>)
        ensures
            r.is_ok() == !self.errored(),
            r.is_err() ==> Some(*r.unwrap_err()) == self.first_error(),
    {
        match &self.first {
            Some(e) => Err(e),
            None => Ok(()),
        }
    }

    /// Records a fatal error. The first one wins: on a state that already holds
    /// an error nothing changes.
    pub fn record(&mut self, err: E)
        ensures
            final(self).first_error() == (if old(self).errored() {
                old(self).first_error()
            } else {
                Some(err)
            }),
    {
        if self.first.is_none() {
            self.first = Some(err);
        }
    }
}

} // verus!
