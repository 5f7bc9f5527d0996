//! Errors of non-blocking locks
use vstd::prelude::*;

verus! {

/// A lock whose holder panicked, with the guard it held
#[derive(Debug)]
pub struct PoisonError<T> {
    guard: T,
}

impl<T> PoisonError<T> {
    /// The error for a guard
    pub fn new(guard: T) -> (r: Self)
        ensures
            r.spec_guard() == guard,
    {
        Self { guard }
    }

    /// The guard held
    pub closed spec fn spec_guard(&self) -> T {
        self.guard
    }

    /// The guard held
    pub fn into_inner(self) -> (r: T)
        ensures
            r == self.spec_guard(),
    {
        self.guard
    }
}

/// Why a lock could not be taken at once
#[derive(Debug)]
pub enum TryLockError<T> {
    /// Its holder panicked.
    Poisoned(PoisonError<T>),
    /// It is held.
    WouldBlock,
}

impl<T> From<PoisonError<T>> for TryLockError<T> {
    fn from(err: PoisonError<T>) -> (r: TryLockError<T>) {
        TryLockError::Poisoned(err)
    }
}

impl<T> vstd::std_specs::convert::FromSpecImpl<PoisonError<T>> for TryLockError<T> {
    open spec fn obeys_from_spec() -> bool {
        true
    }

    open spec fn from_spec(err: PoisonError<T>) -> Self {
        TryLockError::Poisoned(err)
    }
}

} // verus!
