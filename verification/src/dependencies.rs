//! Dependencies that a handler asks to be run before it.

use vstd::prelude::*;
use core::marker::PhantomData;
use crate::exception::HTTPException;

verus! {

/// Marks a dependency `D` (on state `S`) that is run for its checks alone:
/// its value is not handed to the handler.
#[derive(Debug)]
pub struct Security<D, S> {
    marker: PhantomData<(D, S)>,
}

/// The extractor that runs the dependency `D` for its checks alone.
pub fn security<D, S>() -> (r: Security<D, S>) {
    Security { marker: PhantomData }
}

/// The value of a dependency within one request: resolved at most once,
/// then given to every extractor that asks for it.
#[derive(Debug)]
pub struct DependencyCache<T> {
    value: Option<T>,
}

impl<T> DependencyCache<T> {
    /// The value, once resolved.
    pub closed spec fn resolved(&self) -> Option<T> {
        self.value
    }

    /// Nothing resolved yet.
    pub fn new() -> (r: Self)
        ensures
            r.resolved() is None,
    {
        DependencyCache { value: None }
    }

    /// The value resolved earlier in the request, if any: where there is
    /// one, the dependency is not resolved again.
    pub fn cached(&self) -> (r: Option<&T>)
        ensures
            match self.resolved() {
                Some(v) => r == Some(&v),
                None => r is None,
            },
    {
        match &self.value {
            Some(v) => Some(v),
            None => None,
        }
    }

    /// Records the outcome of resolving the dependency: a value is kept
    /// for the rest of the request; an error is passed on and nothing is
    /// kept, so a later extraction resolves again.
    pub fn settle(&mut self, outcome: Result<T, HTTPException>) -> (r: Result<(), HTTPException>)
        ensures
            match outcome {
                Ok(v) => r is Ok && final(self).resolved() == Some(v),
                Err(e) => r == Err::<(), HTTPException>(e) && final(self).resolved() == old(self).resolved(),
            },
    {
        match outcome {
            Ok(v) => {
                self.value = Some(v);
                Ok(())
            },
            Err(e) => Err(e),
        }
    }
}

} // verus!
