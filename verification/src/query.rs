//! The read side: model readers and queries.
//!
//! A model reader updates one read model with data extracted from events; a
//! query retrieves information from read models. Both are pure with respect
//! to their specifications: what a query returns is a function of the query
//! value alone.

use vstd::prelude::*;

use crate::error::CqrsError;
use crate::repository::Repository;

verus! {

/// A read model updater: applies projected data to storage it owns.
pub trait ModelReader: Sized + View {
    /// The repository this reader writes through.
    type Repo: Repository;

    /// The projected data this reader accepts.
    type Model;

    /// The reader's state after accepting `data` in state `pre`.
    spec fn sp_update(pre: Self::V, data: Self::Model) -> Self::V;

    /// Updates the read model with `data`. On failure nothing changed.
    fn update(&mut self, data: Self::Model) -> (r: Result<(), CqrsError>)
        ensures
            r is Ok ==> final(self)@ == Self::sp_update(old(self)@, data),
            r matches Err(_) ==> final(self)@ == old(self)@,
    ;
}

/// A query over read models: a request value whose answer is a function of
/// the value alone.
pub trait Query: Sized {
    /// The type of the answer.
    type Output;

    /// The answer.
    spec fn sp_apply(&self) -> Self::Output;

    /// Computes the answer.
    fn apply(&self) -> (r: Self::Output)
        ensures
            r == self.sp_apply(),
    ;
}

/// The ability to run queries. The orchestrator implements it, and so may
/// consumers or other parts of an application.
pub trait QueriesRunner {
    /// Runs `query` and returns its answer.
    fn query<A: Query>(&self, query: &A) -> (r: A::Output)
        ensures
            r == query.sp_apply(),
    {
        query.apply()
    }
}

} // verus!
