//! The command contract.
//!
//! A command is a request to change aggregate state. It is consumed exactly
//! once by its handler, which inspects the current state (and an
//! application-supplied context) and either rejects the request or returns
//! the ordered list of events that represent the transition — possibly more
//! than one, when a single command triggers a cascading consequence.

use vstd::prelude::*;

use crate::aggregate::Aggregate;
use crate::error::CqrsError;
use crate::error::ErrorV;
use crate::events::views;
use crate::events::Event;
use crate::events::EventV;

verus! {

/// A request to change the state of an aggregate.
///
/// The handler is a pure decision: what it returns is the function
/// [`Command::sp_handle`] of the command, the current aggregate state and
/// the context. Validation happens here, before any event is produced; a
/// rejected command returns an error and no events.
pub trait Command<Ctx>: Sized {
    /// The type of aggregate this command acts on.
    type Aggregate: Aggregate;

    /// The handler's decision: the events that represent the transition, or
    /// the error that rejects the command.
    spec fn sp_handle(&self, aggregate: Self::Aggregate, context: Ctx) -> Result<
        Seq<EventV>,
        ErrorV,
    >;

    /// Handles the command against the current aggregate state, producing
    /// the events of the transition or a rejection.
    fn handle(&self, aggregate: &Self::Aggregate, context: &Ctx) -> (r: Result<
        Vec<Event>,
        CqrsError,
    >)
        ensures
            match r {
                Ok(events) => self.sp_handle(*aggregate, *context) matches Ok(v) && views(events@)
                    == v,
                Err(e) => self.sp_handle(*aggregate, *context) matches Err(ev) && e@ == ev,
            },
    ;
}

} // verus!
