//! The handler capability and the logging middleware. A `Service` is
//! anything that handles one request against a store state; the middleware
//! wraps any such handler, rejects illegal or malformed commands before the
//! inner handler runs, and otherwise passes the call through unchanged.
//! Timing and trace output around each call are plumbing and live with the
//! caller that composes the middleware.

use vstd::prelude::*;

use crate::dispatch::{dispatch_outcome, DispatchOutcome, OutcomeModel};
use crate::request::{ProtocolError, Request, RequestModel};
use crate::semantics::{apply_request, StoreModel};
use crate::store::S;

verus! {

/// The view of a handler's reply: the dispatch outcome, or the middleware's
/// rejection.
pub open spec fn reply_view(r: Result<DispatchOutcome, ProtocolError>) -> Result<
    OutcomeModel,
    ProtocolError,
> {
    match r {
        Result::Ok(out) => Result::Ok(out@),
        Result::Err(e) => Result::Err(e),
    }
}

/// The capability of handling one request and answering it, shared by the
/// dispatcher and by every middleware wrapped around it.
pub trait Service: Sized {
    /// The store state the handler answers from.
    spec fn sview(&self) -> StoreModel;

    /// The handler's contract: how one call relates the state before, the
    /// request, the state after and the reply.
    spec fn obligation(
        pre: StoreModel,
        req: RequestModel,
        post: StoreModel,
        r: Result<OutcomeModel, ProtocolError>,
    ) -> bool;

    /// Handles one request.
    fn call(&mut self, req: &Request) -> (r: Result<DispatchOutcome, ProtocolError>)
        ensures
            Self::obligation(old(self).sview(), req@, final(self).sview(), reply_view(r)),
    ;
}

impl Service for S {
    open spec fn sview(&self) -> StoreModel {
        self@
    }

    /// The dispatcher's contract: a command with fitting arity is dispatched
    /// per the command table; one with missing fields is refused with no
    /// mutation.
    open spec fn obligation(
        pre: StoreModel,
        req: RequestModel,
        post: StoreModel,
        r: Result<OutcomeModel, ProtocolError>,
    ) -> bool {
        if req.arity_ok() {
            post == apply_request(pre, req) && r == Result::<OutcomeModel, ProtocolError>::Ok(
                dispatch_outcome(pre, req),
            )
        } else {
            post == pre && r == Result::<OutcomeModel, ProtocolError>::Err(ProtocolError)
        }
    }

    fn call(&mut self, req: &Request) -> (r: Result<DispatchOutcome, ProtocolError>) {
        if req.check_arity() {
            Result::Ok(self.redis_command(req))
        } else {
            Result::Err(ProtocolError)
        }
    }
}

/// The logging middleware: wraps any handler and screens each request before
/// the inner handler sees it.
pub struct LogService<T>(pub T);

impl<T: Service> Service for LogService<T> {
    open spec fn sview(&self) -> StoreModel {
        self.0.sview()
    }

    /// A well-formed request is handled exactly as the inner handler's
    /// contract says; an illegal or malformed one is rejected before any
    /// mutation or log append.
    open spec fn obligation(
        pre: StoreModel,
        req: RequestModel,
        post: StoreModel,
        r: Result<OutcomeModel, ProtocolError>,
    ) -> bool {
        if req.well_formed() {
            T::obligation(pre, req, post, r)
        } else {
            post == pre && r == Result::<OutcomeModel, ProtocolError>::Err(ProtocolError)
        }
    }

    fn call(&mut self, req: &Request) -> (r: Result<DispatchOutcome, ProtocolError>) {
        if req.check_well_formed() {
            self.0.call(req)
        } else {
            Result::Err(ProtocolError)
        }
    }
}

/// Composes the logging middleware in front of a handler.
pub struct LogLayer;

impl LogLayer {
    /// Wraps the given handler in the logging middleware.
    pub fn layer<T>(self, inner: T) -> (s: LogService<T>)
        ensures
            s.0 == inner,
    {
        LogService(inner)
    }
}

} // verus!
