use crate::evaluation::{Evaluation, Position};
use crate::guard::Guard;
use crate::outcome::{EvaluationOutcome, GuardServiceResponse, OutcomeView, UNAUTHORIZED};
use crate::service::GuardService;
use std::sync::Arc;
use vstd::prelude::*;

verus! {

/// The answer sent in place of the protected handler's.
#[derive(Clone, Debug, PartialEq, Eq)]
pub struct Rejection {
    pub status: u16,
    pub body: String,
}

/// What becomes of a request once its evaluation is over.
#[derive(Debug)]
pub enum Disposition<M> {
    /// The request goes on to the protected handler, rebuilt from these metadata
    /// and its untouched body.
    Forward(M),
    /// The handler is not invoked; this is the answer.
    ShortCircuit(Rejection),
}

/// The status and body of the answer that an outcome calls for, or `None` if
/// the request is let through.
///
/// A denial is answered with `UNAUTHORIZED` and its message, or an empty body if it
/// has none. A failed extraction is answered with the status of its kind, which
/// is never `UNAUTHORIZED`, and its detail.
pub open spec fn rejection_of(outcome: OutcomeView) -> Option<(u16, Seq<char>)> {
    match outcome {
        OutcomeView::Allowed => None,
        OutcomeView::Denied(Some(message)) => Some((UNAUTHORIZED, message)),
        OutcomeView::Denied(None) => Some((UNAUTHORIZED, Seq::empty())),
        OutcomeView::ExtractionFailed(error) => Some((error.kind.status(), error.detail)),
    }
}

/// Decides what becomes of a request from the response of its evaluation.
///
/// Only `Allowed` lets the request through, with the metadata the evaluation
/// returned. Everything else ends the request here, and the metadata with it.
pub fn settle<M>(response: GuardServiceResponse<M>) -> (disposition: Disposition<M>)
    ensures
        match rejection_of(response.0@) {
            None => disposition == Disposition::Forward(response.1),
            Some((status, body)) => disposition matches Disposition::ShortCircuit(rejection)
                && rejection.status == status && rejection.body@ == body,
        },
{
    let GuardServiceResponse(outcome, metadata) = response;
    match outcome {
        EvaluationOutcome::Allowed => Disposition::Forward(metadata),
        EvaluationOutcome::Denied(message) => {
            let body = match message {
                Some(text) => text,
                None => String::new(),
            };
            Disposition::ShortCircuit(Rejection { status: UNAUTHORIZED, body })
        },
        EvaluationOutcome::ExtractionFailed(error) => Disposition::ShortCircuit(
            Rejection { status: error.kind.status(), body: error.detail },
        ),
    }
}

/// Another handle on the same shared value. `Arc::clone` makes a new pointer to
/// the allocation its argument points to, so both read the same value.
#[verifier::external_body]
fn share<T>(shared: &Arc<T>) -> (handle: Arc<T>)
    ensures
        handle == *shared,
{
    Arc::clone(shared)
}

/// Mounts one guard service in front of any number of handlers.
#[verifier::reject_recursive_types(State)]
pub struct GuardLayer<State, G> {
    guard_service: Arc<GuardService<State, G>>,
}

/// A handler with a guard service in front of it.
#[verifier::reject_recursive_types(State)]
pub struct GuardServiceWrapper<S, State, G> {
    inner: S,
    guard_service: Arc<GuardService<State, G>>,
}

impl<State, G: Guard> GuardService<State, G> {
    /// The layer that guards with this service.
    pub fn into_layer(self) -> (layer: GuardLayer<State, G>)
        ensures
            layer.guard() == self,
    {
        GuardLayer::with(self)
    }
}

impl<State, G: Guard> GuardLayer<State, G> {
    /// The service that every handler behind this layer is guarded by.
    pub closed spec fn guard(&self) -> GuardService<State, G> {
        *self.guard_service
    }

    /// A layer that guards with `guard`.
    pub fn with(guard: GuardService<State, G>) -> (layer: Self)
        ensures
            layer.guard() == guard,
    {
        GuardLayer { guard_service: Arc::new(guard) }
    }

    /// Puts the guard in front of `inner`. The wrapper shares the layer's
    /// service; nothing is copied.
    pub fn layer<S>(&self, inner: S) -> (wrapper: GuardServiceWrapper<S, State, G>)
        ensures
            wrapper.guard() == self.guard(),
            wrapper.handler() == inner,
    {
        GuardServiceWrapper { inner, guard_service: share(&self.guard_service) }
    }
}

impl<S, State, G: Guard> GuardServiceWrapper<S, State, G> {
    /// The service that guards the handler.
    pub closed spec fn guard(&self) -> GuardService<State, G> {
        *self.guard_service
    }

    /// The protected handler.
    pub closed spec fn handler(&self) -> S {
        self.inner
    }

    /// The protected handler.
    pub fn inner(&self) -> (inner: &S)
        ensures
            *inner == self.handler(),
    {
        &self.inner
    }

    /// The service that guards the handler.
    pub fn guard_service(&self) -> (guard: &GuardService<State, G>)
        ensures
            *guard == self.guard(),
    {
        &self.guard_service
    }

    /// A handle on the guarding service that outlives the borrow of the wrapper.
    pub fn shared_guard(&self) -> (guard: Arc<GuardService<State, G>>)
        ensures
            *guard == self.guard(),
    {
        share(&self.guard_service)
    }

    /// Starts evaluating the guard against one request.
    pub fn begin(&self) -> (evaluation: Evaluation<'_, State, G>)
        ensures
            evaluation@ == Position::start(self.guard()@.tree, self.guard()@.state),
    {
        self.guard_service.begin()
    }
}

impl<State, G: Guard> Clone for GuardLayer<State, G> {
    /// Another handle on the same layer: the guarding service is shared.
    fn clone(&self) -> (copy: Self)
        ensures
            copy.guard() == self.guard(),
    {
        GuardLayer { guard_service: share(&self.guard_service) }
    }
}

impl<S: Clone, State, G: Guard> Clone for GuardServiceWrapper<S, State, G> {
    /// A wrapper around a clone of the handler, guarded by the same service.
    fn clone(&self) -> (copy: Self)
        ensures
            copy.guard() == self.guard(),
            cloned::<S>(self.handler(), copy.handler()),
    {
        GuardServiceWrapper { inner: self.inner.clone(), guard_service: share(&self.guard_service) }
    }
}

} // verus!
