//! Handlers bound to their state, handlers wrapped in a middleware layer, and
//! the last step of every handler run: converting its result and sending it.

use std::marker::PhantomData;
use vstd::prelude::*;

use crate::into_response::{delivery_count, IntoResponse, Outbox, RustSignal};

verus! {

/// A handler together with the state it is served with.
pub struct HandlerService<H, T, S> {
    handler: H,
    state: S,
    _phantom: PhantomData<T>,
}

impl<H, T, S> HandlerService<H, T, S> {
    /// The handler this service calls.
    pub closed spec fn handler(&self) -> H {
        self.handler
    }

    /// The state this service hands to its handler.
    pub closed spec fn state(&self) -> S {
        self.state
    }

    /// Creates a service from a handler and its state.
    pub fn new(handler: H, state: S) -> (r: Self)
        ensures
            r.handler() == handler,
            r.state() == state,
    {
        HandlerService { handler, state, _phantom: PhantomData }
    }

    /// What one call of the service runs: a fresh clone of the handler and a
    /// fresh clone of the state, so that no call sees another call's copy.
    pub fn instance(&self) -> (r: (H, S)) where H: Clone, S: Clone,
        ensures
            cloned(self.handler(), r.0),
            cloned(self.state(), r.1),
    {
        (self.handler.clone(), self.state.clone())
    }
}

impl<H: Clone, T, S: Clone> Clone for HandlerService<H, T, S> {
    /// A clone of the handler with a clone of the state.
    fn clone(&self) -> (r: Self)
        ensures
            cloned(self.handler(), r.handler()),
            cloned(self.state(), r.state()),
    {
        HandlerService { handler: self.handler.clone(), state: self.state.clone(), _phantom: PhantomData }
    }
}

/// A handler wrapped in a middleware layer.
pub struct Layered<L, H, T, S> {
    layer: L,
    handler: H,
    _phantom: PhantomData<(T, S)>,
}

impl<L, H, T, S> Layered<L, H, T, S> {
    /// The layer wrapped around the handler.
    pub closed spec fn layer(&self) -> L {
        self.layer
    }

    /// The wrapped handler.
    pub closed spec fn handler(&self) -> H {
        self.handler
    }

    /// Wraps `handler` in `layer`.
    pub fn new(layer: L, handler: H) -> (r: Self)
        ensures
            r.layer() == layer,
            r.handler() == handler,
    {
        Layered { layer, handler, _phantom: PhantomData }
    }

    /// Takes the layer and the handler apart again.
    pub fn into_parts(self) -> (r: (L, H))
        ensures
            r.0 == self.layer(),
            r.1 == self.handler(),
    {
        (self.layer, self.handler)
    }

}

impl<L: Clone, H: Clone, T, S> Clone for Layered<L, H, T, S> {
    /// A clone of the layer wrapped around a clone of the handler.
    fn clone(&self) -> (r: Self)
        ensures
            cloned(self.layer(), r.layer()),
            cloned(self.handler(), r.handler()),
    {
        Layered { layer: self.layer.clone(), handler: self.handler.clone(), _phantom: PhantomData }
    }
}

/// The end of every handler run: converts the handler's result into its
/// response and sends that to Dart, once. Returns whether a message was
/// delivered, which is exactly whether the response forwards one; the outbox
/// records that one delivery and no other.
pub fn respond<R: IntoResponse>(value: R, outbox: &mut Outbox) -> (sent: bool)
    ensures
        exists|w: R::Response| call_ensures(R::into_response, (value,), w) && #[trigger] w.forwards() == sent,
        final(outbox).delivered() == old(outbox).delivered() + delivery_count(sent),
{
    let response = value.into_response();
    response.send_signal_to_dart(outbox)
}

} // verus!
