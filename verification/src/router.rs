//! The routing table.
//!
//! A router is an ordered list of routes. A route registered with
//! [`Router::route`] still waits for its application state; [`Router::with_state`]
//! seals every waiting route with (a clone of) the given state and leaves the
//! routes sealed earlier untouched. [`Router::into_routes`] turns the table
//! into the services that are started, one per registered route, in order;
//! routes still waiting at that point get the unit state.

use std::marker::PhantomData;
use vstd::prelude::*;

verus! {

/// A handler that still needs its state, and can be turned into a route once
/// the state is known.
pub trait IntoRoute<S, R>: Sized {
    /// Consumes `self` and creates the route served with `state`.
    fn into_route(self, state: S) -> R;
}

/// One entry of the routing table.
pub enum BoxedIntoRoute<P, R> {
    /// A handler that still needs its state.
    MakeBoxedHandler(P),
    /// A route, primed and ready to serve.
    Route(R),
}

/// `after` is what sealing `before` with a clone of `state` gives: a waiting
/// handler becomes the route that `into_route` builds from it, and a ready
/// route stays as it is.
pub open spec fn sealed_with<S: Clone, P: IntoRoute<S, R>, R, P2>(
    before: BoxedIntoRoute<P, R>,
    after: BoxedIntoRoute<P2, R>,
    state: S,
) -> bool {
    match before {
        BoxedIntoRoute::MakeBoxedHandler(h) => after matches BoxedIntoRoute::Route(r) && exists|s: S|
            cloned(state, s) && #[trigger] call_ensures(P::into_route, (h, s), r),
        BoxedIntoRoute::Route(r0) => after matches BoxedIntoRoute::Route(r) && r == r0,
    }
}

/// Every entry of `routes` is a ready route.
pub open spec fn all_ready<P, R>(routes: Seq<BoxedIntoRoute<P, R>>) -> bool {
    forall|i: int| 0 <= i < routes.len() ==> #[trigger] routes[i] is Route
}

impl<P, R> BoxedIntoRoute<P, R> {
    /// Wraps a handler that still needs its state.
    pub fn make(h: P) -> (r: Self)
        ensures
            r == BoxedIntoRoute::<P, R>::MakeBoxedHandler(h),
    {
        BoxedIntoRoute::MakeBoxedHandler(h)
    }

    /// Injects the application state, producing a ready route; a route that
    /// is ready already is kept.
    pub fn into_route<S, P2>(self, state: S) -> (r: BoxedIntoRoute<P2, R>) where
        P: IntoRoute<S, R>,
        ensures
            match self {
                BoxedIntoRoute::MakeBoxedHandler(h) => r matches BoxedIntoRoute::Route(x)
                    && call_ensures(P::into_route, (h, state), x),
                BoxedIntoRoute::Route(x0) => r matches BoxedIntoRoute::Route(x) && x == x0,
            },
    {
        match self {
            BoxedIntoRoute::MakeBoxedHandler(h) => {
                let route = h.into_route(state);
                BoxedIntoRoute::Route(route)
            },
            BoxedIntoRoute::Route(route) => BoxedIntoRoute::Route(route),
        }
    }
}

/// The ordered list of routes of a router.
struct Routes<P, R>(Vec<BoxedIntoRoute<P, R>>);

impl<P, R> Routes<P, R> {
    /// An empty set of routes.
    fn new() -> (r: Self)
        ensures
            r.0@ == Seq::<BoxedIntoRoute<P, R>>::empty(),
    {
        Routes(Vec::new())
    }

    /// Appends a new entry to the routing table.
    fn route(&mut self, handler: BoxedIntoRoute<P, R>)
        ensures
            final(self).0@ == old(self).0@.push(handler),
    {
        self.0.push(handler);
    }
}

/// Wires signals up to handlers. `S` is the state that the routes registered
/// since the last [`Router::with_state`] wait for.
pub struct Router<S, P, R> {
    routes: Routes<P, R>,
    state: PhantomData<S>,
}

impl<S, P, R> View for Router<S, P, R> {
    type V = Seq<BoxedIntoRoute<P, R>>;

    closed spec fn view(&self) -> Seq<BoxedIntoRoute<P, R>> {
        self.routes.0@
    }
}

impl<S, P, R> Router<S, P, R> {
    /// Creates a router with no routes.
    pub fn new() -> (r: Self)
        ensures
            r@ == Seq::<BoxedIntoRoute<P, R>>::empty(),
    {
        Router { routes: Routes::new(), state: PhantomData }
    }

    /// Adds a handler that waits for the router's state; it comes after every
    /// route registered before it.
    pub fn route(self, h: P) -> (r: Self)
        ensures
            r@ == self@.push(BoxedIntoRoute::MakeBoxedHandler(h)),
    {
        let mut this = self;
        this.routes.route(BoxedIntoRoute::make(h));
        this
    }

    /// Seals every waiting route with a clone of `state`; routes sealed
    /// earlier are left unchanged. The result has no waiting route.
    pub fn with_state<S2, P2>(self, state: S) -> (r: Router<S2, P2, R>) where
        S: Clone,
        P: IntoRoute<S, R>,
        ensures
            r@.len() == self@.len(),
            forall|i: int| 0 <= i < self@.len() ==> sealed_with(self@[i], #[trigger] r@[i], state),
            all_ready(r@),
    {
        let ghost before = self@;
        let mut routes: Vec<BoxedIntoRoute<P2, R>> = Vec::new();
        for route in it: self.routes.0.into_iter()
            invariant
                it.seq() == before,
                routes@.len() == it.index(),
                forall|j: int| 0 <= j < routes@.len() ==> sealed_with(before[j], #[trigger] routes@[j], state),
        {
            let sealed = match route {
                BoxedIntoRoute::MakeBoxedHandler(_) => {
                    let s = state.clone();
                    route.into_route(s)
                },
                BoxedIntoRoute::Route(x) => BoxedIntoRoute::Route(x),
            };
            routes.push(sealed);
        }
        Router { routes: Routes(routes), state: PhantomData }
    }
}

impl<P, R> Router<(), P, R> {
    /// The services that running the router starts: one per registered
    /// route, in registration order. A route still waiting for its state is
    /// sealed with the unit state.
    pub fn into_routes(self) -> (r: Vec<R>) where P: IntoRoute<(), R>,
        ensures
            r@.len() == self@.len(),
            forall|i: int|
                0 <= i < self@.len() ==> match #[trigger] self@[i] {
                    BoxedIntoRoute::MakeBoxedHandler(h) => call_ensures(P::into_route, (h, ()), r@[i]),
                    BoxedIntoRoute::Route(x) => r@[i] == x,
                },
    {
        let ghost before = self@;
        let mut services: Vec<R> = Vec::new();
        for route in it: self.routes.0.into_iter()
            invariant
                it.seq() == before,
                services@.len() == it.index(),
                forall|j: int|
                    0 <= j < services@.len() ==> match #[trigger] before[j] {
                        BoxedIntoRoute::MakeBoxedHandler(h) => call_ensures(P::into_route, (h, ()), services@[j]),
                        BoxedIntoRoute::Route(x) => services@[j] == x,
                    },
        {
            let service = match route {
                BoxedIntoRoute::MakeBoxedHandler(boxed_handler) => boxed_handler.into_route(()),
                BoxedIntoRoute::Route(route) => route,
            };
            services.push(service);
        }
        services
    }
}

/// Sealing a router whose routes are all ready changes none of them.
pub proof fn lemma_sealed_routes_are_kept<S: Clone, P: IntoRoute<S, R>, R, P2>(
    before: Seq<BoxedIntoRoute<P, R>>,
    after: Seq<BoxedIntoRoute<P2, R>>,
    state: S,
)
    requires
        all_ready(before),
        after.len() == before.len(),
        forall|i: int| 0 <= i < before.len() ==> sealed_with(before[i], #[trigger] after[i], state),
    ensures
        forall|i: int| 0 <= i < before.len() ==> (#[trigger] after[i] matches BoxedIntoRoute::Route(x)
            && before[i] == BoxedIntoRoute::<P, R>::Route(x)),
{
    assert forall|i: int| 0 <= i < before.len() implies (#[trigger] after[i] matches BoxedIntoRoute::Route(x)
        && before[i] == BoxedIntoRoute::<P, R>::Route(x)) by {
        assert(before[i] is Route);
        assert(sealed_with(before[i], after[i], state));
    }
}

/// With `route(h)` and then `with_state(state)` on a router whose routes are
/// all sealed, the earlier routes stay as they were and `h` becomes the last
/// route, built from `h` and a clone of `state`.
pub proof fn lemma_route_then_seal<S: Clone, P: IntoRoute<S, R>, R, P2>(
    sealed: Seq<BoxedIntoRoute<P, R>>,
    h: P,
    after: Seq<BoxedIntoRoute<P2, R>>,
    state: S,
)
    requires
        all_ready(sealed),
        after.len() == sealed.len() + 1,
        forall|i: int| 0 <= i < after.len() ==> sealed_with(
            #[trigger] sealed.push(BoxedIntoRoute::MakeBoxedHandler(h))[i], after[i], state),
    ensures
        all_ready(after),
        forall|i: int| 0 <= i < sealed.len() ==> (#[trigger] after[i] matches BoxedIntoRoute::Route(x)
            && sealed[i] == BoxedIntoRoute::<P, R>::Route(x)),
        after.last() matches BoxedIntoRoute::Route(x) && exists|s: S|
            cloned(state, s) && #[trigger] call_ensures(P::into_route, (h, s), x),
{
    let pushed = sealed.push(BoxedIntoRoute::MakeBoxedHandler(h));
    assert forall|i: int| 0 <= i < after.len() implies #[trigger] after[i] is Route by {
        assert(sealed_with(pushed[i], after[i], state));
    }
    assert forall|i: int| 0 <= i < sealed.len() implies (#[trigger] after[i] matches BoxedIntoRoute::Route(x)
        && sealed[i] == BoxedIntoRoute::<P, R>::Route(x)) by {
        assert(pushed[i] == sealed[i]);
        assert(sealed[i] is Route);
        assert(sealed_with(pushed[i], after[i], state));
    }
    assert(pushed[sealed.len() as int] == BoxedIntoRoute::<P, R>::MakeBoxedHandler(h));
    assert(sealed_with(pushed[sealed.len() as int], after[sealed.len() as int], state));
}

} // verus!
