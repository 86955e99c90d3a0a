//! Extractors: values a handler receives before its signal, built from the
//! signal and the application state.

use vstd::prelude::*;

verus! {

/// Builds `Self` from the signal `T` and the application state `S`.
pub trait FromRequest<T, S>: Sized {
    /// Extracts `Self` from the given signal and application state.
    fn from_request(req: &T, state: &S) -> Self;
}

/// Extractor that hands the handler a clone of the shared application state.
pub struct State<T>(pub T);

impl<T, S: Clone> FromRequest<T, S> for State<S> {
    fn from_request(req: &T, state: &S) -> (r: Self)
        ensures
            cloned(*state, r.0),
    {
        State(state.clone())
    }
}

} // verus!
