//! Turning a handler's return value into the signal that is forwarded to Dart.
//!
//! `()` and [`DontSend`] forward nothing, `(T,)` forwards `T` itself, and
//! `Result` and `Option` forward whatever their present value forwards
//! (`None` forwards nothing).

use vstd::prelude::*;

verus! {

/// The ledger of what reaches Dart: counts the messages delivered to it.
pub struct Outbox {
    delivered: Ghost<nat>,
}

impl Outbox {
    /// How many messages have been delivered to Dart through this outbox.
    pub closed spec fn delivered(&self) -> nat {
        self.delivered@
    }

    /// An outbox through which nothing has been delivered yet.
    pub fn new() -> (r: Self)
        ensures
            r.delivered() == 0,
    {
        Outbox { delivered: Ghost(0nat) }
    }

    /// Records that one message was delivered to Dart.
    pub fn record_delivery(&mut self)
        ensures
            final(self).delivered() == old(self).delivered() + 1,
    {
        self.delivered = Ghost(self.delivered@ + 1);
    }
}

/// The number of messages one send adds to the outbox: one if it delivered
/// a message, none otherwise.
pub open spec fn delivery_count(sent: bool) -> nat {
    if sent { 1 } else { 0 }
}

/// A value that can be forwarded to the Dart side once a handler finishes.
pub trait RustSignal {
    /// Whether sending this value delivers a message to Dart: a signal
    /// delivers itself unless its type says otherwise.
    open spec fn forwards(&self) -> bool {
        true
    }

    /// Sends this value to Dart, as far as it goes there, records the
    /// delivery in `outbox`, and reports whether a message was delivered:
    /// exactly one message when the value forwards, none otherwise. The
    /// value is consumed, so it can be sent only once.
    fn send_signal_to_dart(self, outbox: &mut Outbox) -> (sent: bool)
        ensures
            sent == self.forwards(),
            final(outbox).delivered() == old(outbox).delivered() + delivery_count(sent),
    ;
}

/// Converts a handler's return value into a concrete [`RustSignal`].
pub trait IntoResponse: Sized {
    /// The signal produced by the conversion.
    type Response: RustSignal;

    /// Performs the conversion.
    fn into_response(self) -> Self::Response;
}

/// One of two possible signals; forwards whichever one it holds.
pub enum Either<A, B> {
    A(A),
    B(B),
}

impl<A: RustSignal, B: RustSignal> RustSignal for Either<A, B> {
    open spec fn forwards(&self) -> bool {
        match self {
            Either::A(a) => a.forwards(),
            Either::B(b) => b.forwards(),
        }
    }

    fn send_signal_to_dart(self, outbox: &mut Outbox) -> (sent: bool) {
        match self {
            Either::A(a) => a.send_signal_to_dart(outbox),
            Either::B(b) => b.send_signal_to_dart(outbox),
        }
    }
}

/// Wrapper for values that stay on the Rust side: sending it is a no-op.
pub struct DontSend<T = ()>(pub T);

impl<T> RustSignal for DontSend<T> {
    open spec fn forwards(&self) -> bool {
        false
    }

    fn send_signal_to_dart(self, outbox: &mut Outbox) -> (sent: bool) {
        false
    }
}

impl<T> IntoResponse for DontSend<T> {
    type Response = Self;

    fn into_response(self) -> (r: Self::Response)
        ensures
            r == self,
    {
        self
    }
}

impl IntoResponse for () {
    type Response = DontSend;

    fn into_response(self) -> (r: Self::Response)
        ensures
            r == DontSend(()),
    {
        DontSend(())
    }
}

impl<T: IntoResponse, E: IntoResponse> IntoResponse for Result<T, E> {
    type Response = Either<T::Response, E::Response>;

    fn into_response(self) -> (r: Self::Response)
        ensures
            match self {
                Ok(v) => r matches Either::A(w) && call_ensures(T::into_response, (v,), w),
                Err(e) => r matches Either::B(w) && call_ensures(E::into_response, (e,), w),
            },
    {
        match self {
            Ok(v) => Either::A(v.into_response()),
            Err(e) => Either::B(e.into_response()),
        }
    }
}

impl<T: IntoResponse> IntoResponse for Option<T> {
    type Response = Either<T::Response, DontSend>;

    fn into_response(self) -> (r: Self::Response)
        ensures
            match self {
                Some(v) => r matches Either::A(w) && call_ensures(T::into_response, (v,), w),
                None => r == Either::<T::Response, DontSend>::B(DontSend(())),
            },
    {
        match self {
            Some(v) => Either::A(v.into_response()),
            None => Either::B(DontSend(())),
        }
    }
}

impl<T: RustSignal> IntoResponse for (T,) {
    type Response = T;

    fn into_response(self) -> (r: Self::Response)
        ensures
            r == self.0,
    {
        self.0
    }
}

/// Returning `()` from a handler forwards nothing to Dart.
pub proof fn lemma_unit_is_silent(r: DontSend)
    requires
        call_ensures(<() as IntoResponse>::into_response, ((),), r),
    ensures
        !r.forwards(),
{
}

/// A value wrapped in [`DontSend`] stays on the Rust side.
pub proof fn lemma_dont_send_is_silent<T>(value: T, r: DontSend<T>)
    requires
        call_ensures(<DontSend<T> as IntoResponse>::into_response, (DontSend(value),), r),
    ensures
        !r.forwards(),
        r == DontSend(value),
{
}

/// Returning `None` forwards nothing to Dart.
pub proof fn lemma_none_is_silent<T: IntoResponse>(r: Either<T::Response, DontSend>)
    requires
        call_ensures(<Option<T> as IntoResponse>::into_response, (None::<T>,), r),
    ensures
        !r.forwards(),
{
}

/// Returning `Some(v)` forwards exactly what returning `v` itself would.
pub proof fn lemma_some_forwards_as_value<T: IntoResponse>(
    v: T,
    r: Either<T::Response, DontSend>,
)
    requires
        call_ensures(<Option<T> as IntoResponse>::into_response, (Some(v),), r),
    ensures
        exists|w: T::Response|
            call_ensures(T::into_response, (v,), w) && #[trigger] r.forwards() == w.forwards(),
{
    let w = choose|w: T::Response| r == Either::<T::Response, DontSend>::A(w)
        && call_ensures(T::into_response, (v,), w);
    assert(r.forwards() == w.forwards());
}

/// Returning `Ok(v)` forwards what `v` would; returning `Err(e)` forwards what
/// `e` would.
pub proof fn lemma_result_forwards_as_branch<T: IntoResponse, E: IntoResponse>(
    value: Result<T, E>,
    r: Either<T::Response, E::Response>,
)
    requires
        call_ensures(<Result<T, E> as IntoResponse>::into_response, (value,), r),
    ensures
        match value {
            Ok(v) => exists|w: T::Response|
                call_ensures(T::into_response, (v,), w) && #[trigger] r.forwards() == w.forwards(),
            Err(e) => exists|w: E::Response|
                call_ensures(E::into_response, (e,), w) && #[trigger] r.forwards() == w.forwards(),
        },
{
    match value {
        Ok(v) => {
            let w = choose|w: T::Response| r == Either::<T::Response, E::Response>::A(w)
                && call_ensures(T::into_response, (v,), w);
            assert(r.forwards() == w.forwards());
        },
        Err(e) => {
            let w = choose|w: E::Response| r == Either::<T::Response, E::Response>::B(w)
                && call_ensures(E::into_response, (e,), w);
            assert(r.forwards() == w.forwards());
        },
    }
}

/// Returning a one-element tuple `(s,)` forwards the signal `s` itself.
pub proof fn lemma_tuple_forwards_signal<T: RustSignal>(s: T, r: T)
    requires
        call_ensures(<(T,) as IntoResponse>::into_response, ((s,),), r),
    ensures
        r == s,
        r.forwards() == s.forwards(),
{
}

} // verus!
