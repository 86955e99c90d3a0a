//! The signal loop: the outermost service of every route.
//!
//! It listens for signals of one type, forever: each signal received is
//! handed to a fresh clone of the inner service, whatever the earlier handlers
//! returned, and a receive that yields nothing (the receiver was closed or
//! replaced by a newer one) only makes the loop listen again.

use std::marker::PhantomData;
use vstd::prelude::*;

verus! {

/// Where the signal loop stands.
#[derive(Clone, Copy, PartialEq, Eq, Structural)]
pub enum LoopPhase {
    /// Waiting for the next signal.
    Listening,
    /// A signal was handed to the inner service; waiting for its outcome.
    Handling,
}

/// What the loop learns: a receive that gave a signal or yielded nothing,
/// or the outcome of the inner service on the last signal.
pub enum LoopEvent<T, R, E> {
    Received(Option<T>),
    Handled(Result<R, E>),
}

/// What the loop does next, as a model without the inner service.
pub enum Step<T> {
    /// Hand this signal to the inner service.
    Dispatch(T),
    /// Wait for the next signal.
    Listen,
}

/// What the loop does next: hand a signal to a clone of the inner service,
/// or listen again.
pub enum LoopAction<S, T> {
    Dispatch(S, T),
    Listen,
}

/// One transition of the loop. An event that cannot come in a phase (a
/// receive while a signal is being handled, an outcome while listening) is
/// ignored.
pub open spec fn transition<T, R, E>(phase: LoopPhase, event: LoopEvent<T, R, E>) -> (LoopPhase, Step<T>) {
    match phase {
        LoopPhase::Listening => match event {
            LoopEvent::Received(Some(m)) => (LoopPhase::Handling, Step::Dispatch(m)),
            LoopEvent::Received(None) => (LoopPhase::Listening, Step::Listen),
            LoopEvent::Handled(_) => (LoopPhase::Listening, Step::Listen),
        },
        LoopPhase::Handling => match event {
            LoopEvent::Handled(_) => (LoopPhase::Listening, Step::Listen),
            LoopEvent::Received(_) => (LoopPhase::Handling, Step::Listen),
        },
    }
}

/// The phase reached and the signals dispatched, in order, when the loop
/// goes through `events` from `phase`.
pub open spec fn run_events<T, R, E>(phase: LoopPhase, events: Seq<LoopEvent<T, R, E>>) -> (LoopPhase, Seq<T>)
    decreases events.len(),
{
    if events.len() == 0 {
        (phase, Seq::empty())
    } else {
        let (next, step) = transition(phase, events[0]);
        let (last, rest) = run_events(next, events.drop_first());
        match step {
            Step::Dispatch(m) => (last, seq![m] + rest),
            _ => (last, rest),
        }
    }
}

/// The events of a loop that goes through `rounds`: a round either receives
/// nothing, or receives a signal and then gets the inner service's outcome
/// on it.
pub open spec fn session<T, R, E>(rounds: Seq<Option<(T, Result<R, E>)>>) -> Seq<LoopEvent<T, R, E>>
    decreases rounds.len(),
{
    if rounds.len() == 0 {
        Seq::empty()
    } else {
        let first = match rounds[0] {
            None => seq![LoopEvent::Received(None)],
            Some((m, outcome)) => seq![LoopEvent::Received(Some(m)), LoopEvent::Handled(outcome)],
        };
        first + session(rounds.drop_first())
    }
}

/// The signals that `rounds` receive, in order.
pub open spec fn received_signals<T, R, E>(rounds: Seq<Option<(T, Result<R, E>)>>) -> Seq<T>
    decreases rounds.len(),
{
    if rounds.len() == 0 {
        Seq::empty()
    } else {
        match rounds[0] {
            None => received_signals(rounds.drop_first()),
            Some((m, _)) => seq![m] + received_signals(rounds.drop_first()),
        }
    }
}

/// A receive that yields nothing does not end the loop: it listens again.
pub proof fn lemma_empty_receive_keeps_listening<T, R, E>()
    ensures
        transition::<T, R, E>(LoopPhase::Listening, LoopEvent::Received(None))
            == (LoopPhase::Listening, Step::<T>::Listen),
{
}

/// Whatever the inner service returns for a signal, success or error, the
/// loop goes back to listening: a failing handler never stops it.
pub proof fn lemma_outcome_keeps_listening<T, R, E>(outcome: Result<R, E>)
    ensures
        transition::<T, R, E>(LoopPhase::Handling, LoopEvent::Handled(outcome))
            == (LoopPhase::Listening, Step::<T>::Listen),
{
}

/// Every signal received is dispatched exactly once, in the order received,
/// whatever the handlers returned and however many receives yielded
/// nothing in between; after every round the loop is listening again.
pub proof fn lemma_session_dispatches_every_signal<T, R, E>(rounds: Seq<Option<(T, Result<R, E>)>>)
    ensures
        run_events(LoopPhase::Listening, session(rounds)) == (LoopPhase::Listening, received_signals(rounds)),
    decreases rounds.len(),
{
    let events = session(rounds);
    if rounds.len() == 0 {
        assert(events =~= Seq::<LoopEvent<T, R, E>>::empty());
    } else {
        let rest = session(rounds.drop_first());
        lemma_session_dispatches_every_signal(rounds.drop_first());
        let tail = received_signals(rounds.drop_first());
        match rounds[0] {
            None => {
                assert(events.drop_first() =~= rest);
                assert(events[0] == LoopEvent::<T, R, E>::Received(None));
            },
            Some((m, outcome)) => {
                assert(events.drop_first().drop_first() =~= rest);
                assert(events[0] == LoopEvent::<T, R, E>::Received(Some(m)));
                assert(events.drop_first()[0] == LoopEvent::<T, R, E>::Handled(outcome));
                assert(run_events(LoopPhase::Handling, events.drop_first()) == (LoopPhase::Listening, tail));
            },
        }
    }
}

/// The outermost service of a route: loops forever over the signals of type
/// `T` and hands each one to the inner service `S`.
pub struct SignalService<S, T> {
    inner: S,
    _phantom: PhantomData<T>,
}

impl<S, T> SignalService<S, T> {
    /// The service each signal is handed to.
    pub closed spec fn inner(&self) -> S {
        self.inner
    }

    /// Creates a signal loop around `service`.
    pub fn new(service: S) -> (r: Self)
        ensures
            r.inner() == service,
    {
        SignalService { inner: service, _phantom: PhantomData }
    }

    /// Decides the loop's next phase and action on `event`. A dispatch hands
    /// the signal, unchanged, to a fresh clone of the inner service.
    pub fn step<R, E>(&self, phase: LoopPhase, event: LoopEvent<T, R, E>) -> (r: (LoopPhase, LoopAction<S, T>))
        where S: Clone,
        ensures
            r.0 == transition(phase, event).0,
            match transition(phase, event).1 {
                Step::Dispatch(m) => r.1 matches LoopAction::Dispatch(svc, m2) && m2 == m && cloned(self.inner(), svc),
                Step::Listen => r.1 is Listen,
            },
    {
        match phase {
            LoopPhase::Listening => match event {
                LoopEvent::Received(Some(m)) => (LoopPhase::Handling, LoopAction::Dispatch(self.inner.clone(), m)),
                LoopEvent::Received(None) => (LoopPhase::Listening, LoopAction::Listen),
                LoopEvent::Handled(_) => (LoopPhase::Listening, LoopAction::Listen),
            },
            LoopPhase::Handling => match event {
                LoopEvent::Handled(_) => (LoopPhase::Listening, LoopAction::Listen),
                LoopEvent::Received(_) => (LoopPhase::Handling, LoopAction::Listen),
            },
        }
    }
}

impl<S: Clone, T> Clone for SignalService<S, T> {
    /// A signal loop around a clone of the inner service.
    fn clone(&self) -> (r: Self)
        ensures
            cloned(self.inner(), r.inner()),
    {
        SignalService { inner: self.inner.clone(), _phantom: PhantomData }
    }
}

} // verus!
