use rinf_router::service::{LoopAction, LoopEvent, LoopPhase, SignalService};

type Event = LoopEvent<&'static str, (), &'static str>;

#[test]
fn received_signal_is_dispatched_to_a_clone() {
    let service: SignalService<String, &str> = SignalService::new("inner".to_string());
    let (phase, action) = service.step(LoopPhase::Listening, Event::Received(Some("hello")));
    assert!(phase == LoopPhase::Handling);
    match action {
        LoopAction::Dispatch(inner, message) => {
            assert_eq!(inner, "inner");
            assert_eq!(message, "hello");
        },
        _ => panic!("expected a dispatch"),
    }
}

#[test]
fn empty_receive_keeps_listening() {
    let service: SignalService<u8, &str> = SignalService::new(0);
    let (phase, action) = service.step(LoopPhase::Listening, Event::Received(None));
    assert!(phase == LoopPhase::Listening);
    assert!(matches!(action, LoopAction::Listen));
    let (phase, action) = service.step(phase, Event::Received(Some("later")));
    assert!(phase == LoopPhase::Handling);
    assert!(matches!(action, LoopAction::Dispatch(0, "later")));
}

#[test]
fn handler_error_keeps_listening() {
    let service: SignalService<u8, &str> = SignalService::new(0);
    let (phase, action) = service.step(LoopPhase::Handling, Event::Handled(Err("failed")));
    assert!(phase == LoopPhase::Listening);
    assert!(matches!(action, LoopAction::Listen));
    let (phase, action) = service.step(LoopPhase::Handling, Event::Handled(Ok(())));
    assert!(phase == LoopPhase::Listening);
    assert!(matches!(action, LoopAction::Listen));
}

#[test]
fn session_dispatches_each_signal_once_in_order() {
    let service: SignalService<u8, &str> = SignalService::new(9);
    let events = vec![
        Event::Received(Some("one")),
        Event::Handled(Err("boom")),
        Event::Received(Some("two")),
        Event::Handled(Ok(())),
        Event::Received(None),
        Event::Received(Some("after an empty receive")),
        Event::Handled(Ok(())),
    ];
    let mut phase = LoopPhase::Listening;
    let mut dispatched = Vec::new();
    for event in events {
        let (next, action) = service.step(phase, event);
        phase = next;
        if let LoopAction::Dispatch(inner, message) = action {
            assert_eq!(inner, 9);
            dispatched.push(message);
        }
    }
    assert!(phase == LoopPhase::Listening);
    assert_eq!(dispatched, vec!["one", "two", "after an empty receive"]);
}
