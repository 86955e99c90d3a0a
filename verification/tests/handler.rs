use rinf_router::extractor::{FromRequest, State};
use rinf_router::handler::{respond, HandlerService, Layered};
use rinf_router::into_response::{DontSend, Outbox, RustSignal};
use rinf_router::test_helpers::Signal;

struct Ack;

impl RustSignal for Ack {
    fn send_signal_to_dart(self, outbox: &mut Outbox) -> bool {
        outbox.record_delivery();
        true
    }
}

#[test]
fn respond_sends_what_the_response_forwards() {
    assert!(!respond((), &mut Outbox::new()));
    assert!(respond((Ack,), &mut Outbox::new()));
    assert!(!respond(None::<(Ack,)>, &mut Outbox::new()));
    assert!(respond(Some((Ack,)), &mut Outbox::new()));
    assert!(!respond(Err::<(Ack,), DontSend<&str>>(DontSend("oops")), &mut Outbox::new()));
}

#[test]
fn state_extractor_clones_the_state() {
    let state = String::from("state");
    let signal = Signal::new("test");
    let State(extracted) = <State<String> as FromRequest<Signal, String>>::from_request(&signal, &state);
    assert_eq!(extracted, "state");
    assert_eq!(state, "state");
}

#[test]
fn handler_service_hands_out_clones() {
    let service = HandlerService::<String, (), Vec<u8>>::new("handler".to_string(), vec![1, 2]);
    let (handler, state) = service.instance();
    assert_eq!(handler, "handler");
    assert_eq!(state, vec![1, 2]);
    let copy = service.clone();
    let (handler, state) = copy.instance();
    assert_eq!(handler, "handler");
    assert_eq!(state, vec![1, 2]);
}

#[test]
fn layered_keeps_layer_and_handler() {
    let layered = Layered::<u8, &str, (), ()>::new(3, "h");
    let again = layered.clone();
    assert_eq!(layered.into_parts(), (3, "h"));
    assert_eq!(again.into_parts(), (3, "h"));
}
