use rinf_router::into_response::{DontSend, Either, IntoResponse, Outbox, RustSignal};

struct DirectReturnTestSignal {
    message: String,
}

impl RustSignal for DirectReturnTestSignal {
    fn send_signal_to_dart(self, outbox: &mut Outbox) -> bool {
        outbox.record_delivery();
        true
    }
}

impl IntoResponse for DirectReturnTestSignal {
    type Response = DirectReturnTestSignal;

    fn into_response(self) -> Self::Response {
        self
    }
}

#[test]
fn test_direct_return_macro() {
    let signal = DirectReturnTestSignal {
        message: "Test message".to_string(),
    };
    let response = signal.into_response();
    assert_eq!(response.message, "Test message");
    assert!(response.send_signal_to_dart(&mut Outbox::new()));
}

#[test]
fn unit_into_response_compiles() {
    let resp = ().into_response();
    assert!(!resp.send_signal_to_dart(&mut Outbox::new()));
}

#[test]
fn dont_send_round_trip() {
    let ok: Result<(), DontSend<&'static str>> = Ok(());
    let resp = ok.into_response();
    assert!(matches!(resp, Either::A(DontSend(()))));
    assert!(!resp.send_signal_to_dart(&mut Outbox::new()));

    let err: Result<(), DontSend<&'static str>> = Err(DontSend("oops"));
    let resp = err.into_response();
    assert!(matches!(resp, Either::B(DontSend("oops"))));
    assert!(!resp.send_signal_to_dart(&mut Outbox::new()));
}

#[test]
fn option_into_response() {
    let some = Some(()).into_response();
    assert!(matches!(some, Either::A(DontSend(()))));
    assert!(!some.send_signal_to_dart(&mut Outbox::new()));

    let none: Option<()> = None;
    let resp = none.into_response();
    assert!(matches!(resp, Either::B(DontSend(()))));
    assert!(!resp.send_signal_to_dart(&mut Outbox::new()));
}

struct Ack;

impl RustSignal for Ack {
    fn send_signal_to_dart(self, outbox: &mut Outbox) -> bool {
        outbox.record_delivery();
        true
    }
}

#[test]
fn tuple_response_forwards_the_signal() {
    let resp = (Ack,).into_response();
    assert!(resp.send_signal_to_dart(&mut Outbox::new()));
}

#[test]
fn result_response_forwards_the_present_branch() {
    let ok: Result<(Ack,), ()> = Ok((Ack,));
    let resp = ok.into_response();
    assert!(matches!(resp, Either::A(Ack)));
    assert!(resp.send_signal_to_dart(&mut Outbox::new()));

    let err: Result<(Ack,), ()> = Err(());
    let resp = err.into_response();
    assert!(matches!(resp, Either::B(DontSend(()))));
    assert!(!resp.send_signal_to_dart(&mut Outbox::new()));

    let err_signal: Result<(), (Ack,)> = Err((Ack,));
    assert!(err_signal.into_response().send_signal_to_dart(&mut Outbox::new()));
}

#[test]
fn option_of_signal_forwards_only_when_present() {
    assert!(Some((Ack,)).into_response().send_signal_to_dart(&mut Outbox::new()));
    let none: Option<(Ack,)> = None;
    assert!(!none.into_response().send_signal_to_dart(&mut Outbox::new()));
}

#[test]
fn dont_send_keeps_its_payload() {
    let resp = DontSend(42u8).into_response();
    assert_eq!(resp.0, 42);
    assert!(!resp.send_signal_to_dart(&mut Outbox::new()));
}

#[test]
fn nested_responses_follow_each_level() {
    let nested: Option<Result<(Ack,), DontSend<u8>>> = Some(Ok((Ack,)));
    assert!(nested.into_response().send_signal_to_dart(&mut Outbox::new()));
    let nested: Option<Result<(Ack,), DontSend<u8>>> = Some(Err(DontSend(1)));
    assert!(!nested.into_response().send_signal_to_dart(&mut Outbox::new()));
}
