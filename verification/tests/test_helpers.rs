use rinf_router::test_helpers::{
    decimal_string, tag_string, MessageModifiable, Signal, TrackingLayer, TrackingService,
};

#[test]
fn signal_new_keeps_message() {
    assert_eq!(Signal::new("test").message, "test");
    assert_eq!(Signal::new("").message, "");
}

#[test]
fn modify_message_appends() {
    let mut signal = Signal::new("a");
    signal.modify_message("bc");
    assert_eq!(signal.message, "abc");
}

#[test]
fn decimal_string_matches_display() {
    for n in [0usize, 1, 9, 10, 42, 1234, 100000, usize::MAX] {
        assert_eq!(decimal_string(n), n.to_string());
    }
    assert_eq!(tag_string(7), "7 ");
    assert_eq!(tag_string(12), "12 ");
}

#[test]
fn nested_tracking_tags_outer_first() {
    let outer: TrackingService<1, TrackingService<2, ()>> =
        TrackingLayer::<1>.layer(TrackingLayer::<2>.layer(()));
    let (inner, signal) = outer.tag(Signal::new(""));
    let ((), signal) = inner.tag(signal);
    assert_eq!(signal.message, "1 2 ");
}

#[test]
fn tracking_service_clone_keeps_inner() {
    let service: TrackingService<3, String> = TrackingLayer::<3>.layer("inner".to_string());
    let copy = service.clone();
    let (inner, signal) = copy.tag(Signal::new("x"));
    assert_eq!(inner, "inner");
    assert_eq!(signal.message, "x3 ");
}
