use axum_boilerplate::protocol::{broadcast_frame, broadcast_payload, error_frame, Event, Opcode, Reaction};
use axum_boilerplate::pubsub::{PubSubState, Topic};

fn subscribe(state: &mut PubSubState, conn: u128, topic: &str) -> Reaction {
    state.handle(conn, Event::Subscribe { topic: topic.into() })
}

fn publish(state: &mut PubSubState, conn: u128, topic: &str, message: &str) -> Reaction {
    state.handle(conn, Event::Publish { topic: topic.into(), message: message.into() })
}

#[test]
fn subscriber_receives_a_publish_exactly_once() {
    let mut state = PubSubState::new();
    assert!(matches!(subscribe(&mut state, 1, "news"), Reaction::Continue));
    assert!(matches!(subscribe(&mut state, 1, "news"), Reaction::Continue));
    match publish(&mut state, 2, "news", "hello") {
        Reaction::Deliver { recipients, payload } => {
            assert_eq!(recipients, vec![1]);
            assert_eq!(payload, r#"{"topic":"news","message":"hello"}"#);
        }
        other => panic!("unexpected reaction {:?}", other),
    }
}

#[test]
fn last_cancel_removes_the_topic() {
    let mut state = PubSubState::new();
    subscribe(&mut state, 1, "t");
    subscribe(&mut state, 2, "t");
    assert!(matches!(state.handle(1, Event::Cancel { topic: "t".into() }), Reaction::Continue));
    assert_eq!(state.subscribers_of("t"), vec![2]);
    state.handle(2, Event::Cancel { topic: "t".into() });
    assert!(state.subscribers_of("t").is_empty());
    match publish(&mut state, 3, "t", "m") {
        Reaction::Deliver { recipients, .. } => assert!(recipients.is_empty()),
        other => panic!("unexpected reaction {:?}", other),
    }
}

#[test]
fn disconnect_sweeps_every_topic() {
    let mut state = PubSubState::new();
    subscribe(&mut state, 1, "a");
    subscribe(&mut state, 1, "b");
    subscribe(&mut state, 2, "b");
    state.disconnect(1);
    assert!(state.subscribers_of("a").is_empty());
    assert_eq!(state.subscribers_of("b"), vec![2]);
    state.disconnect(2);
    assert!(state.subscribers_of("b").is_empty());
}

#[test]
fn publish_reaches_only_that_topic() {
    let mut state = PubSubState::new();
    subscribe(&mut state, 1, "t1");
    subscribe(&mut state, 2, "t2");
    match publish(&mut state, 1, "t1", "m") {
        Reaction::Deliver { recipients, .. } => assert_eq!(recipients, vec![1]),
        other => panic!("unexpected reaction {:?}", other),
    }
    match publish(&mut state, 1, "t2", "m") {
        Reaction::Deliver { recipients, .. } => assert_eq!(recipients, vec![2]),
        other => panic!("unexpected reaction {:?}", other),
    }
}

#[test]
fn subscribers_keep_their_order() {
    let mut state = PubSubState::new();
    subscribe(&mut state, 3, "t");
    subscribe(&mut state, 1, "t");
    subscribe(&mut state, 2, "t");
    state.cancel(1, "t");
    state.subscribe(1, "t");
    assert_eq!(state.subscribers_of("t"), vec![3, 2, 1]);
}

#[test]
fn frames_are_escaped_json() {
    assert_eq!(
        broadcast_payload("a\"b", "line\nbreak"),
        r#"{"topic":"a\"b","message":"line\nbreak"}"#
    );
    assert_eq!(broadcast_frame("1", "[2]"), r#"{"topic":1,"message":[2]}"#);
    assert_eq!(error_frame("boom"), "error : boom");
}

#[test]
fn unknown_and_malformed_frames_fail() {
    let mut state = PubSubState::new();
    match state.handle(1, Event::UnknownOp) {
        Reaction::Fail { frame } => assert_eq!(frame, "error : Unknown message"),
        other => panic!("unexpected reaction {:?}", other),
    }
    match state.handle(1, Event::Malformed { detail: "eof".into() }) {
        Reaction::Fail { frame } => assert_eq!(frame, "error : eof"),
        other => panic!("unexpected reaction {:?}", other),
    }
}

#[test]
fn control_frames() {
    let mut state = PubSubState::new();
    match state.handle(1, Event::Ping) {
        Reaction::Reply { pong } => assert_eq!(pong, "Pong"),
        other => panic!("unexpected reaction {:?}", other),
    }
    match state.handle(1, Event::Pong) {
        Reaction::Reply { pong } => assert_eq!(pong, "ping"),
        other => panic!("unexpected reaction {:?}", other),
    }
    assert!(matches!(state.handle(1, Event::Binary), Reaction::Continue));
    assert!(matches!(state.handle(1, Event::Close), Reaction::Stop));
}

#[test]
fn opcodes_parse() {
    assert_eq!(Opcode::parse("subscribe"), Some(Opcode::Subscribe));
    assert_eq!(Opcode::parse("publish"), Some(Opcode::Publish));
    assert_eq!(Opcode::parse("cancel"), Some(Opcode::Cancel));
    assert_eq!(Opcode::parse("Subscribe"), None);
    assert_eq!(Opcode::parse(""), None);
}

#[test]
fn new_topic_has_no_subscribers() {
    let t = Topic::new("x".into());
    assert_eq!(t.topic, "x");
    assert!(t.subscribers.is_empty());
}
