use signaling::acceptor::accept;
use signaling::message::welcome_frame;
use signaling::registry::Registry;
use signaling::router::{forward, RouteOutcome};
use signaling::session::{Session, SessionState};

fn open_session(reg: &mut Registry, id: &str) -> Session {
    let mut s = Session::new(id.to_string());
    s.start(reg);
    s
}

#[test]
fn welcome_frame_exact() {
    let w = welcome_frame(&"abc".to_string());
    assert_eq!(w, "{\"type\":\"welcome\",\"id\":\"abc\"}");
}

#[test]
fn accepted_ids_distinct() {
    let mut reg = Registry::new();
    let c1 = accept(&mut reg);
    let c2 = accept(&mut reg);
    let c3 = accept(&mut reg);
    assert_ne!(c1.id, c2.id);
    assert_ne!(c1.id, c3.id);
    assert_ne!(c2.id, c3.id);
    assert_eq!(c1.id.len(), 36);
    assert!(reg.contains(&c1.id));
    assert!(reg.contains(&c2.id));
    assert!(reg.contains(&c3.id));
}

#[test]
fn scenario_call_setup() {
    let mut reg = Registry::new();
    let c1 = accept(&mut reg);
    let w1 = reg.take_outbox(&c1.id);
    assert_eq!(w1, vec![format!("{{\"type\":\"welcome\",\"id\":\"{}\"}}", c1.id)]);
    let mut c2 = accept(&mut reg);
    let w2 = reg.take_outbox(&c2.id);
    assert_eq!(w2, vec![format!("{{\"type\":\"welcome\",\"id\":\"{}\"}}", c2.id)]);
    let offer = format!(
        "{{\"from\":\"{}\",\"to\":\"{}\",\"sdp\":{{\"type\":\"offer\",\"sdp\":\"...\"}}}}",
        c1.id, c2.id
    );
    assert_eq!(c1.handle_frame(&mut reg, &offer), RouteOutcome::Delivered);
    assert_eq!(reg.take_outbox(&c2.id), vec![offer.clone()]);
    c2.close(&mut reg);
    assert_eq!(c2.state, SessionState::Closed);
    assert_eq!(c1.handle_frame(&mut reg, &offer), RouteOutcome::NoRecipient);
    assert_eq!(reg.take_outbox(&c2.id), Vec::<String>::new());
    assert_eq!(reg.take_outbox(&c1.id), Vec::<String>::new());
}

#[test]
fn deliver_right_after_greeting() {
    let mut reg = Registry::new();
    let sender = open_session(&mut reg, "caller");
    let _ = reg.take_outbox(&"caller".to_string());
    let _target = open_session(&mut reg, "callee");
    let text = "{\"from\":\"caller\",\"to\":\"callee\"}".to_string();
    assert_eq!(sender.handle_frame(&mut reg, &text), RouteOutcome::Delivered);
    let frames = reg.take_outbox(&"callee".to_string());
    assert_eq!(
        frames,
        vec!["{\"type\":\"welcome\",\"id\":\"callee\"}".to_string(), text]
    );
}

#[test]
fn malformed_frames_dropped() {
    let mut reg = Registry::new();
    let s = open_session(&mut reg, "a");
    let _ = reg.take_outbox(&"a".to_string());
    let _other = open_session(&mut reg, "b");
    let _ = reg.take_outbox(&"b".to_string());
    let bad_frames = [
        "not json",
        "",
        "{\"from\":\"a\"}",
        "{\"to\":\"b\"}",
        "{\"from\":1,\"to\":\"b\"}",
        "{\"from\":\"a\",\"to\":2}",
        "{\"from\":\"a\",\"to\":[\"b\"]}",
        "[\"from\",\"to\"]",
        "\"from a to b\"",
        "{\"from\":\"a\",\"to\":\"b\"",
    ];
    for bad in bad_frames {
        assert_eq!(s.handle_frame(&mut reg, &bad.to_string()), RouteOutcome::Malformed);
    }
    assert!(reg.contains(&"a".to_string()));
    assert!(reg.contains(&"b".to_string()));
    assert_eq!(reg.take_outbox(&"a".to_string()), Vec::<String>::new());
    assert_eq!(reg.take_outbox(&"b".to_string()), Vec::<String>::new());
    assert_eq!(s.state, SessionState::Open);
}

#[test]
fn pass_through_verbatim() {
    let mut reg = Registry::new();
    let s = open_session(&mut reg, "x");
    let _ = reg.take_outbox(&"x".to_string());
    let _t = open_session(&mut reg, "y");
    let _ = reg.take_outbox(&"y".to_string());
    let text =
        "{\"from\":\"x\",\"to\":\"y\",\"candidate\":{\"c\":1},\"extra\":[1,2,3],\"sdp\":null}"
            .to_string();
    assert_eq!(s.handle_frame(&mut reg, &text), RouteOutcome::Delivered);
    assert_eq!(reg.take_outbox(&"y".to_string()), vec![text]);
    assert_eq!(reg.take_outbox(&"x".to_string()), Vec::<String>::new());
}

#[test]
fn unknown_recipient_silent() {
    let mut reg = Registry::new();
    let s = open_session(&mut reg, "solo");
    let _ = reg.take_outbox(&"solo".to_string());
    let text = "{\"from\":\"solo\",\"to\":\"nobody\"}".to_string();
    assert_eq!(s.handle_frame(&mut reg, &text), RouteOutcome::NoRecipient);
    assert!(!reg.contains(&"nobody".to_string()));
    assert_eq!(reg.take_outbox(&"solo".to_string()), Vec::<String>::new());
}

#[test]
fn forward_unregistered_is_noop() {
    let mut reg = Registry::new();
    let out = forward(&mut reg, &"ghost".to_string(), &"hi".to_string());
    assert_eq!(out, RouteOutcome::NoRecipient);
    assert_eq!(reg.take_outbox(&"ghost".to_string()), Vec::<String>::new());
}

#[test]
fn register_replaces_entry() {
    let mut reg = Registry::new();
    let first = open_session(&mut reg, "dup");
    let text = "{\"from\":\"z\",\"to\":\"dup\"}".to_string();
    assert_eq!(first.handle_frame(&mut reg, &text), RouteOutcome::Delivered);
    let _second = open_session(&mut reg, "dup");
    let frames = reg.take_outbox(&"dup".to_string());
    assert_eq!(frames, vec!["{\"type\":\"welcome\",\"id\":\"dup\"}".to_string()]);
}

#[test]
fn close_is_idempotent() {
    let mut reg = Registry::new();
    let mut s1 = open_session(&mut reg, "k");
    let mut s2 = open_session(&mut reg, "k");
    s1.close(&mut reg);
    assert!(!reg.contains(&"k".to_string()));
    s2.close(&mut reg);
    assert!(!reg.contains(&"k".to_string()));
    assert_eq!(s1.state, SessionState::Closed);
    assert_eq!(s2.state, SessionState::Closed);
}

#[test]
fn same_target_keeps_order() {
    let mut reg = Registry::new();
    let s = open_session(&mut reg, "p");
    let _ = reg.take_outbox(&"p".to_string());
    let _q = open_session(&mut reg, "q");
    let _ = reg.take_outbox(&"q".to_string());
    let m1 = "{\"from\":\"p\",\"to\":\"q\",\"sdp\":\"one\"}".to_string();
    let m2 = "{\"from\":\"p\",\"to\":\"q\",\"candidate\":\"two\"}".to_string();
    assert_eq!(s.handle_frame(&mut reg, &m1), RouteOutcome::Delivered);
    assert_eq!(s.handle_frame(&mut reg, &m2), RouteOutcome::Delivered);
    assert_eq!(reg.take_outbox(&"q".to_string()), vec![m1, m2]);
}

#[test]
fn unregister_absent_is_noop() {
    let mut reg = Registry::new();
    reg.unregister(&"never".to_string());
    assert!(!reg.contains(&"never".to_string()));
    reg.register("once".to_string());
    reg.unregister(&"never".to_string());
    assert!(reg.contains(&"once".to_string()));
}
