use sine_chat::message::{ClientMessage, Content, Handshake, MessageReply, Ping};
use sine_chat::payload::Error;
use sine_chat::reader::Either;
use sine_chat::registry::Registry;
use sine_chat::router::{handle_item, handle_message, Delivery, Item, Outgoing};
use sine_chat::session::Lifecycle;

fn text(s: &str) -> Content {
    Content::Text(s.to_string())
}

fn registry_with(ids: &[&str]) -> Registry<u32> {
    let mut reg = Registry::new();
    for (i, id) in ids.iter().enumerate() {
        assert!(reg.register(id.to_string(), i as u32));
    }
    reg
}

fn send(reg: &Registry<u32>, from: &str, to: &str, content: Content) -> Vec<Delivery> {
    let msg = ClientMessage::new(content, to.to_string());
    handle_item(reg, Item::new(from.to_string(), Ok(Either::Left(msg))))
}

fn content_text(c: &Content) -> String {
    c.display_text().clone()
}

#[test]
fn routes_message_to_receiver_and_echoes_sender() {
    let reg = registry_with(&["alice", "bob", "carol"]);
    let out = send(&reg, "alice", "bob", text("hi"));
    assert_eq!(out.len(), 3);
    match &out[0] {
        Delivery { to, message: Outgoing::Reply(r) } => {
            assert_eq!(to, "alice");
            assert!(r.success);
            assert!(r.message.is_none());
        }
        _ => panic!("expected a reply first"),
    }
    for (d, who) in out[1..].iter().zip(["alice", "bob"]) {
        assert_eq!(d.to, who);
        match &d.message {
            Outgoing::Message(m) => {
                assert_eq!(m.sender, "alice");
                assert_eq!(m.receiver, "bob");
                assert_eq!(content_text(&m.content), "hi");
            }
            _ => panic!("expected the message"),
        }
    }
    assert!(out.iter().all(|d| d.to != "carol"));
}

#[test]
fn unknown_receiver_gets_failure_reply() {
    let reg = registry_with(&["alice", "bob"]);
    let out = send(&reg, "alice", "carol", text("hi"));
    assert_eq!(out.len(), 1);
    assert_eq!(out[0].to, "alice");
    match &out[0].message {
        Outgoing::Reply(r) => {
            assert!(!r.success);
            assert_eq!(r.message.as_deref(), Some("Receiver not found"));
        }
        _ => panic!("expected a reply"),
    }
}

#[test]
fn ping_gets_one_pong() {
    let reg = registry_with(&["alice", "bob"]);
    let out = handle_item(&reg, Item::new("alice".to_string(), Ok(Either::Right(Ping::new()))));
    assert_eq!(out.len(), 1);
    assert_eq!(out[0].to, "alice");
    assert!(matches!(out[0].message, Outgoing::Pong(_)));
}

#[test]
fn unreadable_frame_gets_failure_reply_with_description() {
    let reg = registry_with(&["alice"]);
    let out = handle_item(&reg, Item::new("alice".to_string(), Err(Error::TypeMismatch(2))));
    assert_eq!(out.len(), 1);
    match &out[0].message {
        Outgoing::Reply(r) => {
            assert!(!r.success);
            assert_eq!(r.message.as_deref(), Some("Type mismatch: 2"));
        }
        _ => panic!("expected a reply"),
    }
}

#[test]
fn error_descriptions() {
    assert_eq!(Error::TypeMismatch(255).describe(), "Type mismatch: 255");
    assert_eq!(Error::TypeMismatch(0).describe(), "Type mismatch: 0");
    assert_eq!(Error::TypeMismatch(40).describe(), "Type mismatch: 40");
    assert_eq!(Error::Io("reset".to_string()).describe(), "IO error: reset");
    assert_eq!(Error::Coding("bad".to_string()).describe(), "Coding error: bad");
}

#[test]
fn messages_reach_receiver_in_order() {
    let reg = registry_with(&["alice", "bob"]);
    let mut inbox = Vec::new();
    for c in ["m1", "m2"] {
        for d in send(&reg, "alice", "bob", text(c)) {
            if d.to == "bob" {
                if let Outgoing::Message(m) = d.message {
                    inbox.push(content_text(&m.content));
                }
            }
        }
    }
    assert_eq!(inbox, vec!["m1", "m2"]);
}

#[test]
fn image_content_is_forwarded_unchanged() {
    let reg = registry_with(&["alice", "bob"]);
    let img = Content::Image { url: "http://x/y.png".to_string(), width_bits: 640f64.to_bits(), height_bits: 480f64.to_bits() };
    let out = send(&reg, "alice", "bob", img);
    match &out[2].message {
        Outgoing::Message(m) => match &m.content {
            Content::Image { url, width_bits, height_bits } => {
                assert_eq!(url, "http://x/y.png");
                assert_eq!(f64::from_bits(*width_bits), 640.0);
                assert_eq!(f64::from_bits(*height_bits), 480.0);
            }
            _ => panic!("expected an image"),
        },
        _ => panic!("expected the message"),
    }
}

#[test]
fn duplicate_handshake_token_is_refused() {
    let mut reg: Registry<u32> = Registry::new();
    let mut a = Lifecycle::new();
    let mut b = Lifecycle::new();
    let (ok_a, reply_a) = a.process_handshake(&mut reg, Ok(Handshake::new("alice".to_string())), 1);
    let (ok_b, reply_b) = b.process_handshake(&mut reg, Ok(Handshake::new("alice".to_string())), 2);
    assert!(ok_a && reply_a.success);
    assert!(!ok_b && !reply_b.success);
    assert_eq!(reply_b.message.as_deref(), Some("User existed"));
    assert_eq!(reg.get(&"alice".to_string()), Some(&1));
    assert!(matches!(b, Lifecycle::Closed));
    assert_eq!(a.client().map(|s| s.as_str()), Some("alice"));
}

#[test]
fn handshake_decode_error_is_reported() {
    let mut reg: Registry<u32> = Registry::new();
    let mut a = Lifecycle::new();
    let (ok, reply) = a.process_handshake(&mut reg, Err(Error::Coding("eof".to_string())), 1);
    assert!(!ok);
    assert!(!reply.success);
    assert_eq!(reply.message.as_deref(), Some("Coding error: eof"));
    assert!(!reg.contains_key(&"eof".to_string()));
}

#[test]
fn teardown_before_handshake_changes_nothing() {
    let mut reg = registry_with(&["alice"]);
    let mut pending = Lifecycle::new();
    pending.teardown(&mut reg);
    pending.teardown(&mut reg);
    assert!(reg.contains_key(&"alice".to_string()));
    assert!(matches!(pending, Lifecycle::Closed));
}

#[test]
fn teardown_removes_active_client_once() {
    let mut reg: Registry<u32> = Registry::new();
    let mut a = Lifecycle::new();
    a.process_handshake(&mut reg, Ok(Handshake::new("alice".to_string())), 7);
    assert!(reg.contains_key(&"alice".to_string()));
    a.teardown(&mut reg);
    assert!(!reg.contains_key(&"alice".to_string()));
    a.teardown(&mut reg);
    assert!(!reg.contains_key(&"alice".to_string()));
    let mut b = Lifecycle::new();
    let (ok, _) = b.process_handshake(&mut reg, Ok(Handshake::new("alice".to_string())), 8);
    assert!(ok);
}

#[test]
fn message_after_receiver_left_is_not_delivered() {
    let mut reg = registry_with(&["alice", "bob"]);
    reg.remove(&"bob".to_string());
    let out = send(&reg, "alice", "bob", text("hi"));
    assert_eq!(out.len(), 1);
    assert!(out.iter().all(|d| d.to == "alice"));
}

#[test]
fn reply_extra_data_is_added() {
    let mut reply = MessageReply::success(None);
    assert!(reply.extra.is_none());
    reply.put_extra("k".to_string(), serde_json::Value::Bool(true)).put_extra("n".to_string(), serde_json::Value::Null);
    let extra = reply.extra.as_ref().unwrap();
    assert_eq!(extra.len(), 2);
    assert_eq!(extra.get("k"), Some(&serde_json::Value::Bool(true)));
    assert!(reply.success);
}

#[test]
fn handshake_timeout_closes_with_failure_reply() {
    let mut reg: Registry<u32> = Registry::new();
    let mut a = Lifecycle::new();
    let reply = a.abandon_handshake();
    assert!(!reply.success);
    assert_eq!(reply.message.as_deref(), Some("Handshake timeout"));
    assert!(matches!(a, Lifecycle::Closed));
    a.teardown(&mut reg);
    assert!(!reg.contains_key(&"".to_string()));
}

#[test]
fn handle_message_appends_in_call_order() {
    let reg = registry_with(&["alice", "bob", "carol"]);
    let mut out = Vec::new();
    handle_message(ClientMessage::new(text("m1"), "bob".to_string()), "alice".to_string(), &reg, &mut out);
    handle_message(ClientMessage::new(text("m2"), "bob".to_string()), "alice".to_string(), &reg, &mut out);
    assert_eq!(out.len(), 6);
    assert!(out.iter().all(|d| d.to == "alice" || d.to == "bob"));
    let to_bob: Vec<String> = out
        .iter()
        .filter(|d| d.to == "bob")
        .map(|d| match &d.message {
            Outgoing::Message(m) => content_text(&m.content),
            _ => panic!("bob gets messages only"),
        })
        .collect();
    assert_eq!(to_bob, vec!["m1", "m2"]);
}
