use serde_json::Value;
use tapir_bot::event::{Inbound, ReactionEvent};
use tapir_bot::slack::protocol;
use tapir_bot::slack::protocol::{Decision, Envelope, Event, Item};

/// An optional text field; anything but a text or null does not decode.
fn text(v: &Value, key: &str) -> Option<Option<String>> {
    match v.get(key) {
        None | Some(Value::Null) => Some(None),
        Some(Value::String(s)) => Some(Some(s.clone())),
        Some(_) => None,
    }
}

/// An optional object field.
fn object<'a>(v: &'a Value, key: &str) -> Option<Option<&'a Value>> {
    match v.get(key) {
        None | Some(Value::Null) => Some(None),
        Some(o @ Value::Object(_)) => Some(Some(o)),
        Some(_) => None,
    }
}

/// A text field of a reaction; anything but a text is passed over.
fn lenient(v: &Value, key: &str) -> Option<String> {
    v.get(key).and_then(Value::as_str).map(String::from)
}

fn decode_item(v: &Value) -> Option<Item> {
    v.is_object().then(|| Item {
        kind: lenient(v, "type"),
        channel: lenient(v, "channel"),
        ts: lenient(v, "ts"),
    })
}

fn decode_event(v: &Value) -> Option<Event> {
    Some(Event {
        kind: text(v, "type")??,
        channel: text(v, "channel")?,
        channel_type: text(v, "channel_type")?,
        subtype: text(v, "subtype")?,
        user: text(v, "user")?,
        bot_id: text(v, "bot_id")?,
        text: text(v, "text")?,
        ts: text(v, "ts")?,
        thread_ts: text(v, "thread_ts")?,
        reaction: lenient(v, "reaction"),
        item: v.get("item").and_then(decode_item),
    })
}

fn decode(frame: &str) -> Option<Envelope> {
    let v: Value = serde_json::from_str(frame).ok()?;
    let event = match object(&v, "payload")? {
        Some(payload) => match object(payload, "event")? {
            Some(event) => Some(decode_event(event)?),
            None => None,
        },
        None => None,
    };
    Some(Envelope { kind: text(&v, "type")??, envelope_id: text(&v, "envelope_id")?, event })
}

fn handle_frame(frame: &str) -> Decision {
    protocol::handle_frame(decode(frame))
}

#[test]
fn an_app_mention_is_acked_and_delivered() {
    let frame = r#"{
        "type": "events_api",
        "envelope_id": "env-1",
        "payload": {
            "event": {
                "type": "app_mention",
                "channel": "C1",
                "user": "U1",
                "text": "<@U0BOT> hello",
                "ts": "1700000000.000100"
            }
        }
    }"#;
    let d = handle_frame(frame);
    assert_eq!(d.ack.as_deref(), Some("env-1"));
    assert!(!d.reconnect);
    let inbound = d.inbound.expect("a mention is delivered");
    assert_eq!(
        inbound,
        Inbound {
            channel: "C1".into(),
            ts: "1700000000.000100".into(),
            thread: "1700000000.000100".into(),
            user: "U1".into(),
            text: "<@U0BOT> hello".into(),
            is_bot: false,
            is_dm: false,
            continuation: false,
        }
    );
}

#[test]
fn a_threaded_mention_replies_in_its_thread() {
    let frame = r#"{
        "type": "events_api",
        "envelope_id": "env-2",
        "payload": { "event": {
            "type": "app_mention", "channel": "C1", "user": "U1",
            "text": "hi", "ts": "200.2", "thread_ts": "100.1"
        } }
    }"#;
    let inbound = handle_frame(frame).inbound.expect("delivered");
    assert_eq!(inbound.thread, "100.1", "the reply targets the existing thread");
    assert_eq!(inbound.ts, "200.2");
}

#[test]
fn a_disconnect_asks_for_a_reconnect_without_an_ack() {
    let d = handle_frame(r#"{"type": "disconnect", "reason": "refresh"}"#);
    assert!(d.reconnect);
    assert!(d.ack.is_none());
    assert!(d.inbound.is_none());
}

#[test]
fn a_bot_authored_mention_is_carried_with_is_bot() {
    // The protocol flags bots rather than dropping them; the access policy
    // decides.
    let frame = r#"{
        "type": "events_api",
        "envelope_id": "env-3",
        "payload": { "event": {
            "type": "app_mention", "channel": "C1", "user": "U9", "bot_id": "B9",
            "text": "loop?", "ts": "1.1"
        } }
    }"#;
    let d = handle_frame(frame);
    assert_eq!(d.ack.as_deref(), Some("env-3"));
    let inbound = d.inbound.expect("a bot mention is carried");
    assert!(inbound.is_bot, "flagged as bot-authored");
    assert!(!inbound.is_dm);
}

#[test]
fn a_dm_message_is_delivered_without_a_mention() {
    let frame = r#"{
        "type": "events_api",
        "envelope_id": "env-4",
        "payload": { "event": {
            "type": "message", "channel_type": "im", "channel": "D1",
            "user": "U1", "text": "hi there", "ts": "1.1"
        } }
    }"#;
    let inbound = handle_frame(frame).inbound.expect("a DM delivers");
    assert!(inbound.is_dm);
    assert!(!inbound.is_bot);
    assert_eq!(inbound.channel, "D1");
    assert_eq!(inbound.text, "hi there");
}

#[test]
fn a_dm_edit_or_delete_subtype_is_ignored() {
    let frame = r#"{
        "type": "events_api",
        "envelope_id": "env-5",
        "payload": { "event": {
            "type": "message", "channel_type": "im", "subtype": "message_changed",
            "channel": "D1", "user": "U1", "text": "edited", "ts": "1.1"
        } }
    }"#;
    let d = handle_frame(frame);
    assert_eq!(d.ack.as_deref(), Some("env-5"), "acked");
    assert!(d.inbound.is_none(), "subtyped DM messages are not turns");
}

#[test]
fn a_root_channel_message_without_a_mention_is_not_delivered() {
    // A plain channel message with no thread_ts (and no mention) is ignored
    // — continuation only applies to thread replies.
    let frame = r#"{
        "type": "events_api",
        "envelope_id": "env-6",
        "payload": { "event": {
            "type": "message", "channel_type": "channel", "channel": "C1",
            "text": "hi", "ts": "1.1"
        } }
    }"#;
    let d = handle_frame(frame);
    assert_eq!(d.ack.as_deref(), Some("env-6"));
    assert!(d.inbound.is_none());
}

#[test]
fn a_channel_thread_reply_is_delivered_as_a_continuation() {
    let frame = r#"{
        "type": "events_api",
        "envelope_id": "env-7",
        "payload": { "event": {
            "type": "message", "channel_type": "channel", "channel": "C1",
            "user": "U1", "text": "and another thing", "ts": "200.2",
            "thread_ts": "100.1"
        } }
    }"#;
    let inbound = handle_frame(frame).inbound.expect("a thread reply delivers");
    assert!(inbound.continuation, "flagged as a continuation candidate");
    assert!(!inbound.is_dm);
    assert_eq!(inbound.thread, "100.1");
}

#[test]
fn a_private_channel_thread_reply_is_also_a_continuation() {
    let frame = r#"{
        "type": "events_api",
        "envelope_id": "env-8",
        "payload": { "event": {
            "type": "message", "channel_type": "group", "channel": "G1",
            "user": "U1", "text": "more", "ts": "2.2", "thread_ts": "1.1"
        } }
    }"#;
    let inbound = handle_frame(frame).inbound.expect("a private thread reply delivers");
    assert!(inbound.continuation);
}

#[test]
fn a_channel_thread_reply_with_a_subtype_is_ignored() {
    let frame = r#"{
        "type": "events_api",
        "envelope_id": "env-9",
        "payload": { "event": {
            "type": "message", "channel_type": "channel", "subtype": "message_changed",
            "channel": "C1", "text": "edited", "ts": "2.2", "thread_ts": "1.1"
        } }
    }"#;
    assert!(handle_frame(frame).inbound.is_none());
}

#[test]
fn hello_is_a_no_op_and_unknown_envelopes_are_acked() {
    let hello = handle_frame(r#"{"type": "hello", "num_connections": 1}"#);
    assert_eq!(hello, Decision::default());

    let unknown = handle_frame(r#"{"type": "slash_commands", "envelope_id": "env-5"}"#);
    assert_eq!(unknown.ack.as_deref(), Some("env-5"));
    assert!(unknown.inbound.is_none());
}

#[test]
fn garbage_is_a_no_op() {
    assert_eq!(handle_frame("not json at all {"), Decision::default());
}

#[test]
fn an_event_without_a_channel_or_ts_is_not_delivered() {
    for event in [
        r#"{"type": "app_mention", "ts": "1.1"}"#,
        r#"{"type": "app_mention", "channel": "C1"}"#,
    ] {
        let frame = format!(
            r#"{{"type": "events_api", "envelope_id": "e", "payload": {{"event": {event}}}}}"#
        );
        let d = handle_frame(&frame);
        assert_eq!(d.ack.as_deref(), Some("e"));
        assert!(d.inbound.is_none());
    }
    let d = handle_frame(r#"{"type": "events_api", "envelope_id": "e"}"#);
    assert_eq!(d.ack.as_deref(), Some("e"));
    assert!(d.inbound.is_none() && d.reaction.is_none());
}

#[test]
fn a_missing_author_or_text_is_empty() {
    let d = handle_frame(
        r#"{"type": "events_api", "payload": {"event":
            {"type": "app_mention", "channel": "C1", "ts": "1.1"}}}"#,
    );
    let inbound = d.inbound.expect("delivered");
    assert_eq!((inbound.user.as_str(), inbound.text.as_str()), ("", ""));
    assert!(d.ack.is_none(), "there is no id to acknowledge");
}

fn reaction_frame(item: &str) -> String {
    format!(
        r#"{{"type": "events_api", "envelope_id": "env-r", "payload": {{"event": {{
            "type": "reaction_added", "user": "U1", "reaction": "thumbsup", "item": {item}
        }}}}}}"#
    )
}

#[test]
fn a_reaction_to_a_message_is_reported() {
    let d = handle_frame(&reaction_frame(
        r#"{"type": "message", "channel": "C1", "ts": "1.1"}"#,
    ));
    assert_eq!(d.ack.as_deref(), Some("env-r"));
    assert!(d.inbound.is_none(), "a reaction is no turn");
    assert_eq!(
        d.reaction,
        Some(ReactionEvent {
            channel: "C1".into(),
            ts: "1.1".into(),
            user: "U1".into(),
            reaction: "thumbsup".into(),
        })
    );
}

#[test]
fn a_message_is_delivered_whatever_it_carries_for_a_reaction() {
    let d = handle_frame(
        r#"{"type": "events_api", "envelope_id": "e", "payload": {"event": {
            "type": "app_mention", "channel": "C1", "user": "U1", "text": "hi", "ts": "1.1",
            "reaction": 7, "item": ["x"]
        }}}"#,
    );
    assert_eq!(d.inbound.map(|m| m.text).as_deref(), Some("hi"));
    assert!(d.reaction.is_none());
}

#[test]
fn a_reaction_to_anything_else_is_acked_and_dropped() {
    for item in [
        r#"{"type": "file", "file": "F1"}"#,
        r#"{"type": "file", "channel": "C1", "ts": "1.1"}"#,
        r#"{"type": "message", "channel": "C1"}"#,
        "null",
    ] {
        let d = handle_frame(&reaction_frame(item));
        assert_eq!(d.ack.as_deref(), Some("env-r"));
        assert!(d.reaction.is_none(), "{item}");
    }
}
