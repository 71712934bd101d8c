use serde_json::Value;
use tapir_bot::json::{Json, Members};
use tapir_bot::slack::blocks::Block;
use tapir_bot::slack::client::{
    ack_frame, check_ok, conclude, read_reply, with_blocks, ApiError, Client, Expect, Reply,
    Request, API_BASE,
};

fn value(j: &Json) -> Value {
    match j {
        Json::Bool(b) => Value::Bool(*b),
        Json::Number(n) => Value::from(*n),
        Json::Text(s) => Value::String(s.clone()),
        Json::Array(v) => Value::Array(v.iter().map(value).collect()),
        Json::Object(m) => {
            Value::Object(m.iter().map(|(k, v)| (k.clone(), value(v))).collect::<serde_json::Map<_, _>>())
        }
    }
}

fn parsed(text: &str) -> Value {
    serde_json::from_str(text).unwrap()
}

#[test]
fn an_ok_response_passes_through() {
    let reply = read_reply(r#"{"ok": true, "user_id": "U0BOT"}"#, Some("user_id")).unwrap();
    let reply = check_ok("auth.test", reply).expect("ok passes through");
    assert_eq!(reply.value.as_deref(), Some("U0BOT"));
}

#[test]
fn a_failed_response_names_the_method_and_code() {
    let reply = read_reply(r#"{"ok": false, "error": "channel_not_found"}"#, None).unwrap();
    let err = check_ok("chat.postMessage", reply).expect_err("ok:false is an error");
    let msg = err.message();
    assert!(msg.contains("chat.postMessage"), "{msg}");
    assert!(msg.contains("channel_not_found"), "{msg}");
}

#[test]
fn with_blocks_adds_blocks_only_when_non_empty() {
    let mut body = Members::new().put_text("channel", "C").put_text("text", "hi").object();
    with_blocks(&mut body, &None);
    assert!(value(&body).get("blocks").is_none(), "no blocks when None");

    with_blocks(&mut body, &Some(vec![]));
    assert!(value(&body).get("blocks").is_none(), "no blocks when empty");

    with_blocks(&mut body, &Some(vec![Block::Divider]));
    assert_eq!(value(&body)["blocks"], parsed(r#"[{ "type": "divider" }]"#));
    assert_eq!(value(&body)["text"], "hi", "text fallback stays");
}

#[test]
fn a_missing_ok_is_treated_as_failure() {
    let err = check_ok("auth.test", read_reply("{}", None).unwrap())
        .expect_err("no ok is a failure");
    assert!(err.message().contains("unknown_error"), "{}", err.message());
}

#[test]
fn replies_are_read() {
    assert_eq!(
        read_reply(r#"{"ok": true, "ts": "1.1", "error": 5}"#, Some("ts")),
        Some(Reply { ok: Some(true), error: None, value: Some("1.1".into()) })
    );
    assert_eq!(
        read_reply(r#"{"ok": "yes", "ts": 7}"#, Some("ts")),
        Some(Reply { ok: None, error: None, value: None })
    );
    assert_eq!(
        read_reply("[1]", Some("ts")),
        Some(Reply { ok: None, error: None, value: None }),
        "any JSON is read"
    );
    assert_eq!(read_reply("<html>", Some("ts")), None);
}

fn reply(ok: bool, error: Option<&str>, value: Option<&str>) -> Option<Reply> {
    Some(Reply { ok: Some(ok), error: error.map(String::from), value: value.map(String::from) })
}

#[test]
fn calls_are_concluded() {
    let field = Expect::Field("ts".into());
    assert_eq!(conclude("m", &field, reply(true, None, Some("1.1"))), Ok(Some("1.1".into())));
    assert_eq!(
        conclude("m", &field, reply(true, None, None)),
        Err(ApiError::Missing { method: "m".into(), field: "ts".into() })
    );
    assert_eq!(
        conclude("m", &field, None),
        Err(ApiError::Unreadable { method: "m".into() })
    );
    assert_eq!(conclude("m", &Expect::Success, reply(true, None, None)), Ok(None));
    assert_eq!(
        conclude("m", &Expect::Success, reply(false, Some("nope"), None)),
        Err(ApiError::Refused { method: "m".into(), code: "nope".into() })
    );
    let benign = Expect::SuccessOr("already_reacted".into());
    assert_eq!(conclude("m", &benign, reply(false, Some("already_reacted"), None)), Ok(None));
    assert_eq!(
        conclude("m", &benign, reply(false, None, None)),
        Err(ApiError::Refused { method: "m".into(), code: "unknown_error".into() })
    );
}

#[test]
fn api_errors_are_spelled_out() {
    assert_eq!(
        ApiError::Unreadable { method: "auth.test".into() }.message(),
        "parsing auth.test response"
    );
    assert_eq!(
        ApiError::Refused { method: "auth.test".into(), code: "x".into() }.message(),
        "auth.test failed: x"
    );
    assert_eq!(
        ApiError::Missing { method: "auth.test".into(), field: "user_id".into() }.message(),
        "auth.test response missing user_id"
    );
}

fn client() -> Client {
    Client::new("xapp-1".into(), "xoxb-1".into())
}

fn check(request: &Request, method: &str, token: &str, body: &str) {
    assert_eq!(request.method, method);
    assert_eq!(request.url, format!("{API_BASE}{method}"));
    assert_eq!(request.url, format!("https://slack.com/api/{method}"));
    assert_eq!(request.token, token);
    assert_eq!(value(&request.body), parsed(body));
}

#[test]
fn requests_are_built() {
    let c = client();
    let r = c.bot_user_id();
    check(&r, "auth.test", "xoxb-1", "{}");
    assert_eq!(r.expect, Expect::Field("user_id".into()));

    let r = c.open_connection();
    check(&r, "apps.connections.open", "xapp-1", "{}");
    assert_eq!(r.expect, Expect::Field("url".into()));

    let r = c.post_message("C1", "1.1", "hi", &Some(vec![Block::Divider]));
    check(
        &r,
        "chat.postMessage",
        "xoxb-1",
        r#"{"channel": "C1", "thread_ts": "1.1", "text": "hi", "blocks": [{"type": "divider"}]}"#,
    );
    assert_eq!(r.expect, Expect::Field("ts".into()));

    let r = c.update_message("C1", "1.1", "hi", &None);
    check(&r, "chat.update", "xoxb-1", r#"{"channel": "C1", "ts": "1.1", "text": "hi"}"#);
    assert_eq!(r.expect, Expect::Success);

    let r = c.post_ephemeral("C1", "U1", "no", &None);
    check(&r, "chat.postEphemeral", "xoxb-1", r#"{"channel": "C1", "user": "U1", "text": "no"}"#);
    assert_eq!(r.expect, Expect::Success);

    let r = c.add_reaction("C1", "1.1", "eyes");
    let body = r#"{"channel": "C1", "timestamp": "1.1", "name": "eyes"}"#;
    check(&r, "reactions.add", "xoxb-1", body);
    assert_eq!(r.expect, Expect::SuccessOr("already_reacted".into()));

    let r = c.remove_reaction("C1", "1.1", "eyes");
    check(&r, "reactions.remove", "xoxb-1", body);
    assert_eq!(r.expect, Expect::SuccessOr("no_reaction".into()));
}

#[test]
fn requests_are_finished() {
    let c = client();
    assert_eq!(
        c.bot_user_id().finish(r#"{"ok": true, "user_id": "U0BOT"}"#),
        Ok(Some("U0BOT".into()))
    );
    assert_eq!(
        c.open_connection().finish(r#"{"ok": true}"#).unwrap_err().message(),
        "apps.connections.open response missing url"
    );
    assert_eq!(
        c.post_message("C", "1", "x", &None).finish("oops").unwrap_err().message(),
        "parsing chat.postMessage response"
    );
    assert_eq!(
        c.add_reaction("C", "1", "x").finish(r#"{"ok": false, "error": "already_reacted"}"#),
        Ok(None)
    );
    assert_eq!(
        c.remove_reaction("C", "1", "x")
            .finish(r#"{"ok": false, "error": "already_reacted"}"#)
            .unwrap_err()
            .message(),
        "reactions.remove failed: already_reacted"
    );
}

#[test]
fn an_acknowledgement_names_its_envelope() {
    assert_eq!(parsed(&ack_frame("env-1")), parsed(r#"{"envelope_id": "env-1"}"#));
    assert_eq!(parsed(&ack_frame("a\"b"))["envelope_id"], "a\"b");
}
