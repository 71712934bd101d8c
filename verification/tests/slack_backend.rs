use std::sync::Arc;

use serde_json::Value;
use tapir_bot::access::{Access, ChannelAccess, DmAccess};
use tapir_bot::backend::{BackendObserver, TURN_FAILED_MESSAGE};
use tapir_bot::event::{Inbound, ReactionEvent};
use tapir_bot::json::Json;
use tapir_bot::slack::backend::{
    denied_when_addressed, frame_actions, reopen_delay, require_env_token, send_denial, turn_ended,
    turn_started, verdict, FrameAction, Signal, SlackBackend, TokenError, Verdict,
};
use tapir_bot::slack::client::Client;
use tapir_bot::slack::config::{Reactions, SlackConfig};
use tapir_bot::slack::protocol::Decision;
use tapir_bot::slack::reply::{ReplyStep, SlackReply, CURSOR, STREAM_THROTTLE_MS};

const BOT: &str = "U0BOT";

fn inbound(user: &str, is_dm: bool, continuation: bool) -> Inbound {
    Inbound {
        channel: if is_dm { "D1".into() } else { "C1".into() },
        ts: "1.1".into(),
        thread: "1.1".into(),
        user: user.into(),
        text: "<@U0BOT> oi".into(),
        is_bot: false,
        is_dm,
        continuation,
    }
}

fn value(j: &Json) -> Value {
    match j {
        Json::Bool(b) => Value::Bool(*b),
        Json::Number(n) => Value::from(*n),
        Json::Text(s) => Value::String(s.clone()),
        Json::Array(v) => Value::Array(v.iter().map(value).collect()),
        Json::Object(m) => {
            Value::Object(m.iter().map(|(k, v)| (k.clone(), value(v))).collect::<serde_json::Map<_, _>>())
        }
    }
}

#[test]
fn an_addressed_stranger_is_denied() {
    let access = Access::default(); // deny-by-default
    // A DM from a non-listed user, and a mention in an unlisted channel.
    assert!(denied_when_addressed(&inbound("U-stranger", true, false), BOT, &access));
    assert!(denied_when_addressed(&inbound("U-stranger", false, false), BOT, &access));
}

#[test]
fn an_allowed_user_is_not_denied() {
    let access = Access { dm: DmAccess { users: vec!["U1".into()] }, ..Access::default() };
    assert!(!denied_when_addressed(&inbound("U1", true, false), BOT, &access));
}

#[test]
fn the_bot_itself_and_other_bots_are_not_denied() {
    let access = Access::default();
    // our own message
    assert!(!denied_when_addressed(&inbound(BOT, true, false), BOT, &access));
    // another bot
    let mut bot_msg = inbound("U-bot", false, false);
    bot_msg.is_bot = true;
    assert!(!denied_when_addressed(&bot_msg, BOT, &access));
}

#[test]
fn a_thread_continuation_is_not_a_denial() {
    // Plain chatter in a channel thread is not "addressed" — never deny it,
    // even though access would drop it.
    let access = Access::default();
    assert!(!denied_when_addressed(&inbound("U-stranger", false, true), BOT, &access));
}

#[test]
fn a_channel_member_outside_the_user_list_is_denied() {
    let mut access = Access::default();
    access.channels.insert("C1".into(), ChannelAccess { users: vec!["U1".into()] });
    assert!(denied_when_addressed(&inbound("U2", false, false), BOT, &access));
    assert!(!denied_when_addressed(&inbound("U1", false, false), BOT, &access));
}

#[test]
fn a_missing_env_token_names_the_variable() {
    let err = require_env_token("SLACK_APP_TOKEN", None).expect_err("missing is an error");
    assert!(err.message().contains("SLACK_APP_TOKEN"), "{}", err.message());
    let err =
        require_env_token("SLACK_BOT_TOKEN", Some("  ".into())).expect_err("blank is an error");
    assert!(err.message().contains("SLACK_BOT_TOKEN"), "{}", err.message());
}

#[test]
fn a_present_env_token_is_trimmed() {
    let tok = require_env_token("SLACK_BOT_TOKEN", Some(" xoxb-1 \n".into())).unwrap();
    assert_eq!(tok, "xoxb-1");
}

#[test]
fn the_access_handle_swaps_the_live_policy() {
    let backend = SlackBackend::new("xapp-1".into(), "xoxb-1".into(), SlackConfig::default());
    let handle = backend.access_handle();
    assert!(handle.read().unwrap().dm.users.is_empty(), "seeded from default (deny-all)");
    // A consumer swaps the policy at runtime.
    *handle.write().unwrap() =
        Access { dm: DmAccess { users: vec!["U1".into()] }, ..Access::default() };
    assert_eq!(handle.read().unwrap().dm.users, vec!["U1"], "the live policy reflects the swap");
}

#[test]
fn the_handle_is_the_backends_own_policy() {
    let mut config = SlackConfig::default();
    config.access.dm.users.push("U7".into());
    let backend = SlackBackend::new("a".into(), "b".into(), config);
    assert!(Arc::ptr_eq(&backend.access_handle(), &backend.access));
    assert_eq!(backend.access_handle().read().unwrap().dm.users, vec!["U7"]);
}

struct Quiet;

impl BackendObserver for Quiet {}

#[test]
fn an_observer_is_attached() {
    let backend = SlackBackend::new("a".into(), "b".into(), SlackConfig::default());
    assert!(backend.observer.is_none());
    let backend = backend.observer(Arc::new(Quiet));
    backend.observer.as_ref().expect("attached").connected();
    assert_eq!((backend.app_token.as_str(), backend.bot_token.as_str()), ("a", "b"));
}

#[test]
fn the_environment_builds_a_backend() {
    let build = |app: Option<&str>, bot: Option<&str>| {
        SlackBackend::from_env(
            SlackConfig::default(),
            app.map(String::from),
            bot.map(String::from),
        )
    };
    let backend = build(Some(" xapp-1 "), Some("xoxb-1")).ok().expect("both tokens are there");
    assert_eq!(backend.app_token, "xapp-1");
    assert_eq!(backend.bot_token, "xoxb-1");
    let missing = |r: Result<SlackBackend, TokenError>| r.err().expect("missing").message();
    assert_eq!(
        missing(build(None, None)),
        "SLACK_APP_TOKEN must be set (export it from your secret store)"
    );
    assert_eq!(
        missing(build(Some("x"), Some(" "))),
        "SLACK_BOT_TOKEN must be set (export it from your secret store)"
    );
}

#[test]
fn the_slack_config_has_its_defaults() {
    let config = SlackConfig::default();
    assert_eq!(config.reactions.seen, "eyes");
    assert_eq!(config.reactions.done, "white_check_mark");
    assert_eq!(config.reactions.failed, "x");
    assert!(config.denial.message.is_none());
    assert!(config.access.channels.is_empty());
}

#[test]
fn a_frame_is_acknowledged_before_anything_else() {
    let reaction = ReactionEvent {
        channel: "C".into(),
        ts: "1".into(),
        user: "U".into(),
        reaction: "x".into(),
    };
    let decision = Decision {
        ack: Some("e1".into()),
        inbound: Some(inbound("U1", true, false)),
        reaction: Some(reaction.clone()),
        reconnect: true,
    };
    let actions = frame_actions(decision);
    assert_eq!(
        actions,
        vec![
            FrameAction::Ack(r#"{"envelope_id":"e1"}"#.into()),
            FrameAction::Consider(inbound("U1", true, false)),
            FrameAction::Observe(reaction),
            FrameAction::Reconnect,
        ]
    );
    assert!(frame_actions(Decision::default()).is_empty());
}

#[test]
fn a_message_is_handled_denied_or_ignored() {
    let access = Access::default();
    let stranger = inbound("U1", false, false);
    assert_eq!(verdict(true, &stranger, BOT, &access), Verdict::Handle);
    assert_eq!(verdict(false, &stranger, BOT, &access), Verdict::Deny);
    assert_eq!(verdict(false, &inbound("U1", false, true), BOT, &access), Verdict::Ignore);
}

#[test]
fn reactions_follow_the_turn() {
    let r = Reactions::default();
    assert_eq!(turn_started(&r), vec![Signal::Add("eyes".into())]);
    assert_eq!(
        turn_ended(&r, true),
        vec![Signal::Remove("eyes".into()), Signal::Add("white_check_mark".into())]
    );
    assert_eq!(
        turn_ended(&r, false),
        vec![
            Signal::Remove("eyes".into()),
            Signal::Say(TURN_FAILED_MESSAGE.into()),
            Signal::Add("x".into()),
        ]
    );
    let off = Reactions { seen: "".into(), done: "".into(), failed: "".into() };
    assert!(turn_started(&off).is_empty());
    assert!(turn_ended(&off, true).is_empty());
    assert_eq!(turn_ended(&off, false), vec![Signal::Say(TURN_FAILED_MESSAGE.into())]);
}

#[test]
fn a_failed_connection_backs_off() {
    assert_eq!(reopen_delay(false), 0);
    assert_eq!(reopen_delay(true), 3);
}

#[test]
fn a_denial_is_ephemeral_then_direct() {
    let client = Client::new("xapp-1".into(), "xoxb-1".into());
    let (first, second) = send_denial(&client, &inbound("U1", false, false), " **no** ");
    assert_eq!(first.method, "chat.postEphemeral");
    let body = value(&first.body);
    assert_eq!(body["channel"], "C1");
    assert_eq!(body["user"], "U1");
    assert_eq!(body["text"], "**no**");
    assert_eq!(body["blocks"][0]["elements"][0]["elements"][0]["style"]["bold"], true);
    assert_eq!(second.method, "chat.postMessage");
    let body = value(&second.body);
    assert_eq!(body["channel"], "U1");
    assert_eq!(body["thread_ts"], "");
    assert_eq!(body["text"], "**no**");
    let deep = format!("{}x", "- ".repeat(257));
    let (first, second) = send_denial(&client, &inbound("U1", false, false), &deep);
    for body in [value(&first.body), value(&second.body)] {
        assert_eq!(body["text"], deep.as_str());
        assert_eq!(body.get("blocks"), None, "what blocks cannot say is sent as text");
    }
}

#[test]
fn a_reply_streams_into_one_message() {
    let mut reply = SlackReply::new("C1".into(), "1.1".into());
    assert_eq!(reply.update("He", false, 0), ReplyStep::Post(format!("He{CURSOR}")));
    let post = ReplyStep::Post(format!("He{CURSOR}"));
    assert!(reply.shown(&post, false, Some("2.2".into())), "the time counts from the post");
    assert_eq!(reply.update("Hel", false, STREAM_THROTTLE_MS - 1), ReplyStep::Skip);
    assert_eq!(
        reply.update("Hell", false, STREAM_THROTTLE_MS),
        ReplyStep::Edit { ts: "2.2".into(), markdown: "Hell ▌".into() }
    );
    assert_eq!(
        reply.update("Hello", true, 0),
        ReplyStep::Edit { ts: "2.2".into(), markdown: "Hello".into() },
        "the final edit is never throttled and drops the cursor"
    );
    let reply = SlackReply::new("C1".into(), "1.1".into());
    assert_eq!(reply.update("Hello", true, 0), ReplyStep::Post("Hello".into()));
}

#[test]
fn the_time_counts_from_what_was_last_sent() {
    let mut reply = SlackReply::new("C1".into(), "1.1".into());
    let post = ReplyStep::Post("x".into());
    assert!(!reply.shown(&post, true, Some("9.9".into())), "nothing follows the final post");
    assert_eq!(reply.message_ts, None);
    assert!(reply.shown(&post, false, Some("2.2".into())));
    assert_eq!(reply.message_ts.as_deref(), Some("2.2"));
    let edit = ReplyStep::Edit { ts: "2.2".into(), markdown: "y".into() };
    assert!(reply.shown(&edit, false, None));
    assert!(!reply.shown(&edit, true, None));
    assert!(!reply.shown(&ReplyStep::Skip, false, None));
    assert_eq!(reply.message_ts.as_deref(), Some("2.2"), "edits keep the message");
}

#[test]
fn a_stream_is_sent_at_most_once_per_interval() {
    let mut reply = SlackReply::new("C1".into(), "1.1".into());
    let mut last: u64 = 0;
    let mut sent: Vec<u64> = Vec::new();
    for now in (0..5000).step_by(300) {
        let step = reply.update("text", false, now - last);
        if step != ReplyStep::Skip {
            sent.push(now);
        }
        if reply.shown(&step, false, Some("2.2".into())) {
            last = now;
        }
    }
    assert_eq!(sent, vec![0, 1200, 2400, 3600, 4800]);
    assert!(sent.windows(2).all(|w| w[1] - w[0] >= STREAM_THROTTLE_MS));
}

#[test]
fn reply_steps_become_requests() {
    let client = Client::new("xapp-1".into(), "xoxb-1".into());
    let reply = SlackReply::new("C1".into(), "1.1".into());
    match reply.request(&client, &ReplyStep::Post("# T".into())) {
        Some(r) => {
            assert_eq!(r.method, "chat.postMessage");
            assert_eq!(value(&r.body)["thread_ts"], "1.1");
            assert_eq!(value(&r.body)["text"], "# T");
            assert_eq!(value(&r.body)["blocks"][0]["type"], "header");
        }
        None => panic!("a post is sent"),
    }
    match reply.request(&client, &ReplyStep::Edit { ts: "2.2".into(), markdown: "x".into() }) {
        Some(r) => {
            assert_eq!(r.method, "chat.update");
            assert_eq!(value(&r.body)["ts"], "2.2");
        }
        None => panic!("an edit is sent"),
    }
    assert!(reply.request(&client, &ReplyStep::Skip).is_none());
    let deep = format!("{}x", "- ".repeat(257));
    match reply.request(&client, &ReplyStep::Post(deep.clone())) {
        Some(r) => {
            assert_eq!(value(&r.body)["text"], deep.as_str());
            assert_eq!(value(&r.body).get("blocks"), None);
        }
        None => panic!("a list too deep for blocks is sent as text"),
    }
}

#[test]
fn a_copied_slack_config_says_the_same() {
    let mut config = SlackConfig::default();
    config.denial.message = Some("no".into());
    config.reactions.seen = String::new();
    config.access.dm.users = vec!["U1".into()];
    config.access.channels.insert("C1".into(), ChannelAccess::default());
    assert_eq!(format!("{:?}", config.clone()), format!("{config:?}"));
}
