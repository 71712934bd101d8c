//! The Slack Web API surface the runtime needs: the requests to send, and what
//! their replies mean. `apps.connections.open` authenticates with the app-level
//! token (`xapp-…`), everything else with the bot token (`xoxb-…`).
use vstd::prelude::*;

use crate::json;
use crate::json::{Json, JsonView, Members};
use crate::slack::blocks;
use crate::slack::blocks::{Block, BlockView};
use crate::slack::message;
use crate::text;

verus! {

/// Base URL for Web API methods.
pub const API_BASE: &'static str = "https://slack.com/api/";

/// The text member `key` of the JSON object `text`: `None` when `text` is no
/// JSON, `Some(None)` when it has no such member or that is no text.
pub uninterp spec fn json_text_member(text: Seq<char>, key: Seq<char>) -> Option<
    Option<Seq<char>>,
>;

/// The boolean member `key` of the JSON object `text`: `None` when `text` is no
/// JSON, `Some(None)` when it has no such member or that is no boolean.
pub uninterp spec fn json_bool_member(text: Seq<char>, key: Seq<char>) -> Option<Option<bool>>;

/// The JSON object with the one text member.
pub uninterp spec fn json_object_text(key: Seq<char>, value: Seq<char>) -> Seq<char>;

/// `serde_json::from_str` into a `Value`, then `Value::get` and
/// `Value::as_str`: the text member `key` of the object `text`. `None` when
/// parsing fails. The JSON grammar is left unsaid: the result is only named.
#[verifier::external_body]
fn text_member(text: &str, key: &str) -> (r: Option<Option<String>>)
    ensures
        json_text_member(text@, key@) == match r {
            Some(member) => Some(text::opt_text(member)),
            None => None,
        },
{
    let value = serde_json::from_str::<serde_json::Value>(text).ok()?;
    Some(value.get(key).and_then(serde_json::Value::as_str).map(String::from))
}

/// `serde_json::from_str` into a `Value`, then `Value::get` and
/// `Value::as_bool`: the boolean member `key` of the object `text`. `None` when
/// parsing fails. The JSON grammar is left unsaid: the result is only named.
#[verifier::external_body]
fn bool_member(text: &str, key: &str) -> (r: Option<Option<bool>>)
    ensures
        r == json_bool_member(text@, key@),
{
    let value = serde_json::from_str::<serde_json::Value>(text).ok()?;
    Some(value.get(key).and_then(serde_json::Value::as_bool))
}

/// `serde_json::Value::from_iter` and its `to_string`: the object with the one
/// text member. How it is laid out is left unsaid; reading the member back gives
/// the value.
#[verifier::external_body]
fn object_text(key: &str, value: &str) -> (r: String)
    ensures
        r@ == json_object_text(key@, value@),
        json_text_member(r@, key@) == Some(Some(value@)),
{
    serde_json::Value::from_iter([(key, value)]).to_string()
}

/// The frame that acknowledges an envelope.
pub fn ack_frame(envelope_id: &str) -> (r: String)
    ensures
        r@ == json_object_text("envelope_id"@, envelope_id@),
        json_text_member(r@, "envelope_id"@) == Some(Some(envelope_id@)),
{
    object_text("envelope_id", envelope_id)
}

/// Why a call failed.
#[derive(Debug, PartialEq, Eq)]
pub enum ApiError {
    /// The reply is no JSON.
    Unreadable { method: String },
    /// Slack refused, with its error code.
    Refused { method: String, code: String },
    /// The reply lacks a field that it should have.
    Missing { method: String, field: String },
}

/// The mathematical form of an [`ApiError`].
pub enum ApiErrorView {
    Unreadable { method: Seq<char> },
    Refused { method: Seq<char>, code: Seq<char> },
    Missing { method: Seq<char>, field: Seq<char> },
}

impl View for ApiError {
    type V = ApiErrorView;

    open spec fn view(&self) -> ApiErrorView {
        match self {
            ApiError::Unreadable { method } => ApiErrorView::Unreadable { method: method@ },
            ApiError::Refused { method, code } => ApiErrorView::Refused {
                method: method@,
                code: code@,
            },
            ApiError::Missing { method, field } => ApiErrorView::Missing {
                method: method@,
                field: field@,
            },
        }
    }
}

/// The message of an error. It names the method, and Slack's code.
pub open spec fn error_text(e: ApiErrorView) -> Seq<char> {
    match e {
        ApiErrorView::Unreadable { method } => "parsing "@ + method + " response"@,
        ApiErrorView::Refused { method, code } => method + " failed: "@ + code,
        ApiErrorView::Missing { method, field } => method + " response missing "@ + field,
    }
}

impl ApiError {
    /// The message to show.
    pub fn message(&self) -> (r: String)
        ensures
            r@ == error_text(self@),
    {
        match self {
            ApiError::Unreadable { method } => {
                let mut out: String = "parsing ".to_owned();
                out.append(method.as_str());
                out.append(" response");
                out
            },
            ApiError::Refused { method, code } => {
                let mut out: String = method.clone();
                out.append(" failed: ");
                out.append(code.as_str());
                out
            },
            ApiError::Missing { method, field } => {
                let mut out: String = method.clone();
                out.append(" response missing ");
                out.append(field.as_str());
                out
            },
        }
    }
}

/// What the runtime reads of a reply: `ok`, `error`, and the field that was
/// asked for.
#[derive(Debug, PartialEq, Eq)]
pub struct Reply {
    pub ok: Option<bool>,
    pub error: Option<String>,
    pub value: Option<String>,
}

/// The mathematical form of a [`Reply`].
pub struct ReplyView {
    pub ok: Option<bool>,
    pub error: Option<Seq<char>>,
    pub value: Option<Seq<char>>,
}

impl View for Reply {
    type V = ReplyView;

    open spec fn view(&self) -> ReplyView {
        ReplyView {
            ok: self.ok,
            error: text::opt_text(self.error),
            value: text::opt_text(self.value),
        }
    }
}

/// The form of an optional reply.
pub open spec fn opt_reply(r: Option<Reply>) -> Option<ReplyView> {
    match r {
        Some(r) => Some(r@),
        None => None,
    }
}

/// A reply from what was read of it; `None` when any of it could not be read.
pub open spec fn reply_of(
    ok: Option<Option<bool>>,
    error: Option<Option<Seq<char>>>,
    value: Option<Option<Seq<char>>>,
) -> Option<ReplyView> {
    match (ok, error, value) {
        (Some(ok), Some(error), Some(value)) => Some(ReplyView { ok, error, value }),
        _ => None,
    }
}

/// The reply that `text` holds, with the field `field`.
pub open spec fn reply_in(text: Seq<char>, field: Option<Seq<char>>) -> Option<ReplyView> {
    reply_of(
        json_bool_member(text, "ok"@),
        json_text_member(text, "error"@),
        match field {
            Some(field) => json_text_member(text, field),
            None => Some(None),
        },
    )
}

/// Read a reply, and the text field `field` of it; `None` when it is no JSON.
pub fn read_reply(text: &str, field: Option<&str>) -> (r: Option<Reply>)
    ensures
        opt_reply(r) == reply_in(text@, text::opt_str(field)),
{
    let value = match field {
        Some(field) => text_member(text, field),
        None => Some(None),
    };
    match (bool_member(text, "ok"), text_member(text, "error"), value) {
        (Some(ok), Some(error), Some(value)) => Some(Reply { ok, error, value }),
        _ => None,
    }
}

/// The code of a refusal.
pub open spec fn refusal_code(reply: ReplyView) -> Seq<char> {
    match reply.error {
        Some(code) => code,
        None => "unknown_error"@,
    }
}

/// Pass a reply through when `ok` is true, else turn it into an error naming the
/// method and Slack's code.
pub fn check_ok(method: &str, reply: Reply) -> (r: Result<Reply, ApiError>)
    ensures
        reply.ok == Some(true) ==> r == Ok::<Reply, ApiError>(reply),
        reply.ok != Some(true) ==> (r matches Err(e) && e@ == (ApiErrorView::Refused {
            method: method@,
            code: refusal_code(reply@),
        })),
{
    if let Some(true) = reply.ok {
        return Ok(reply);
    }
    let code = match reply.error {
        Some(code) => code,
        None => "unknown_error".to_owned(),
    };
    Err(ApiError::Refused { method: method.to_owned(), code })
}

/// What is asked of a call's reply.
#[derive(Debug, PartialEq, Eq)]
pub enum Expect {
    /// That it carries this text field.
    Field(String),
    /// Only that it is a success.
    Success,
    /// A success, or a refusal with this code.
    SuccessOr(String),
}

/// The mathematical form of an [`Expect`].
pub enum ExpectView {
    Field(Seq<char>),
    Success,
    SuccessOr(Seq<char>),
}

impl View for Expect {
    type V = ExpectView;

    open spec fn view(&self) -> ExpectView {
        match self {
            Expect::Field(field) => ExpectView::Field(field@),
            Expect::Success => ExpectView::Success,
            Expect::SuccessOr(code) => ExpectView::SuccessOr(code@),
        }
    }
}

/// What a call came to: the field that was asked for, if one was, or why it
/// failed.
pub open spec fn concluded(
    method: Seq<char>,
    expect: ExpectView,
    reply: Option<ReplyView>,
) -> Result<Option<Seq<char>>, ApiErrorView> {
    match reply {
        None => Err(ApiErrorView::Unreadable { method }),
        Some(reply) => if reply.ok == Some(true) {
            match expect {
                ExpectView::Field(field) => match reply.value {
                    Some(value) => Ok(Some(value)),
                    None => Err(ApiErrorView::Missing { method, field }),
                },
                _ => Ok(None),
            }
        } else if expect == ExpectView::SuccessOr(refusal_code(reply)) {
            Ok(None)
        } else {
            Err(ApiErrorView::Refused { method, code: refusal_code(reply) })
        },
    }
}

/// What a call came to, given its reply; `None` is a reply that could not be
/// read.
pub fn conclude(method: &str, expect: &Expect, reply: Option<Reply>) -> (r: Result<
    Option<String>,
    ApiError,
>)
    ensures
        match r {
            Ok(value) => concluded(method@, expect@, opt_reply(reply)) == Ok::<
                Option<Seq<char>>,
                ApiErrorView,
            >(text::opt_text(value)),
            Err(e) => concluded(method@, expect@, opt_reply(reply)) == Err::<
                Option<Seq<char>>,
                ApiErrorView,
            >(e@),
        },
{
    let reply = match reply {
        Some(reply) => reply,
        None => {
            return Err(ApiError::Unreadable { method: method.to_owned() });
        },
    };
    match check_ok(method, reply) {
        Ok(reply) => match expect {
            Expect::Field(field) => match reply.value {
                Some(value) => Ok(Some(value)),
                None => Err(ApiError::Missing { method: method.to_owned(), field: field.clone() }),
            },
            _ => Ok(None),
        },
        Err(e) => {
            if let Expect::SuccessOr(benign) = expect {
                if let ApiError::Refused { code, .. } = &e {
                    if text::same(code.as_str(), benign.as_str()) {
                        return Ok(None);
                    }
                }
            }
            Err(e)
        },
    }
}

/// A call to make: the method, where to post it, the token to authenticate
/// with, the body, and what is asked of the reply. It holds a token, so it has
/// no printed form.
pub struct Request {
    pub method: String,
    pub url: String,
    pub token: String,
    pub body: Json,
    pub expect: Expect,
}

/// The mathematical form of a [`Request`].
pub struct RequestView {
    pub method: Seq<char>,
    pub url: Seq<char>,
    pub token: Seq<char>,
    pub body: JsonView,
    pub expect: ExpectView,
}

impl View for Request {
    type V = RequestView;

    open spec fn view(&self) -> RequestView {
        RequestView {
            method: self.method@,
            url: self.url@,
            token: self.token@,
            body: self.body@,
            expect: self.expect@,
        }
    }
}

/// A call of `method`.
pub open spec fn call(
    method: Seq<char>,
    token: Seq<char>,
    body: JsonView,
    expect: ExpectView,
) -> RequestView {
    RequestView { method, url: API_BASE@ + method, token, body, expect }
}

fn request(method: &str, token: &str, body: Json, expect: Expect) -> (r: Request)
    ensures
        r@ == call(method@, token@, body@, expect@),
{
    let mut url: String = API_BASE.to_owned();
    url.append(method);
    Request { method: method.to_owned(), url, token: token.to_owned(), body, expect }
}

impl Request {
    /// What this call came to, given the text of the reply.
    pub fn finish(&self, reply: &str) -> (r: Result<Option<String>, ApiError>)
        ensures
            ({
                let field = match self@.expect {
                    ExpectView::Field(field) => Some(field),
                    _ => None,
                };
                let outcome = concluded(self@.method, self@.expect, reply_in(reply@, field));
                match r {
                    Ok(value) => outcome == Ok::<Option<Seq<char>>, ApiErrorView>(
                        text::opt_text(value),
                    ),
                    Err(e) => outcome == Err::<Option<Seq<char>>, ApiErrorView>(e@),
                }
            }),
    {
        let field: Option<&str> = match &self.expect {
            Expect::Field(field) => Some(field.as_str()),
            _ => None,
        };
        conclude(self.method.as_str(), &self.expect, read_reply(reply, field))
    }
}

/// The members of a body with two texts after the channel.
pub open spec fn message_body(
    channel: Seq<char>,
    key: Seq<char>,
    value: Seq<char>,
    text: Seq<char>,
) -> Seq<(Seq<char>, JsonView)> {
    seq![
        ("channel"@, JsonView::Text(channel)),
        (key, JsonView::Text(value)),
        ("text"@, JsonView::Text(text)),
    ]
}

/// The body with a `blocks` member, when there are any.
pub open spec fn body_with_blocks(
    body: JsonView,
    v: Option<Seq<BlockView>>,
) -> JsonView {
    match (body, v) {
        (JsonView::Object(m), Some(v)) => if v.len() == 0 {
            body
        } else {
            JsonView::Object(
                json::with_member(
                    m,
                    "blocks"@,
                    JsonView::Array(v.map_values(|b: BlockView| blocks::block_json(b))),
                ),
            )
        },
        _ => body,
    }
}

/// Add a `blocks` member to a message body when there are any blocks. An empty
/// list counts as none, so that the message falls back to plain text.
pub fn with_blocks(body: &mut Json, blocks: &Option<Vec<Block>>)
    ensures
        final(body)@ == body_with_blocks(old(body)@, message::opt_blocks(*blocks)),
{
    if let Some(blocks) = blocks {
        if blocks.len() > 0 {
            json::set_member(body, "blocks", blocks::blocks_to_json(blocks));
        }
    }
}

/// The body of a message: the text is always sent (for notifications and as the
/// fallback), the blocks when there are any.
fn message_json(channel: &str, key: &str, value: &str, text: &str, blocks: &Option<Vec<Block>>) -> (r:
    Json)
    ensures
        r@ == body_with_blocks(
            JsonView::Object(message_body(channel@, key@, value@, text@)),
            message::opt_blocks(*blocks),
        ),
{
    let m = Members::new().put_text("channel", channel).put_text(key, value).put_text(
        "text",
        text,
    );
    assert(m@ =~= message_body(channel@, key@, value@, text@));
    let mut body = m.object();
    with_blocks(&mut body, blocks);
    body
}

/// The body of a reaction call.
pub open spec fn reaction_body(channel: Seq<char>, ts: Seq<char>, name: Seq<char>) -> JsonView {
    JsonView::Object(
        seq![
            ("channel"@, JsonView::Text(channel)),
            ("timestamp"@, JsonView::Text(ts)),
            ("name"@, JsonView::Text(name)),
        ],
    )
}

/// The empty body.
pub open spec fn empty_body() -> JsonView {
    JsonView::Object(seq![])
}

/// A Web API client: the two tokens that its calls authenticate with.
pub struct Client {
    pub app_token: String,
    pub bot_token: String,
}

impl Client {
    pub fn new(app_token: String, bot_token: String) -> (r: Client)
        ensures
            r.app_token == app_token,
            r.bot_token == bot_token,
    {
        Client { app_token, bot_token }
    }

    /// The call that asks for the bot's own user id.
    pub open spec fn identity_call(self) -> RequestView {
        call("auth.test"@, self.bot_token@, empty_body(), ExpectView::Field("user_id"@))
    }

    /// The call that opens a Socket Mode connection.
    pub open spec fn connection_call(self) -> RequestView {
        call("apps.connections.open"@, self.app_token@, empty_body(), ExpectView::Field("url"@))
    }

    /// The call that adds a reaction to a message, or removes it.
    pub open spec fn reaction_call(
        self,
        adds: bool,
        channel: Seq<char>,
        ts: Seq<char>,
        name: Seq<char>,
    ) -> RequestView {
        if adds {
            call(
                "reactions.add"@,
                self.bot_token@,
                reaction_body(channel, ts, name),
                ExpectView::SuccessOr("already_reacted"@),
            )
        } else {
            call(
                "reactions.remove"@,
                self.bot_token@,
                reaction_body(channel, ts, name),
                ExpectView::SuccessOr("no_reaction"@),
            )
        }
    }

    /// Ask for the bot's own user id.
    pub fn bot_user_id(&self) -> (r: Request)
        ensures
            r@ == self.identity_call(),
            r@ == call(
                "auth.test"@,
                self.bot_token@,
                empty_body(),
                ExpectView::Field("user_id"@),
            ),
    {
        let body = Members::new().object();
        assert(body@->Object_0 =~= seq![]);
        request(
            "auth.test",
            self.bot_token.as_str(),
            body,
            Expect::Field("user_id".to_owned()),
        )
    }

    /// Open a Socket Mode connection: its reply carries the `wss://` URL. The
    /// only call made with the app-level token.
    pub fn open_connection(&self) -> (r: Request)
        ensures
            r@ == self.connection_call(),
            r@ == call(
                "apps.connections.open"@,
                self.app_token@,
                empty_body(),
                ExpectView::Field("url"@),
            ),
    {
        let body = Members::new().object();
        assert(body@->Object_0 =~= seq![]);
        request(
            "apps.connections.open",
            self.app_token.as_str(),
            body,
            Expect::Field("url".to_owned()),
        )
    }

    /// Post a message in the thread under `thread_ts`; its reply carries the new
    /// message's `ts`, so that it can be edited as the reply streams in.
    pub fn post_message(
        &self,
        channel: &str,
        thread_ts: &str,
        text: &str,
        blocks: &Option<Vec<Block>>,
    ) -> (r: Request)
        ensures
            r@ == call(
                "chat.postMessage"@,
                self.bot_token@,
                body_with_blocks(
                    JsonView::Object(message_body(channel@, "thread_ts"@, thread_ts@, text@)),
                    message::opt_blocks(*blocks),
                ),
                ExpectView::Field("ts"@),
            ),
    {
        request(
            "chat.postMessage",
            self.bot_token.as_str(),
            message_json(channel, "thread_ts", thread_ts, text, blocks),
            Expect::Field("ts".to_owned()),
        )
    }

    /// Replace a previously posted message (the streaming edit).
    pub fn update_message(
        &self,
        channel: &str,
        ts: &str,
        text: &str,
        blocks: &Option<Vec<Block>>,
    ) -> (r: Request)
        ensures
            r@ == call(
                "chat.update"@,
                self.bot_token@,
                body_with_blocks(
                    JsonView::Object(message_body(channel@, "ts"@, ts@, text@)),
                    message::opt_blocks(*blocks),
                ),
                ExpectView::Success,
            ),
    {
        request(
            "chat.update",
            self.bot_token.as_str(),
            message_json(channel, "ts", ts, text, blocks),
            Expect::Success,
        )
    }

    /// Post a message that only `user` sees.
    pub fn post_ephemeral(
        &self,
        channel: &str,
        user: &str,
        text: &str,
        blocks: &Option<Vec<Block>>,
    ) -> (r: Request)
        ensures
            r@ == call(
                "chat.postEphemeral"@,
                self.bot_token@,
                body_with_blocks(
                    JsonView::Object(message_body(channel@, "user"@, user@, text@)),
                    message::opt_blocks(*blocks),
                ),
                ExpectView::Success,
            ),
    {
        request(
            "chat.postEphemeral",
            self.bot_token.as_str(),
            message_json(channel, "user", user, text, blocks),
            Expect::Success,
        )
    }

    /// A reaction call. It tolerates one benign refusal, so that lifecycle
    /// reactions never fail a turn over a double add or a missing reaction.
    fn react(&self, method: &str, channel: &str, ts: &str, name: &str, ignorable: &str) -> (r:
        Request)
        ensures
            r@ == call(
                method@,
                self.bot_token@,
                reaction_body(channel@, ts@, name@),
                ExpectView::SuccessOr(ignorable@),
            ),
    {
        let body = Members::new().put_text("channel", channel).put_text("timestamp", ts).put_text(
            "name",
            name,
        ).object();
        assert(body@->Object_0 =~= reaction_body(channel@, ts@, name@)->Object_0);
        request(method, self.bot_token.as_str(), body, Expect::SuccessOr(ignorable.to_owned()))
    }

    /// Add reaction `name` (without colons) to a message. Tolerates
    /// `already_reacted`, so that a retry is harmless.
    pub fn add_reaction(&self, channel: &str, ts: &str, name: &str) -> (r: Request)
        ensures
            r@ == self.reaction_call(true, channel@, ts@, name@),
            r@ == call(
                "reactions.add"@,
                self.bot_token@,
                reaction_body(channel@, ts@, name@),
                ExpectView::SuccessOr("already_reacted"@),
            ),
    {
        self.react("reactions.add", channel, ts, name, "already_reacted")
    }

    /// Remove reaction `name` from a message. Tolerates `no_reaction`.
    pub fn remove_reaction(&self, channel: &str, ts: &str, name: &str) -> (r: Request)
        ensures
            r@ == self.reaction_call(false, channel@, ts@, name@),
            r@ == call(
                "reactions.remove"@,
                self.bot_token@,
                reaction_body(channel@, ts@, name@),
                ExpectView::SuccessOr("no_reaction"@),
            ),
    {
        self.react("reactions.remove", channel, ts, name, "no_reaction")
    }
}

/// Whatever blocks a message has, its text is always sent.
pub proof fn law_the_text_is_always_sent(
    channel: Seq<char>,
    key: Seq<char>,
    value: Seq<char>,
    text: Seq<char>,
    v: Option<Seq<BlockView>>,
)
    requires
        key != "blocks"@,
        key != "text"@,
    ensures
        body_with_blocks(JsonView::Object(message_body(channel, key, value, text)), v) matches
            JsonView::Object(m) && m.contains(("text"@, JsonView::Text(text))),
{
    reveal_strlit("blocks");
    reveal_strlit("text");
    reveal_strlit("channel");
    assert("blocks"@.len() != "text"@.len());
    assert("blocks"@.len() != "channel"@.len());
    let m = message_body(channel, key, value, text);
    assert(m[2] == ("text"@, JsonView::Text(text)));
    if let Some(v) = v {
        if v.len() > 0 {
            let blocks = JsonView::Array(v.map_values(|b: BlockView| blocks::block_json(b)));
            reveal_with_fuel(json::with_member, 4);
            let all = json::with_member(m, "blocks"@, blocks);
            assert(m.drop_first().drop_first().drop_first() =~= seq![]);
            assert(m.drop_first()[0] == m[1]);
            assert(m.drop_first().drop_first()[0] == m[2]);
            assert(all[2] == m[2]);
        }
    }
}

/// A call succeeds only on a reply that says `ok`, or on the one refusal that it
/// tolerates; everything else is an error that names the method.
pub proof fn law_success_is_never_assumed(
    method: Seq<char>,
    expect: ExpectView,
    reply: Option<ReplyView>,
)
    ensures
        concluded(method, expect, reply) is Ok ==> (reply matches Some(r) && (r.ok == Some(true)
            || expect == ExpectView::SuccessOr(refusal_code(r)))),
        concluded(method, expect, reply) matches Err(e) ==> match e {
            ApiErrorView::Unreadable { method: m } => m == method,
            ApiErrorView::Refused { method: m, .. } => m == method,
            ApiErrorView::Missing { method: m, .. } => m == method,
        },
{
}

/// What the body of a message says: its channel, the second text, the text, and
/// the blocks, each as it is, when there are any; else it has no blocks.
pub proof fn law_what_a_message_body_says(
    channel: Seq<char>,
    key: Seq<char>,
    value: Seq<char>,
    text: Seq<char>,
    v: Option<Seq<BlockView>>,
)
    requires
        key == "thread_ts"@ || key == "ts"@ || key == "user"@,
    ensures
        ({
            let body = body_with_blocks(
                JsonView::Object(message_body(channel, key, value, text)),
                v,
            );
            &&& json::member(body, "channel"@) == Some(JsonView::Text(channel))
            &&& json::member(body, key) == Some(JsonView::Text(value))
            &&& json::member(body, "text"@) == Some(JsonView::Text(text))
            &&& match v {
                Some(v) => if v.len() > 0 {
                    json::member(body, "blocks"@) matches Some(JsonView::Array(sent))
                        && sent.len() == v.len() && forall|k: int|
                        0 <= k < v.len() ==> #[trigger] sent[k] == blocks::block_json(v[k])
                } else {
                    json::member(body, "blocks"@) is None
                },
                None => json::member(body, "blocks"@) is None,
            }
        }),
{
    lemma_keys_differ(key);
    let m = message_body(channel, key, value, text);
    json::lemma_three_members(m);
    if let Some(v) = v {
        if v.len() > 0 {
            let sent = JsonView::Array(v.map_values(|b: BlockView| blocks::block_json(b)));
            json::law_a_member_that_is_set_is_read_back(m, "blocks"@, sent, "channel"@);
            json::law_a_member_that_is_set_is_read_back(m, "blocks"@, sent, key);
            json::law_a_member_that_is_set_is_read_back(m, "blocks"@, sent, "text"@);
        }
    }
}

/// The names of a body's members are different ones.
pub proof fn lemma_keys_differ(key: Seq<char>)
    ensures
        "channel"@ != "text"@,
        "channel"@ != "blocks"@,
        "text"@ != "blocks"@,
        key == "thread_ts"@ || key == "ts"@ || key == "user"@ ==> key != "channel"@ && key
            != "text"@ && key != "blocks"@,
        "channel"@ != "timestamp"@,
        "channel"@ != "name"@,
        "timestamp"@ != "name"@,
{
    reveal_strlit("channel");
    reveal_strlit("thread_ts");
    reveal_strlit("ts");
    reveal_strlit("user");
    reveal_strlit("text");
    reveal_strlit("blocks");
    reveal_strlit("timestamp");
    reveal_strlit("name");
    assert("channel"@.len() == 7 && "thread_ts"@.len() == 9 && "ts"@.len() == 2 && "user"@.len()
        == 4 && "text"@.len() == 4 && "blocks"@.len() == 6 && "timestamp"@.len() == 9
        && "name"@.len() == 4);
    assert("user"@[0] != "text"@[0]);
}

/// A reaction call names the message by its channel and time, and the emoji.
pub proof fn law_a_reaction_names_its_message(
    channel: Seq<char>,
    ts: Seq<char>,
    name: Seq<char>,
)
    ensures
        json::member(reaction_body(channel, ts, name), "channel"@) == Some(
            JsonView::Text(channel),
        ),
        json::member(reaction_body(channel, ts, name), "timestamp"@) == Some(JsonView::Text(ts)),
        json::member(reaction_body(channel, ts, name), "name"@) == Some(JsonView::Text(name)),
{
    lemma_keys_differ(name);
    json::lemma_three_members(reaction_body(channel, ts, name)->Object_0);
}

/// A call goes to the URL of its method, with just the token, body and demand
/// that it was made with.
pub proof fn law_a_call_goes_to_its_method(
    method: Seq<char>,
    token: Seq<char>,
    body: JsonView,
    expect: ExpectView,
)
    ensures
        call(method, token, body, expect).method == method,
        call(method, token, body, expect).url == "https://slack.com/api/"@ + method,
        call(method, token, body, expect).token == token,
        call(method, token, body, expect).body == body,
        call(method, token, body, expect).expect == expect,
{
}

/// What a call came to. A reply that says `ok` is a success: with the field
/// that was asked for, or, where that is missing, an error that names it. One
/// that does not is a failure with Slack's own code, except for the one refusal
/// that the call tolerates. A reply that cannot be read is neither.
pub proof fn law_what_a_call_came_to(method: Seq<char>, expect: ExpectView, reply: ReplyView)
    ensures
        reply.ok == Some(true) ==> {
            &&& expect !is Field ==> concluded(method, expect, Some(reply)) == Ok::<
                Option<Seq<char>>,
                ApiErrorView,
            >(None)
            &&& expect matches ExpectView::Field(field) ==> match reply.value {
                Some(value) => concluded(method, expect, Some(reply)) == Ok::<
                    Option<Seq<char>>,
                    ApiErrorView,
                >(Some(value)),
                None => concluded(method, expect, Some(reply)) == Err::<
                    Option<Seq<char>>,
                    ApiErrorView,
                >(ApiErrorView::Missing { method, field }),
            }
        },
        reply.ok != Some(true) ==> {
            let code = match reply.error {
                Some(code) => code,
                None => "unknown_error"@,
            };
            if expect == ExpectView::SuccessOr(code) {
                concluded(method, expect, Some(reply)) == Ok::<Option<Seq<char>>, ApiErrorView>(
                    None,
                )
            } else {
                concluded(method, expect, Some(reply)) == Err::<Option<Seq<char>>, ApiErrorView>(
                    ApiErrorView::Refused { method, code },
                )
            }
        },
        concluded(method, expect, None) == Err::<Option<Seq<char>>, ApiErrorView>(
            ApiErrorView::Unreadable { method },
        ),
{
}

/// A reply is what its text says under `ok`, `error` and the field that was
/// asked for; it is none exactly when one of these cannot be read.
pub proof fn law_a_reply_is_read_by_name(text: Seq<char>, field: Option<Seq<char>>)
    ensures
        reply_in(text, field) matches Some(r) ==> {
            &&& json_bool_member(text, "ok"@) == Some(r.ok)
            &&& json_text_member(text, "error"@) == Some(r.error)
            &&& field matches Some(field) ==> json_text_member(text, field) == Some(r.value)
            &&& field is None ==> r.value is None
        },
        reply_in(text, field) is None <==> {
            ||| json_bool_member(text, "ok"@) is None
            ||| json_text_member(text, "error"@) is None
            ||| field matches Some(field) && json_text_member(text, field) is None
        },
{
}

/// The message of a failed call names the method and what was wrong: Slack's
/// code, or the field that is missing.
pub proof fn law_an_error_names_its_cause(e: ApiErrorView)
    ensures
        match e {
            ApiErrorView::Unreadable { method } => text::occurs(error_text(e), method),
            ApiErrorView::Refused { method, code } => text::begins(error_text(e), method)
                && text::ends(error_text(e), code),
            ApiErrorView::Missing { method, field } => text::begins(error_text(e), method)
                && text::ends(error_text(e), field),
        },
{
    let t = error_text(e);
    match e {
        ApiErrorView::Unreadable { method } => {
            reveal_strlit("parsing ");
            assert(t.subrange(8, 8 + method.len() as int) =~= method);
            assert(text::stands_at(t, method, 8));
        },
        ApiErrorView::Refused { method, code } => {
            assert(t.subrange(0, method.len() as int) =~= method);
            assert(t.subrange(t.len() - code.len(), t.len() as int) =~= code);
        },
        ApiErrorView::Missing { method, field } => {
            assert(t.subrange(0, method.len() as int) =~= method);
            assert(t.subrange(t.len() - field.len(), t.len() as int) =~= field);
        },
    }
}

/// Only opening a connection is done with the app's token; everything else is
/// done as the bot. Each call asks for the field that it is made for, and a
/// reaction that is there already, or not there to be removed, is no failure.
pub proof fn law_every_call_is_made_as_it_should(
    client: Client,
    adds: bool,
    channel: Seq<char>,
    ts: Seq<char>,
    name: Seq<char>,
)
    ensures
        client.identity_call().token == client.bot_token@,
        client.identity_call().url == "https://slack.com/api/auth.test"@,
        client.identity_call().expect == ExpectView::Field("user_id"@),
        client.connection_call().token == client.app_token@,
        client.connection_call().url == "https://slack.com/api/apps.connections.open"@,
        client.connection_call().expect == ExpectView::Field("url"@),
        ({
            let r = client.reaction_call(adds, channel, ts, name);
            &&& r.token == client.bot_token@
            &&& r.url == "https://slack.com/api/"@ + r.method
            &&& r.method == if adds {
                "reactions.add"@
            } else {
                "reactions.remove"@
            }
            &&& r.expect == ExpectView::SuccessOr(
                if adds {
                    "already_reacted"@
                } else {
                    "no_reaction"@
                },
            )
            &&& json::member(r.body, "channel"@) == Some(JsonView::Text(channel))
            &&& json::member(r.body, "timestamp"@) == Some(JsonView::Text(ts))
            &&& json::member(r.body, "name"@) == Some(JsonView::Text(name))
        }),
{
    law_a_reaction_names_its_message(channel, ts, name);
    reveal_strlit("https://slack.com/api/");
    reveal_strlit("auth.test");
    reveal_strlit("https://slack.com/api/auth.test");
    reveal_strlit("apps.connections.open");
    reveal_strlit("https://slack.com/api/apps.connections.open");
    assert(API_BASE@ + "auth.test"@ =~= "https://slack.com/api/auth.test"@);
    assert(API_BASE@ + "apps.connections.open"@
        =~= "https://slack.com/api/apps.connections.open"@);
}

} // verus!
