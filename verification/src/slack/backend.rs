//! The Slack backend's own decisions: what a frame leads to, whom to answer or
//! to deny, the lifecycle reactions around a turn, and when to reconnect. The
//! socket and the calls themselves are left to whoever runs it.
use std::sync::{Arc, RwLock};
use vstd::prelude::*;

use crate::access;
use crate::access::{Access, AccessView, LoopView};
use crate::backend::{BackendObserver, TURN_FAILED_MESSAGE};
use crate::engine;
use crate::event::{Inbound, InboundView, ReactionEvent, ReactionView};
use crate::json;
use crate::json::JsonView;
use crate::slack::blocks;
use crate::slack::blocks::BlockView;
use crate::slack::client;
use crate::slack::client::{Client, Request, RequestView};
use crate::slack::config::{Reactions, SlackConfig};
use crate::slack::markdown;
use crate::slack::message;
use crate::slack::protocol::{Decision, DecisionView};
use crate::text;

verus! {

/// How long to wait before reopening after a failed connection, in seconds, so
/// that a persistent failure does not spin.
pub const RECONNECT_DELAY_SECS: u64 = 3;

/// `std::sync::RwLock`, opaque here: it carries the live policy to whoever holds
/// a handle.
#[verifier::external_type_specification]
#[verifier::external_body]
#[verifier::reject_recursive_types(T)]
pub struct ExRwLock<T: ?Sized>(std::sync::RwLock<T>);

/// The policy that a lock was made with, and that it holds until someone writes
/// through it.
pub uninterp spec fn seeded_with(lock: RwLock<Access>) -> AccessView;

/// `std::sync::RwLock::new`: a lock made with this policy. Whoever has a handle
/// can change what a lock holds, so what it holds later is left unsaid.
#[verifier::external_body]
fn locked(access: Access) -> (r: RwLock<Access>)
    ensures
        seeded_with(r) == access@,
{
    RwLock::new(access)
}

/// `Some(value)`, taken as the type it has: a trait object wrapped in place would
/// be converted to its own type, which the verifier does not follow.
fn present<T>(value: T) -> (r: Option<T>)
    ensures
        r == Some(value),
{
    Some(value)
}

/// The Slack backend: a Socket Mode bot, built from the two Slack tokens and the
/// Slack-side config.
pub struct SlackBackend {
    /// `xapp-…`: opens the Socket Mode connection.
    pub app_token: String,
    /// `xoxb-…`: speaks the Web API.
    pub bot_token: String,
    /// The Slack-side config.
    pub config: SlackConfig,
    /// Optional lifecycle observer.
    pub observer: Option<Arc<dyn BackendObserver>>,
    /// The live access policy, seeded from the config. It is held behind a lock
    /// so that it can be swapped while the bot runs; the read loop reads it anew
    /// for each event.
    pub access: Arc<RwLock<Access>>,
}

impl SlackBackend {
    /// Build the backend from the two Slack tokens and the Slack config.
    pub fn new(app_token: String, bot_token: String, config: SlackConfig) -> (r: SlackBackend)
        ensures
            r.app_token == app_token,
            r.bot_token == bot_token,
            r.config == config,
            r.observer is None,
            seeded_with(*r.access) == config.access@,
    {
        let access = Arc::new(locked(config.access.clone()));
        SlackBackend { app_token, bot_token, config, observer: None, access }
    }

    /// Build the backend from what the environment holds for the two tokens. A
    /// missing or blank one is an error that names its variable, the app token's
    /// first.
    pub fn from_env(config: SlackConfig, app: Option<String>, bot: Option<String>) -> (r: Result<
        SlackBackend,
        TokenError,
    >)
        ensures
            match r {
                Ok(b) => {
                    &&& token(text::opt_text(app)) == Some(b.app_token@)
                    &&& token(text::opt_text(bot)) == Some(b.bot_token@)
                    &&& b.config == config
                    &&& b.observer is None
                    &&& seeded_with(*b.access) == config.access@
                },
                Err(e) => if token(text::opt_text(app)) is None {
                    e.name@ == "SLACK_APP_TOKEN"@
                } else {
                    token(text::opt_text(bot)) is None && e.name@ == "SLACK_BOT_TOKEN"@
                },
            },
    {
        let app_token = match require_env_token("SLACK_APP_TOKEN", app) {
            Ok(t) => t,
            Err(e) => {
                return Err(e);
            },
        };
        let bot_token = match require_env_token("SLACK_BOT_TOKEN", bot) {
            Ok(t) => t,
            Err(e) => {
                return Err(e);
            },
        };
        Ok(SlackBackend::new(app_token, bot_token, config))
    }

    /// Attach an observer.
    pub fn observer(self, observer: Arc<dyn BackendObserver>) -> (r: SlackBackend)
        ensures
            r.observer == Some(observer),
            r.app_token == self.app_token,
            r.bot_token == self.bot_token,
            r.config == self.config,
            r.access == self.access,
    {
        let observer = present(observer);
        SlackBackend { observer, ..self }
    }

    /// A handle to the live access policy, for changing whom the bot answers
    /// without a restart. The loop cap is read once, at startup; only the
    /// allowlist is read live.
    pub fn access_handle(&self) -> (r: Arc<RwLock<Access>>)
        ensures
            r == self.access,
    {
        self.access.clone()
    }
}

/// A token that is missing from the environment.
#[derive(Debug, PartialEq, Eq)]
pub struct TokenError {
    /// The variable that should hold it.
    pub name: String,
}

impl TokenError {
    /// The message to show.
    pub fn message(&self) -> (r: String)
        ensures
            r@ == self.name@ + " must be set (export it from your secret store)"@,
    {
        let mut out: String = self.name.clone();
        out.append(" must be set (export it from your secret store)");
        out
    }
}

/// The token a variable holds: trimmed, and none when that leaves nothing.
pub open spec fn token(value: Option<Seq<char>>) -> Option<Seq<char>> {
    match value {
        Some(v) => if text::trimmed(v).len() == 0 {
            None
        } else {
            Some(text::trimmed(v))
        },
        None => None,
    }
}

/// Require a token from the environment. Blank counts as absent.
pub fn require_env_token(name: &str, value: Option<String>) -> (r: Result<String, TokenError>)
    ensures
        match r {
            Ok(t) => token(text::opt_text(value)) == Some(t@),
            Err(e) => token(text::opt_text(value)) is None && e.name@ == name@,
        },
{
    if let Some(value) = value {
        let t = text::trim(value.as_str());
        if !t.is_empty() {
            return Ok(t.to_owned());
        }
    }
    Err(TokenError { name: name.to_owned() })
}

/// What to do about a frame, one after the other.
#[derive(Debug, PartialEq, Eq)]
pub enum FrameAction {
    /// Send this frame: the acknowledgement.
    Ack(String),
    /// Decide whether to answer this message.
    Consider(Inbound),
    /// Tell the observer about this reaction.
    Observe(ReactionEvent),
    /// Drop this socket and open a fresh one.
    Reconnect,
}

/// The mathematical form of a [`FrameAction`].
pub enum ActionView {
    Ack(Seq<char>),
    Consider(InboundView),
    Observe(ReactionView),
    Reconnect,
}

impl View for FrameAction {
    type V = ActionView;

    open spec fn view(&self) -> ActionView {
        match self {
            FrameAction::Ack(frame) => ActionView::Ack(frame@),
            FrameAction::Consider(inbound) => ActionView::Consider(inbound@),
            FrameAction::Observe(reaction) => ActionView::Observe(reaction@),
            FrameAction::Reconnect => ActionView::Reconnect,
        }
    }
}

/// The actions of a list.
pub open spec fn actions_view(v: Seq<FrameAction>) -> Seq<ActionView> {
    v.map_values(|a: FrameAction| a@)
}

/// What a decision leads to: the acknowledgement comes first (Slack redelivers
/// otherwise), then the message, then the reaction, and reconnecting last.
pub open spec fn actions_for(d: DecisionView) -> Seq<ActionView> {
    let none = Seq::<ActionView>::empty();
    let v = match d.ack {
        Some(id) => none.push(ActionView::Ack(client::json_object_text("envelope_id"@, id))),
        None => none,
    };
    let v = match d.inbound {
        Some(m) => v.push(ActionView::Consider(m)),
        None => v,
    };
    let v = match d.reaction {
        Some(r) => v.push(ActionView::Observe(r)),
        None => v,
    };
    if d.reconnect {
        v.push(ActionView::Reconnect)
    } else {
        v
    }
}

/// What to do about a frame, in order.
pub fn frame_actions(decision: Decision) -> (r: Vec<FrameAction>)
    ensures
        actions_view(r@) == actions_for(decision@),
{
    let mut out: Vec<FrameAction> = Vec::new();
    if let Some(id) = decision.ack {
        out.push(FrameAction::Ack(client::ack_frame(id.as_str())));
    }
    if let Some(inbound) = decision.inbound {
        out.push(FrameAction::Consider(inbound));
    }
    if let Some(reaction) = decision.reaction {
        out.push(FrameAction::Observe(reaction));
    }
    if decision.reconnect {
        out.push(FrameAction::Reconnect);
    }
    assert(actions_view(out@) =~= actions_for(decision@));
    out
}

/// Whether a message that is not handled warrants the denial: it was addressed
/// to the bot (a mention or a direct message, not a thread continuation, not
/// the bot's own, not a bot's) and the policy does not admit it.
pub open spec fn denied(m: InboundView, bot_id: Seq<char>, access: AccessView) -> bool {
    m.user != bot_id && !m.is_bot && !m.continuation && !access::permits(access, m)
}

/// Whether a message that is not handled warrants the denial, as opposed to
/// being dropped in silence.
pub fn denied_when_addressed(inbound: &Inbound, bot_user_id: &str, access: &Access) -> (r: bool)
    ensures
        r == denied(inbound@, bot_user_id@, access@),
{
    !text::same(inbound.user.as_str(), bot_user_id) && !inbound.is_bot && !inbound.continuation
        && !access::allows(access, inbound)
}

/// What becomes of a message.
#[derive(Debug, Clone, Copy, PartialEq, Eq, Structural)]
pub enum Verdict {
    /// Run a turn or a command for it.
    Handle,
    /// Tell its author that they may not.
    Deny,
    /// Drop it in silence.
    Ignore,
}

/// What becomes of a message: handled when it was admitted, else denied when it
/// was addressed to the bot, else dropped.
pub open spec fn verdict_of(
    admitted: bool,
    m: InboundView,
    bot_id: Seq<char>,
    access: AccessView,
) -> Verdict {
    if admitted {
        Verdict::Handle
    } else if denied(m, bot_id, access) {
        Verdict::Deny
    } else {
        Verdict::Ignore
    }
}

/// What becomes of a message: handled when it was admitted, else denied when it
/// was addressed to the bot, else dropped.
pub fn verdict(admitted: bool, inbound: &Inbound, bot_user_id: &str, access: &Access) -> (r:
    Verdict)
    ensures
        r == verdict_of(admitted, inbound@, bot_user_id@, access@),
        r == if admitted {
            Verdict::Handle
        } else if denied(inbound@, bot_user_id@, access@) {
            Verdict::Deny
        } else {
            Verdict::Ignore
        },
{
    if admitted {
        Verdict::Handle
    } else if denied_when_addressed(inbound, bot_user_id, access) {
        Verdict::Deny
    } else {
        Verdict::Ignore
    }
}

/// A step of a turn's lifecycle.
#[derive(Debug, PartialEq, Eq)]
pub enum Signal {
    /// Add this reaction to the message.
    Add(String),
    /// Remove this reaction from the message.
    Remove(String),
    /// Post this reply.
    Say(String),
}

/// The mathematical form of a [`Signal`].
pub enum SignalView {
    Add(Seq<char>),
    Remove(Seq<char>),
    Say(Seq<char>),
}

impl View for Signal {
    type V = SignalView;

    open spec fn view(&self) -> SignalView {
        match self {
            Signal::Add(name) => SignalView::Add(name@),
            Signal::Remove(name) => SignalView::Remove(name@),
            Signal::Say(text) => SignalView::Say(text@),
        }
    }
}

/// The signals of a list.
pub open spec fn signals_view(v: Seq<Signal>) -> Seq<SignalView> {
    v.map_values(|s: Signal| s@)
}

/// Adding a reaction, unless it is disabled.
pub open spec fn adding(name: Seq<char>) -> Seq<SignalView> {
    if name.len() == 0 {
        seq![]
    } else {
        seq![SignalView::Add(name)]
    }
}

/// Removing a reaction, unless it is disabled.
pub open spec fn removing(name: Seq<char>) -> Seq<SignalView> {
    if name.len() == 0 {
        seq![]
    } else {
        seq![SignalView::Remove(name)]
    }
}

/// What ends a turn: the first reaction is taken off, then a success is marked,
/// or a failure said and marked.
pub open spec fn closing(r: Reactions, ok: bool) -> Seq<SignalView> {
    if ok {
        removing(r.seen@) + adding(r.done@)
    } else {
        removing(r.seen@) + seq![SignalView::Say(TURN_FAILED_MESSAGE@)] + adding(r.failed@)
    }
}

fn push_add(out: &mut Vec<Signal>, name: &String)
    ensures
        signals_view(final(out)@) == signals_view(old(out)@) + adding(name@),
{
    if !name.as_str().is_empty() {
        out.push(Signal::Add(name.clone()));
    }
    assert(signals_view(out@) =~= signals_view(old(out)@) + adding(name@));
}

/// What starts a turn: the message is marked as seen.
pub fn turn_started(r: &Reactions) -> (v: Vec<Signal>)
    ensures
        signals_view(v@) == adding(r.seen@),
{
    let mut out: Vec<Signal> = Vec::new();
    push_add(&mut out, &r.seen);
    assert(signals_view(out@) =~= adding(r.seen@));
    out
}

/// What ends a turn. A failure still gets a visible reply.
pub fn turn_ended(r: &Reactions, ok: bool) -> (v: Vec<Signal>)
    ensures
        signals_view(v@) == closing(*r, ok),
{
    let mut out: Vec<Signal> = Vec::new();
    if !r.seen.as_str().is_empty() {
        out.push(Signal::Remove(r.seen.clone()));
    }
    assert(signals_view(out@) =~= removing(r.seen@));
    if ok {
        push_add(&mut out, &r.done);
    } else {
        out.push(Signal::Say(TURN_FAILED_MESSAGE.to_owned()));
        assert(signals_view(out@) =~= removing(r.seen@) + seq![
            SignalView::Say(TURN_FAILED_MESSAGE@),
        ]);
        push_add(&mut out, &r.failed);
    }
    assert(signals_view(out@) =~= closing(*r, ok));
    out
}

/// How long to wait before the connection is reopened, in seconds: not at all
/// after a clean end, a little after a failure.
pub fn reopen_delay(after_error: bool) -> (r: u64)
    ensures
        r == if after_error {
            RECONNECT_DELAY_SECS
        } else {
            0
        },
{
    if after_error {
        RECONNECT_DELAY_SECS
    } else {
        0
    }
}

/// The denial as only its addressee sees it.
pub open spec fn ephemeral_denial(
    client: Client,
    m: InboundView,
    message: Seq<char>,
    v: Option<Seq<BlockView>>,
) -> RequestView {
    client::call(
        "chat.postEphemeral"@,
        client.bot_token@,
        client::body_with_blocks(
            JsonView::Object(
                client::message_body(m.channel, "user"@, m.user, text::trimmed(message)),
            ),
            v,
        ),
        client::ExpectView::Success,
    )
}

/// The denial as a direct message.
pub open spec fn direct_denial(
    client: Client,
    m: InboundView,
    message: Seq<char>,
    v: Option<Seq<BlockView>>,
) -> RequestView {
    client::call(
        "chat.postMessage"@,
        client.bot_token@,
        client::body_with_blocks(
            JsonView::Object(
                client::message_body(m.user, "thread_ts"@, ""@, text::trimmed(message)),
            ),
            v,
        ),
        client::ExpectView::Field("ts"@),
    )
}

/// How to tell the user who addressed the bot that they may not: ephemerally,
/// and, should that fail, by direct message.
pub fn send_denial(client: &Client, inbound: &Inbound, message: &str) -> (r: (Request, Request))
    ensures
        r.0@ == ephemeral_denial(
            *client,
            inbound@,
            message@,
            message::message_blocks(message@, markdown::document(message@)),
        ),
        r.1@ == direct_denial(
            *client,
            inbound@,
            message@,
            message::message_blocks(message@, markdown::document(message@)),
        ),
{
    let (fallback, blocks) = message::render_message(message);
    let first = client.post_ephemeral(
        inbound.channel.as_str(),
        inbound.user.as_str(),
        fallback.as_str(),
        &blocks,
    );
    let second = client.post_message(inbound.user.as_str(), "", fallback.as_str(), &blocks);
    (first, second)
}

/// Acknowledging comes before anything else, so that a slow reply never makes
/// Slack redeliver, and reconnecting after everything else.
pub proof fn law_acknowledging_comes_first(d: DecisionView)
    ensures
        forall|k: int|
            0 <= k < actions_for(d).len() && (#[trigger] actions_for(d)[k]) is Ack ==> k == 0,
        forall|k: int|
            0 <= k < actions_for(d).len() && (#[trigger] actions_for(d)[k]) is Reconnect ==> k
                == actions_for(d).len() - 1,
        d.ack is Some ==> actions_for(d).len() > 0 && actions_for(d)[0] is Ack,
{
}

/// Whoever is told that they may not is someone that the policy does not admit:
/// never the bot itself, never another bot, never mere chatter in a thread, and
/// never someone whose message could be answered.
pub proof fn law_only_strangers_are_denied(
    access: AccessView,
    guard: LoopView,
    bot_id: Seq<char>,
    m: InboundView,
    known: bool,
)
    requires
        denied(m, bot_id, access),
    ensures
        m.user != bot_id,
        !m.is_bot,
        !m.continuation,
        !engine::answered(access, guard, bot_id, m, known),
{
}

/// An addressed message from a person is either admitted or denied, never
/// dropped in silence.
pub proof fn law_an_addressed_person_is_never_ignored(
    access: AccessView,
    guard: LoopView,
    bot_id: Seq<char>,
    m: InboundView,
    known: bool,
)
    requires
        m.user != bot_id,
        !m.is_bot,
        !m.continuation,
    ensures
        engine::answered(access, guard, bot_id, m, known) <==> !denied(m, bot_id, access),
{
}

/// However a turn ends, the mark that it was seen is taken off again, and at
/// most one mark is put on: a disabled one never is.
pub proof fn law_a_turn_leaves_one_mark(r: Reactions, ok: bool)
    ensures
        forall|k: int|
            0 <= k < closing(r, ok).len() ==> (#[trigger] closing(r, ok)[k] matches SignalView::Add(
                name,
            ) ==> {
                &&& k == closing(r, ok).len() - 1
                &&& name.len() > 0
                &&& name == if ok {
                    r.done@
                } else {
                    r.failed@
                }
            }),
        r.seen@.len() > 0 ==> closing(r, ok).len() > 0 && closing(r, ok)[0] == SignalView::Remove(
            r.seen@,
        ),
{
}

/// A denial reaches the one who was denied: first where they wrote, for their
/// eyes only, then in a direct message to them. Both say the message and are
/// sent as the bot.
pub proof fn law_a_denial_reaches_its_addressee(
    client: Client,
    m: InboundView,
    message: Seq<char>,
    v: Option<Seq<BlockView>>,
)
    ensures
        ({
            let first = ephemeral_denial(client, m, message, v);
            &&& first.method == "chat.postEphemeral"@
            &&& first.token == client.bot_token@
            &&& json::member(first.body, "channel"@) == Some(JsonView::Text(m.channel))
            &&& json::member(first.body, "user"@) == Some(JsonView::Text(m.user))
            &&& json::member(first.body, "text"@) == Some(JsonView::Text(text::trimmed(message)))
            &&& says_blocks(first.body, v)
        }),
        ({
            let second = direct_denial(client, m, message, v);
            &&& second.method == "chat.postMessage"@
            &&& second.token == client.bot_token@
            &&& json::member(second.body, "channel"@) == Some(JsonView::Text(m.user))
            &&& json::member(second.body, "text"@) == Some(JsonView::Text(text::trimmed(message)))
            &&& says_blocks(second.body, v)
        }),
{
    let shown = text::trimmed(message);
    client::law_what_a_message_body_says(m.channel, "user"@, m.user, shown, v);
    client::law_what_a_message_body_says(m.user, "thread_ts"@, ""@, shown, v);
}

/// Whether the blocks of a body are these, one for one.
pub open spec fn says_blocks(body: JsonView, v: Option<Seq<BlockView>>) -> bool {
    match v {
        Some(v) => v.len() > 0 ==> (json::member(body, "blocks"@) matches Some(
            JsonView::Array(sent),
        ) && sent.len() == v.len() && forall|k: int|
            0 <= k < v.len() ==> #[trigger] sent[k] == blocks::block_json(v[k])),
        None => json::member(body, "blocks"@) is None,
    }
}

/// Everything that a decision asks for is done, once, and nothing else is: the
/// acknowledgement of just that envelope, the message, the reaction and the
/// reconnection.
pub proof fn law_a_decision_is_carried_out(d: DecisionView, action: ActionView)
    ensures
        actions_for(d).contains(action) <==> match action {
            ActionView::Ack(frame) => d.ack matches Some(id) && frame == client::json_object_text(
                "envelope_id"@,
                id,
            ),
            ActionView::Consider(m) => d.inbound == Some(m),
            ActionView::Observe(r) => d.reaction == Some(r),
            ActionView::Reconnect => d.reconnect,
        },
        forall|i: int, j: int|
            0 <= i < j < actions_for(d).len() ==> #[trigger] actions_for(d)[i]
                != #[trigger] actions_for(d)[j],
{
    let v = actions_for(d);
    let n: int = if d.ack is Some {
        1
    } else {
        0
    };
    let k: int = n + if d.inbound is Some {
        1int
    } else {
        0int
    };
    let l: int = k + if d.reaction is Some {
        1int
    } else {
        0int
    };
    if let Some(id) = d.ack {
        assert(v[0] == ActionView::Ack(client::json_object_text("envelope_id"@, id)));
    }
    if let Some(m) = d.inbound {
        assert(v[n] == ActionView::Consider(m));
    }
    if let Some(r) = d.reaction {
        assert(v[k] == ActionView::Observe(r));
    }
    if d.reconnect {
        assert(v[l] == ActionView::Reconnect);
    }
}

/// What ends a turn: the mark that it was seen comes off, success or failure is
/// marked by its own emoji, and a failure, only a failure, is said. A disabled
/// mark is neither put on nor taken off; nothing else happens.
pub proof fn law_what_ends_a_turn(r: Reactions, ok: bool, signal: SignalView)
    ensures
        closing(r, ok).contains(signal) <==> match signal {
            SignalView::Remove(name) => name == r.seen@ && name.len() > 0,
            SignalView::Add(name) => name.len() > 0 && if ok {
                name == r.done@
            } else {
                name == r.failed@
            },
            SignalView::Say(said) => !ok && said == TURN_FAILED_MESSAGE@,
        },
        adding(r.seen@).contains(signal) <==> (signal matches SignalView::Add(name) && name
            == r.seen@ && name.len() > 0),
        adding(r.seen@).len() <= 1,
{
    let v = closing(r, ok);
    let n: int = if r.seen@.len() > 0 {
        1
    } else {
        0
    };
    if r.seen@.len() > 0 {
        assert(v[0] == SignalView::Remove(r.seen@));
        assert(adding(r.seen@)[0] == SignalView::Add(r.seen@));
    }
    if ok {
        if r.done@.len() > 0 {
            assert(v[n] == SignalView::Add(r.done@));
        }
    } else {
        assert(v[n] == SignalView::Say(TURN_FAILED_MESSAGE@));
        if r.failed@.len() > 0 {
            assert(v[n + 1] == SignalView::Add(r.failed@));
        }
    }
}

/// A token is what the variable holds without the white space around it; a
/// variable that is unset or blank holds none.
pub proof fn law_a_token_is_trimmed(before: Seq<char>, t: Seq<char>, after: Seq<char>)
    requires
        forall|k: int| 0 <= k < before.len() ==> text::white_space(#[trigger] before[k]),
        forall|k: int| 0 <= k < after.len() ==> text::white_space(#[trigger] after[k]),
        text::is_trim(t),
    ensures
        t.len() > 0 ==> token(Some(before + t + after)) == Some(t),
        t.len() == 0 ==> token(Some(before + t + after)) is None,
        token(None) is None,
{
    text::law_what_trimming_leaves(before, t, after);
}

/// Who is told that they may not: a person, not the bot itself, who addressed
/// the bot with a mention or directly and whom the policy does not admit.
pub proof fn law_who_is_denied(access: AccessView, bot_id: Seq<char>, m: InboundView)
    ensures
        denied(m, bot_id, access) <==> {
            &&& !access::permits(access, m)
            &&& m.user != bot_id
            &&& !(m.is_bot || m.continuation)
        },
{
}

/// What becomes of a message: all that are admitted are handled, and no other;
/// of the others, someone who addressed the bot and may not is told so, and
/// everything else is dropped in silence.
pub proof fn law_what_becomes_of_a_message(
    admitted: bool,
    m: InboundView,
    bot_id: Seq<char>,
    access: AccessView,
)
    ensures
        verdict_of(admitted, m, bot_id, access) == Verdict::Handle <==> admitted,
        verdict_of(admitted, m, bot_id, access) == Verdict::Deny <==> !admitted && !access::permits(
            access,
            m,
        ) && m.user != bot_id && !m.is_bot && !m.continuation,
{
}

} // verus!
