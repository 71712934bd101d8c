//! The Socket Mode protocol, kept pure: given what one frame holds, decide what
//! to do (acknowledge the envelope, deliver a message or a reaction, reconnect)
//! without touching any transport.
use vstd::prelude::*;

use crate::event::{Inbound, InboundView, ReactionEvent, ReactionView};
use crate::text;

verus! {

/// What one frame asks of the connection. Most frames set a single field; an
/// `events_api` envelope sets `ack` and what it carries.
#[derive(Debug, PartialEq, Eq)]
pub struct Decision {
    /// The envelope id to acknowledge, if the frame was an ackable envelope.
    pub ack: Option<String>,
    /// The message to hand the bot, if the envelope carried one.
    pub inbound: Option<Inbound>,
    /// The reaction to hand the observer, if the envelope carried one.
    pub reaction: Option<ReactionEvent>,
    /// Whether Slack asked to drop this socket and open a fresh one.
    pub reconnect: bool,
}

/// The mathematical form of a [`Decision`].
pub struct DecisionView {
    pub ack: Option<Seq<char>>,
    pub inbound: Option<InboundView>,
    pub reaction: Option<ReactionView>,
    pub reconnect: bool,
}

impl View for Decision {
    type V = DecisionView;

    open spec fn view(&self) -> DecisionView {
        DecisionView {
            ack: text::opt_text(self.ack),
            inbound: match self.inbound {
                Some(m) => Some(m@),
                None => None,
            },
            reaction: match self.reaction {
                Some(r) => Some(r@),
                None => None,
            },
            reconnect: self.reconnect,
        }
    }
}

/// The decision to do nothing.
pub open spec fn nothing() -> DecisionView {
    DecisionView { ack: None, inbound: None, reaction: None, reconnect: false }
}

impl Default for Decision {
    /// Do nothing.
    fn default() -> (r: Decision)
        ensures
            r@ == nothing(),
    {
        Decision { ack: None, inbound: None, reaction: None, reconnect: false }
    }
}

/// A frame's envelope, decoded.
#[derive(Debug)]
pub struct Envelope {
    pub kind: String,
    pub envelope_id: Option<String>,
    /// The event it carries, if any.
    pub event: Option<Event>,
}

/// An event, decoded.
#[derive(Debug)]
pub struct Event {
    pub kind: String,
    pub channel: Option<String>,
    pub channel_type: Option<String>,
    pub subtype: Option<String>,
    pub user: Option<String>,
    pub bot_id: Option<String>,
    pub text: Option<String>,
    pub ts: Option<String>,
    pub thread_ts: Option<String>,
    /// The emoji of a reaction.
    pub reaction: Option<String>,
    /// What a reaction was added to.
    pub item: Option<Item>,
}

/// What a reaction was added to, decoded.
#[derive(Debug)]
pub struct Item {
    pub kind: Option<String>,
    pub channel: Option<String>,
    pub ts: Option<String>,
}

/// The mathematical form of an [`Envelope`].
pub struct EnvelopeView {
    pub kind: Seq<char>,
    pub envelope_id: Option<Seq<char>>,
    pub event: Option<EventView>,
}

/// The mathematical form of an [`Event`].
pub struct EventView {
    pub kind: Seq<char>,
    pub channel: Option<Seq<char>>,
    pub channel_type: Option<Seq<char>>,
    pub subtype: Option<Seq<char>>,
    pub user: Option<Seq<char>>,
    pub bot_id: Option<Seq<char>>,
    pub text: Option<Seq<char>>,
    pub ts: Option<Seq<char>>,
    pub thread_ts: Option<Seq<char>>,
    pub reaction: Option<Seq<char>>,
    pub item: Option<ItemView>,
}

/// The mathematical form of an [`Item`].
pub struct ItemView {
    pub kind: Option<Seq<char>>,
    pub channel: Option<Seq<char>>,
    pub ts: Option<Seq<char>>,
}

impl View for Item {
    type V = ItemView;

    open spec fn view(&self) -> ItemView {
        ItemView {
            kind: text::opt_text(self.kind),
            channel: text::opt_text(self.channel),
            ts: text::opt_text(self.ts),
        }
    }
}

impl View for Event {
    type V = EventView;

    open spec fn view(&self) -> EventView {
        EventView {
            kind: self.kind@,
            channel: text::opt_text(self.channel),
            channel_type: text::opt_text(self.channel_type),
            subtype: text::opt_text(self.subtype),
            user: text::opt_text(self.user),
            bot_id: text::opt_text(self.bot_id),
            text: text::opt_text(self.text),
            ts: text::opt_text(self.ts),
            thread_ts: text::opt_text(self.thread_ts),
            reaction: text::opt_text(self.reaction),
            item: match self.item {
                Some(item) => Some(item@),
                None => None,
            },
        }
    }
}

impl View for Envelope {
    type V = EnvelopeView;

    open spec fn view(&self) -> EnvelopeView {
        EnvelopeView {
            kind: self.kind@,
            envelope_id: text::opt_text(self.envelope_id),
            event: match self.event {
                Some(event) => Some(event@),
                None => None,
            },
        }
    }
}

/// `value`, or empty text.
pub open spec fn or_empty(value: Option<Seq<char>>) -> Seq<char> {
    match value {
        Some(v) => v,
        None => seq![],
    }
}

/// A mention of the bot.
pub open spec fn is_mention(e: EventView) -> bool {
    e.kind == "app_mention"@
}

/// A direct message as it was sent: not an edit, a deletion or the like.
pub open spec fn is_dm_message(e: EventView) -> bool {
    e.kind == "message"@ && e.channel_type == Some("im"@) && e.subtype is None
}

/// A reply in a thread of a public or private channel, as it was sent.
pub open spec fn is_channel_reply(e: EventView) -> bool {
    &&& e.kind == "message"@
    &&& e.channel_type == Some("channel"@) || e.channel_type == Some("group"@)
    &&& e.subtype is None
    &&& e.thread_ts is Some
}

/// The message an event delivers: a mention, a direct message, or a channel
/// thread reply (which is only a candidate). Bot authorship is carried along,
/// not dropped.
pub open spec fn delivered(e: EventView) -> Option<InboundView> {
    if !is_mention(e) && !is_dm_message(e) && !is_channel_reply(e) {
        None
    } else {
        match (e.channel, e.ts) {
            (Some(channel), Some(ts)) => Some(
                InboundView {
                    channel,
                    ts,
                    thread: match e.thread_ts {
                        Some(thread) => thread,
                        None => ts,
                    },
                    user: or_empty(e.user),
                    text: or_empty(e.text),
                    is_bot: e.bot_id is Some,
                    is_dm: e.channel_type == Some("im"@),
                    continuation: is_channel_reply(e),
                },
            ),
            _ => None,
        }
    }
}

/// The reaction an event delivers: one that was added to a message.
pub open spec fn reacted(e: EventView) -> Option<ReactionView> {
    if e.kind != "reaction_added"@ {
        None
    } else {
        match (e.item, e.reaction) {
            (Some(item), Some(reaction)) => match (item.channel, item.ts) {
                (Some(channel), Some(ts)) => if item.kind == Some("message"@) {
                    Some(ReactionView { channel, ts, user: or_empty(e.user), reaction })
                } else {
                    None
                },
                _ => None,
            },
            _ => None,
        }
    }
}

/// What a frame asks for. An unreadable one asks for nothing.
pub open spec fn decided(envelope: Option<EnvelopeView>) -> DecisionView {
    match envelope {
        None => nothing(),
        Some(e) => if e.kind == "disconnect"@ {
            DecisionView { reconnect: true, ..nothing() }
        } else if e.kind == "events_api"@ {
            DecisionView {
                ack: e.envelope_id,
                inbound: match e.event {
                    Some(event) => delivered(event),
                    None => None,
                },
                reaction: match e.event {
                    Some(event) => reacted(event),
                    None => None,
                },
                reconnect: false,
            }
        } else if e.kind == "hello"@ {
            nothing()
        } else {
            DecisionView { ack: e.envelope_id, ..nothing() }
        },
    }
}

/// Whether the optional text is this one.
fn is_text(value: &Option<String>, s: &str) -> (r: bool)
    ensures
        r == (text::opt_text(*value) == Some(s@)),
{
    match value {
        Some(v) => text::same(v.as_str(), s),
        None => false,
    }
}

fn text_or_empty(value: Option<String>) -> (r: String)
    ensures
        r@ == or_empty(text::opt_text(value)),
{
    match value {
        Some(v) => v,
        None => String::new(),
    }
}

/// Turn an event into a message to consider: a mention, a direct message, or a
/// channel thread reply. Everything else is `None`.
pub fn inbound_from_event(event: Event) -> (r: Option<Inbound>)
    ensures
        match r {
            Some(m) => delivered(event@) == Some(m@),
            None => delivered(event@) is None,
        },
{
    let is_dm = is_text(&event.channel_type, "im");
    let mention = text::same(event.kind.as_str(), "app_mention");
    let message = text::same(event.kind.as_str(), "message");
    let dm_message = message && is_dm && event.subtype.is_none();
    let channel_reply = message && (is_text(&event.channel_type, "channel") || is_text(
        &event.channel_type,
        "group",
    )) && event.subtype.is_none() && event.thread_ts.is_some();
    if !mention && !dm_message && !channel_reply {
        return None;
    }
    let is_bot = event.bot_id.is_some();
    let channel = match event.channel {
        Some(channel) => channel,
        None => {
            return None;
        },
    };
    let ts = match event.ts {
        Some(ts) => ts,
        None => {
            return None;
        },
    };
    let thread = match event.thread_ts {
        Some(thread) => thread,
        None => ts.clone(),
    };
    Some(
        Inbound {
            channel,
            ts,
            thread,
            user: text_or_empty(event.user),
            text: text_or_empty(event.text),
            is_bot,
            is_dm,
            continuation: channel_reply,
        },
    )
}

/// Turn an event into a reaction to report: one that was added to a message.
/// Reactions to anything else are `None`.
pub fn reaction_from_event(event: &Event) -> (r: Option<ReactionEvent>)
    ensures
        match r {
            Some(x) => reacted(event@) == Some(x@),
            None => reacted(event@) is None,
        },
{
    if !text::same(event.kind.as_str(), "reaction_added") {
        return None;
    }
    match (&event.item, &event.reaction) {
        (Some(item), Some(reaction)) => match (&item.channel, &item.ts) {
            (Some(channel), Some(ts)) => {
                if !is_text(&item.kind, "message") {
                    return None;
                }
                Some(
                    ReactionEvent {
                        channel: channel.clone(),
                        ts: ts.clone(),
                        user: text_or_empty(text::copy_text(&event.user)),
                        reaction: reaction.clone(),
                    },
                )
            },
            _ => None,
        },
        _ => None,
    }
}

/// Decide what one frame off the Socket Mode connection asks for; `None` is a
/// frame that could not be decoded. Unknown envelope kinds are acked (so that
/// Slack stops redelivering) but otherwise ignored.
pub fn handle_frame(envelope: Option<Envelope>) -> (r: Decision)
    ensures
        r@ == decided(
            match envelope {
                Some(e) => Some(e@),
                None => None,
            },
        ),
{
    let mut decision = Decision::default();
    match envelope {
        None => {},
        Some(envelope) => {
            let kind = envelope.kind.as_str();
            if text::same(kind, "disconnect") {
                decision.reconnect = true;
            } else if text::same(kind, "events_api") {
                decision.ack = envelope.envelope_id;
                if let Some(event) = envelope.event {
                    decision.reaction = reaction_from_event(&event);
                    decision.inbound = inbound_from_event(event);
                }
            } else if !text::same(kind, "hello") {
                decision.ack = envelope.envelope_id;
            }
        },
    }
    decision
}

/// Every envelope is acknowledged by its id, except the two that carry none: a
/// `hello` and a `disconnect`. Only the latter asks to reconnect.
pub proof fn law_envelopes_are_acknowledged(e: EnvelopeView)
    ensures
        decided(Some(e)).ack == if e.kind == "hello"@ || e.kind == "disconnect"@ {
            None
        } else {
            e.envelope_id
        },
        decided(Some(e)).reconnect <==> e.kind == "disconnect"@,
{
    reveal_strlit("disconnect");
    reveal_strlit("events_api");
    reveal_strlit("hello");
    assert("hello"@.len() != "events_api"@.len());
    if "disconnect"@ == "events_api"@ {
        assert("disconnect"@[0] == "events_api"@[0]);
    }
}

/// Only the Events API delivers anything, and one envelope delivers a message or
/// a reaction, never both.
pub proof fn law_an_envelope_delivers_one_thing(e: EnvelopeView)
    ensures
        e.kind != "events_api"@ ==> decided(Some(e)).inbound is None && decided(
            Some(e),
        ).reaction is None,
        decided(Some(e)).inbound is None || decided(Some(e)).reaction is None,
{
    reveal_strlit("reaction_added");
    reveal_strlit("app_mention");
    reveal_strlit("message");
    assert("reaction_added"@.len() != "app_mention"@.len());
    assert("reaction_added"@.len() != "message"@.len());
}

/// Edits, deletions and other subtyped messages are never delivered, and
/// neither is a channel message outside a thread that is no mention.
pub proof fn law_only_plain_messages_are_delivered(e: EventView)
    requires
        e.kind == "message"@,
        e.subtype is Some || (e.channel_type != Some("im"@) && e.thread_ts is None),
    ensures
        delivered(e) is None,
{
    reveal_strlit("app_mention");
    reveal_strlit("message");
    assert("app_mention"@.len() != "message"@.len());
}

/// A delivered message replies in its own thread, or starts one at itself; a
/// thread continuation is never a direct message; and whether a bot wrote it is
/// carried along.
pub proof fn law_delivered_messages_are_placed(e: EventView)
    ensures
        delivered(e) matches Some(m) ==> {
            &&& e.thread_ts == Some(m.thread) || (e.thread_ts is None && m.thread == m.ts)
            &&& m.continuation ==> !m.is_dm && e.thread_ts is Some
            &&& m.is_bot <==> e.bot_id is Some
        },
{
    reveal_strlit("im");
    reveal_strlit("channel");
    reveal_strlit("group");
    assert("im"@.len() != "channel"@.len());
    assert("im"@.len() != "group"@.len());
}

/// Which events are delivered: a mention; a message in a direct channel that
/// has no subtype; a message in a public or private channel that has no subtype
/// and stands in a thread. Each of them, and nothing else, as long as it says
/// its channel and its time.
pub proof fn law_what_is_delivered(e: EventView)
    ensures
        delivered(e) is Some <==> {
            &&& e.channel is Some
            &&& e.ts is Some
            &&& {
                ||| e.kind == "app_mention"@
                ||| e.kind == "message"@ && e.subtype is None && e.channel_type == Some("im"@)
                ||| e.kind == "message"@ && e.subtype is None && e.thread_ts is Some && (
                e.channel_type == Some("channel"@) || e.channel_type == Some("group"@))
            }
        },
{
}

/// A delivered message carries what the event says, whichever of the three it
/// is: its channel, time, author and text are the event's own, the author and
/// the text empty only where the event has none. It is direct exactly in a
/// direct channel, and a continuation exactly when it is a channel's thread
/// reply that is no mention.
pub proof fn law_a_delivered_message_says_what_the_event_says(e: EventView)
    ensures
        delivered(e) matches Some(m) ==> {
            &&& e.channel == Some(m.channel)
            &&& e.ts == Some(m.ts)
            &&& e.user is Some ==> e.user == Some(m.user)
            &&& e.user is None ==> m.user.len() == 0
            &&& e.text is Some ==> e.text == Some(m.text)
            &&& e.text is None ==> m.text.len() == 0
            &&& e.thread_ts is Some ==> e.thread_ts == Some(m.thread)
            &&& e.thread_ts is None ==> m.thread == m.ts
            &&& m.is_bot <==> e.bot_id is Some
            &&& m.is_dm <==> e.channel_type == Some("im"@)
            &&& m.continuation <==> e.kind == "message"@ && !m.is_dm
        },
{
    reveal_strlit("app_mention");
    reveal_strlit("message");
    reveal_strlit("im");
    reveal_strlit("channel");
    reveal_strlit("group");
    assert("app_mention"@.len() != "message"@.len());
    assert("im"@.len() != "channel"@.len());
    assert("im"@.len() != "group"@.len());
}

/// A reaction is reported exactly when it was added to a message and says which
/// emoji, channel and time; it is reported as the event says it, its author
/// empty only where the event has none.
pub proof fn law_a_reported_reaction_says_what_the_event_says(e: EventView)
    ensures
        reacted(e) is Some <==> {
            &&& e.kind == "reaction_added"@
            &&& e.reaction is Some
            &&& e.item matches Some(item) && item.kind == Some("message"@) && item.channel is Some
                && item.ts is Some
        },
        reacted(e) matches Some(r) ==> {
            &&& e.reaction == Some(r.reaction)
            &&& e.item matches Some(item) && item.channel == Some(r.channel) && item.ts == Some(
                r.ts,
            )
            &&& e.user is Some ==> e.user == Some(r.user)
            &&& e.user is None ==> r.user.len() == 0
        },
{
}

/// An Events API envelope hands on what its event is, and nothing when it
/// carries none. A frame that could not be read asks for nothing at all.
pub proof fn law_an_envelope_hands_on_its_event(e: EnvelopeView, event: EventView)
    requires
        e.kind == "events_api"@,
        e.event == Some(event),
    ensures
        decided(Some(e)).inbound == delivered(event),
        decided(Some(e)).reaction == reacted(event),
        ({
            let bare = decided(Some(EnvelopeView { event: None, ..e }));
            bare.inbound is None && bare.reaction is None && bare.ack == e.envelope_id
        }),
        ({
            let unread = decided(None);
            &&& unread.ack is None
            &&& unread.inbound is None
            &&& unread.reaction is None
            &&& !unread.reconnect
        }),
{
    reveal_strlit("disconnect");
    reveal_strlit("events_api");
    if "disconnect"@ == "events_api"@ {
        assert("disconnect"@[0] == "events_api"@[0]);
    }
}

} // verus!
