//! The neutral events a chat backend hands the engine. A backend maps its own
//! protocol onto these shapes; ids (`channel`, `ts`, `thread`, `user`) are
//! opaque strings that the backend defines.
use vstd::prelude::*;

verus! {

/// A message to consider answering: the channel, the message id (`ts`), the
/// thread to reply in (the message's own thread, or its `ts` when it starts
/// one), the author and the raw text (a mention still carries the leading
/// `<@bot>`). The access policy and the engine decide whether to answer.
#[derive(Debug, PartialEq, Eq)]
pub struct Inbound {
    pub channel: String,
    pub ts: String,
    pub thread: String,
    pub user: String,
    pub text: String,
    /// Whether a bot wrote it.
    pub is_bot: bool,
    /// Whether it is a direct message.
    pub is_dm: bool,
    /// A channel thread reply that is no mention: only handled when the bot is
    /// already in the thread. Mentions and direct messages are not
    /// continuations.
    pub continuation: bool,
}

/// The mathematical form of an [`Inbound`].
pub struct InboundView {
    pub channel: Seq<char>,
    pub ts: Seq<char>,
    pub thread: Seq<char>,
    pub user: Seq<char>,
    pub text: Seq<char>,
    pub is_bot: bool,
    pub is_dm: bool,
    pub continuation: bool,
}

impl View for Inbound {
    type V = InboundView;

    open spec fn view(&self) -> InboundView {
        InboundView {
            channel: self.channel@,
            ts: self.ts@,
            thread: self.thread@,
            user: self.user@,
            text: self.text@,
            is_bot: self.is_bot,
            is_dm: self.is_dm,
            continuation: self.continuation,
        }
    }
}

impl Clone for Inbound {
    fn clone(&self) -> (r: Inbound)
        ensures
            r == *self,
    {
        Inbound {
            channel: self.channel.clone(),
            ts: self.ts.clone(),
            thread: self.thread.clone(),
            user: self.user.clone(),
            text: self.text.clone(),
            is_bot: self.is_bot,
            is_dm: self.is_dm,
            continuation: self.continuation,
        }
    }
}

/// An emoji reaction that was added to a message: a signal to an observer, not
/// a turn.
#[derive(Debug, PartialEq, Eq)]
pub struct ReactionEvent {
    /// The channel of the message.
    pub channel: String,
    /// The id of the message.
    pub ts: String,
    /// Who reacted.
    pub user: String,
    /// The emoji's short name.
    pub reaction: String,
}

/// The mathematical form of a [`ReactionEvent`].
pub struct ReactionView {
    pub channel: Seq<char>,
    pub ts: Seq<char>,
    pub user: Seq<char>,
    pub reaction: Seq<char>,
}

impl View for ReactionEvent {
    type V = ReactionView;

    open spec fn view(&self) -> ReactionView {
        ReactionView {
            channel: self.channel@,
            ts: self.ts@,
            user: self.user@,
            reaction: self.reaction@,
        }
    }
}

impl Clone for ReactionEvent {
    fn clone(&self) -> (r: ReactionEvent)
        ensures
            r == *self,
    {
        ReactionEvent {
            channel: self.channel.clone(),
            ts: self.ts.clone(),
            user: self.user.clone(),
            reaction: self.reaction.clone(),
        }
    }
}

} // verus!
