//! A streaming reply in a single Slack message: posted on the first chunk with
//! a trailing cursor, edited as more arrives (throttled), and finalized without
//! the cursor.
use vstd::prelude::*;

use crate::json;
use crate::json::JsonView;
use crate::slack::blocks;
use crate::slack::blocks::BlockView;
use crate::slack::client;
use crate::slack::client::{Client, Request, RequestView};
use crate::slack::markdown;
use crate::slack::markdown::EventView;
use crate::slack::message;
use crate::text;

verus! {

/// The least time between streaming edits, in milliseconds: it keeps under the
/// rate limit on edits while staying responsive.
pub const STREAM_THROTTLE_MS: u64 = 1000;

/// Appended to the reply while it is still streaming.
pub const CURSOR: &'static str = " ▌";

/// A reply: where it goes, and the message it streams into, once there is one.
#[derive(Debug)]
pub struct SlackReply {
    pub channel: String,
    pub thread: String,
    pub message_ts: Option<String>,
}

/// What an update of a reply asks for.
#[derive(Debug, PartialEq, Eq)]
pub enum ReplyStep {
    /// Post this Markdown as a new message.
    Post(String),
    /// Edit the message to this Markdown.
    Edit { ts: String, markdown: String },
    /// Leave the message as it is: the last edit is too recent.
    Skip,
}

/// The mathematical form of a [`ReplyStep`].
pub enum StepView {
    Post(Seq<char>),
    Edit { ts: Seq<char>, markdown: Seq<char> },
    Skip,
}

impl View for ReplyStep {
    type V = StepView;

    open spec fn view(&self) -> StepView {
        match self {
            ReplyStep::Post(markdown) => StepView::Post(markdown@),
            ReplyStep::Edit { ts, markdown } => StepView::Edit { ts: ts@, markdown: markdown@ },
            ReplyStep::Skip => StepView::Skip,
        }
    }
}

/// What an update to `text` asks for, `elapsed` milliseconds after the last
/// edit. The final one is always sent, without the cursor; an earlier one
/// carries the cursor and is dropped while the last edit is too recent.
pub open spec fn step_for(
    message_ts: Option<Seq<char>>,
    text: Seq<char>,
    done: bool,
    elapsed: u64,
) -> StepView {
    let markdown = if done {
        text
    } else {
        text + CURSOR@
    };
    match message_ts {
        None => StepView::Post(markdown),
        Some(ts) => if done || elapsed >= STREAM_THROTTLE_MS {
            StepView::Edit { ts, markdown }
        } else {
            StepView::Skip
        },
    }
}

/// The request that a step makes, given the message its Markdown renders to.
pub open spec fn request_for(
    reply: SlackReply,
    client: Client,
    step: StepView,
    blocks: Option<Seq<BlockView>>,
) -> Option<RequestView> {
    match step {
        StepView::Post(markdown) => Some(
            client::call(
                "chat.postMessage"@,
                client.bot_token@,
                client::body_with_blocks(
                    JsonView::Object(
                        client::message_body(
                            reply.channel@,
                            "thread_ts"@,
                            reply.thread@,
                            text::trimmed(markdown),
                        ),
                    ),
                    blocks,
                ),
                client::ExpectView::Field("ts"@),
            ),
        ),
        StepView::Edit { ts, markdown } => Some(
            client::call(
                "chat.update"@,
                client.bot_token@,
                client::body_with_blocks(
                    JsonView::Object(
                        client::message_body(reply.channel@, "ts"@, ts, text::trimmed(markdown)),
                    ),
                    blocks,
                ),
                client::ExpectView::Success,
            ),
        ),
        StepView::Skip => None,
    }
}

/// The Markdown that a step sends.
pub open spec fn sent(step: StepView) -> Seq<char> {
    match step {
        StepView::Post(markdown) => markdown,
        StepView::Edit { markdown, .. } => markdown,
        StepView::Skip => seq![],
    }
}

/// The message that a reply streams into after a step was sent, given the id
/// that a post returned.
pub open spec fn message_then(
    message_ts: Option<Seq<char>>,
    step: StepView,
    done: bool,
    ts: Option<Seq<char>>,
) -> Option<Seq<char>> {
    if !done && step is Post && ts is Some {
        ts
    } else {
        message_ts
    }
}

/// Whether the time since the last edit counts anew once a step was sent: after
/// every streaming post and edit.
pub open spec fn restarts(step: StepView, done: bool) -> bool {
    !done && step !is Skip
}

impl SlackReply {
    /// A reply that has no message yet.
    pub fn new(channel: String, thread: String) -> (r: SlackReply)
        ensures
            r.channel == channel,
            r.thread == thread,
            r.message_ts is None,
    {
        SlackReply { channel, thread, message_ts: None }
    }

    /// What showing `text` asks for, `elapsed` milliseconds after the last edit.
    pub fn update(&self, text: &str, done: bool, elapsed: u64) -> (r: ReplyStep)
        ensures
            r@ == step_for(text::opt_text(self.message_ts), text@, done, elapsed),
    {
        let mut markdown: String = text.to_owned();
        if !done {
            markdown.append(CURSOR);
        }
        match &self.message_ts {
            None => ReplyStep::Post(markdown),
            Some(ts) => {
                if done || elapsed >= STREAM_THROTTLE_MS {
                    ReplyStep::Edit { ts: ts.clone(), markdown }
                } else {
                    ReplyStep::Skip
                }
            },
        }
    }

    /// The request that a step makes, if any.
    pub fn request(&self, client: &Client, step: &ReplyStep) -> (r: Option<Request>)
        ensures
            ({
                let blocks = message::message_blocks(
                    sent(step@),
                    markdown::document(sent(step@)),
                );
                match r {
                    Some(request) => request_for(*self, *client, step@, blocks) == Some(request@),
                    None => request_for(*self, *client, step@, blocks) is None,
                }
            }),
    {
        match step {
            ReplyStep::Post(markdown) => {
                let (text, blocks) = message::render_message(markdown.as_str());
                Some(
                    client.post_message(
                        self.channel.as_str(),
                        self.thread.as_str(),
                        text.as_str(),
                        &blocks,
                    ),
                )
            },
            ReplyStep::Edit { ts, markdown } => {
                let (text, blocks) = message::render_message(markdown.as_str());
                Some(
                    client.update_message(
                        self.channel.as_str(),
                        ts.as_str(),
                        text.as_str(),
                        &blocks,
                    ),
                )
            },
            ReplyStep::Skip => None,
        }
    }

    /// Record that a step was sent, and what message a post made: later chunks
    /// edit the one that streaming posted. Tells whether the time since the last
    /// edit counts from now on.
    pub fn shown(&mut self, step: &ReplyStep, done: bool, ts: Option<String>) -> (restart: bool)
        ensures
            text::opt_text(final(self).message_ts) == message_then(
                text::opt_text(old(self).message_ts),
                step@,
                done,
                text::opt_text(ts),
            ),
            final(self).channel == old(self).channel,
            final(self).thread == old(self).thread,
            restart == restarts(step@, done),
    {
        if done {
            return false;
        }
        match step {
            ReplyStep::Post(_) => {
                if ts.is_some() {
                    self.message_ts = ts;
                }
                true
            },
            ReplyStep::Edit { .. } => true,
            ReplyStep::Skip => false,
        }
    }
}

/// Formatting never fails a reply: whatever the document's events are, lists too
/// deep for blocks among them, a step that is not skipped is sent, with its text.
pub proof fn law_formatting_never_fails_a_reply(
    reply: SlackReply,
    client: Client,
    step: StepView,
    ev: Seq<EventView>,
)
    requires
        step !is Skip,
    ensures
        request_for(
            reply,
            client,
            step,
            message::message_blocks(sent(step), ev),
        ) matches Some(request) && request.body matches JsonView::Object(m) && m.contains(
            ("text"@, JsonView::Text(text::trimmed(sent(step)))),
        ),
{
    reveal_strlit("thread_ts");
    reveal_strlit("ts");
    reveal_strlit("text");
    reveal_strlit("blocks");
    assert("thread_ts"@.len() == 9 && "ts"@.len() == 2 && "text"@.len() == 4 && "blocks"@.len()
        == 6);
    let blocks = message::message_blocks(sent(step), ev);
    let text = text::trimmed(sent(step));
    match step {
        StepView::Post(_) => {
            client::law_the_text_is_always_sent(
                reply.channel@,
                "thread_ts"@,
                reply.thread@,
                text,
                blocks,
            );
        },
        StepView::Edit { ts, .. } => {
            client::law_the_text_is_always_sent(reply.channel@, "ts"@, ts, text, blocks);
        },
        StepView::Skip => {},
    }
}

/// A reply stays one message: once it is posted, no update posts another.
pub proof fn law_a_reply_is_one_message(
    ts: Seq<char>,
    text: Seq<char>,
    done: bool,
    elapsed: u64,
)
    ensures
        !(step_for(Some(ts), text, done, elapsed) is Post),
        step_for(Some(ts), text, done, elapsed) matches StepView::Edit { ts: at, .. } ==> at == ts,
{
}

/// The final update is always sent, whatever the throttle, and as it is: it
/// carries no cursor.
pub proof fn law_the_final_text_is_sent_as_it_is(
    message_ts: Option<Seq<char>>,
    text: Seq<char>,
    elapsed: u64,
)
    ensures
        !(step_for(message_ts, text, true, elapsed) is Skip),
        sent(step_for(message_ts, text, true, elapsed)) == text,
{
}

/// While it streams, a message that exists is edited at most once per throttle
/// interval, and everything that is sent ends in the cursor.
pub proof fn law_streaming_edits_are_throttled(
    message_ts: Option<Seq<char>>,
    text: Seq<char>,
    elapsed: u64,
)
    ensures
        message_ts is Some && elapsed < STREAM_THROTTLE_MS ==> step_for(
            message_ts,
            text,
            false,
            elapsed,
        ) is Skip,
        !(step_for(message_ts, text, false, elapsed) is Skip) ==> text::ends(
            sent(step_for(message_ts, text, false, elapsed)),
            CURSOR@,
        ),
{
    let all = text + CURSOR@;
    assert(all.subrange(text.len() as int, all.len() as int) =~= CURSOR@);
}

/// One streaming update: the text so far, when it came, the time since the last
/// edit as it was measured then (in whole milliseconds), when it had been sent,
/// and the id that a message posted for it gets. The two moments are in
/// nanoseconds of one clock; the second matters only when something was sent.
pub struct Chunk {
    pub text: Seq<char>,
    pub at: int,
    pub elapsed: u64,
    pub sent: int,
    pub ts: Seq<char>,
}

/// What a streaming update asks for, given the message so far.
pub open spec fn chunk_step(message_ts: Option<Seq<char>>, chunk: Chunk) -> StepView {
    step_for(message_ts, chunk.text, false, chunk.elapsed)
}

/// The message of a reply after these streaming updates.
pub open spec fn message_after(chunks: Seq<Chunk>) -> Option<Seq<char>>
    decreases chunks.len(),
{
    if chunks.len() == 0 {
        None
    } else {
        let before = message_after(chunks.drop_last());
        let last = chunks.last();
        message_then(before, chunk_step(before, last), false, Some(last.ts))
    }
}

/// How many messages the updates posted.
pub open spec fn posts(chunks: Seq<Chunk>) -> nat
    decreases chunks.len(),
{
    if chunks.len() == 0 {
        0
    } else {
        let step = chunk_step(message_after(chunks.drop_last()), chunks.last());
        posts(chunks.drop_last()) + if step is Post {
            1nat
        } else {
            0nat
        }
    }
}

/// However many chunks a reply streams in, it is one message: the first chunk
/// posts it, no later one posts another, and the final text replaces it.
pub proof fn law_a_streamed_reply_posts_once(chunks: Seq<Chunk>, text: Seq<char>, elapsed: u64)
    requires
        chunks.len() > 0,
    ensures
        posts(chunks) == 1,
        message_after(chunks) == Some(chunks[0].ts),
        step_for(message_after(chunks), text, true, elapsed) == (StepView::Edit {
            ts: chunks[0].ts,
            markdown: text,
        }),
    decreases chunks.len(),
{
    if chunks.len() > 1 {
        law_a_streamed_reply_posts_once(chunks.drop_last(), text, elapsed);
    } else {
        reveal_with_fuel(posts, 2);
        reveal_with_fuel(message_after, 2);
        assert(chunks.drop_last() =~= seq![]);
    }
}

/// Whether the update at `k` is sent, as a post or an edit.
pub open spec fn is_sent(chunks: Seq<Chunk>, k: int) -> bool {
    !(chunk_step(message_after(chunks.take(k)), chunks[k]) is Skip)
}

/// The moment that the time since the last edit counts from, after these
/// streaming updates: when the last one that was sent had been sent.
pub open spec fn counted_from(chunks: Seq<Chunk>) -> Option<int>
    decreases chunks.len(),
{
    if chunks.len() == 0 {
        None
    } else {
        let step = chunk_step(message_after(chunks.drop_last()), chunks.last());
        if restarts(step, false) {
            Some(chunks.last().sent)
        } else {
            counted_from(chunks.drop_last())
        }
    }
}

/// The nanoseconds of a millisecond.
pub const NANOS_PER_MS: u64 = 1_000_000;

/// Every update measured the time since the last edit from the moment it counts
/// from, and had been sent no sooner than it came.
pub open spec fn measured(chunks: Seq<Chunk>) -> bool {
    forall|k: int| 0 <= k < chunks.len() ==> measured_at(chunks, k)
}

/// The update at `k` was measured so.
pub open spec fn measured_at(chunks: Seq<Chunk>, k: int) -> bool {
    &&& chunks[k].at <= chunks[k].sent
    &&& counted_from(chunks.take(k)) matches Some(from) ==> chunks[k].elapsed * NANOS_PER_MS
        <= chunks[k].at - from
}

/// Once an update was sent there is a message, and the time counts from then or
/// later.
proof fn lemma_counted_from(chunks: Seq<Chunk>, i: int)
    requires
        measured(chunks),
        0 <= i < chunks.len(),
        is_sent(chunks, i),
    ensures
        message_after(chunks) is Some,
        counted_from(chunks) matches Some(from) && chunks[i].sent <= from,
    decreases chunks.len(),
{
    let rest = chunks.drop_last();
    let k = chunks.len() - 1;
    assert(rest =~= chunks.take(k));
    if i < k {
        assert forall|j: int| 0 <= j < rest.len() implies measured_at(rest, j) by {
            assert(measured_at(chunks, j));
            assert(rest.take(j) =~= chunks.take(j));
        }
        assert(rest.take(i) =~= chunks.take(i));
        lemma_counted_from(rest, i);
        assert(measured_at(chunks, k));
    }
}

/// However many chunks a reply streams in, what is sent for them is spread out:
/// an update is sent no sooner than the throttle interval after an earlier one
/// had been, given that each measured the time since the last edit.
pub proof fn law_streamed_updates_are_spread_out(chunks: Seq<Chunk>, i: int, j: int)
    requires
        measured(chunks),
        0 <= i < j < chunks.len(),
        is_sent(chunks, i),
        is_sent(chunks, j),
    ensures
        chunks[j].at - chunks[i].sent >= STREAM_THROTTLE_MS * NANOS_PER_MS,
{
    let before = chunks.take(j);
    assert forall|k: int| 0 <= k < before.len() implies measured_at(before, k) by {
        assert(measured_at(chunks, k));
        assert(before.take(k) =~= chunks.take(k));
    }
    assert(before.take(i) =~= chunks.take(i));
    lemma_counted_from(before, i);
    assert(measured_at(chunks, j));
}

/// Every request of a reply goes where the reply does. Whatever the step, its
/// channel is the reply's own, its text what the step shows, trimmed, and its
/// blocks the ones it was given; it is made as the bot. A post goes under the
/// reply's thread and asks for the new message's id; an edit names the message
/// that it edits.
pub proof fn law_a_request_goes_where_its_reply_does(
    reply: SlackReply,
    client: Client,
    step: StepView,
    blocks: Option<Seq<BlockView>>,
)
    ensures
        step is Skip <==> request_for(reply, client, step, blocks) is None,
        request_for(reply, client, step, blocks) matches Some(request) ==> {
            &&& request.token == client.bot_token@
            &&& request.url == "https://slack.com/api/"@ + request.method
            &&& json::member(request.body, "channel"@) == Some(JsonView::Text(reply.channel@))
            &&& json::member(request.body, "text"@) == Some(
                JsonView::Text(text::trimmed(sent(step))),
            )
            &&& match blocks {
                Some(v) => v.len() > 0 ==> (json::member(request.body, "blocks"@) matches Some(
                    JsonView::Array(parts),
                ) && parts.len() == v.len() && forall|k: int|
                    0 <= k < v.len() ==> #[trigger] parts[k] == blocks::block_json(v[k])),
                None => json::member(request.body, "blocks"@) is None,
            }
            &&& step is Post ==> {
                &&& request.method == "chat.postMessage"@
                &&& json::member(request.body, "thread_ts"@) == Some(
                    JsonView::Text(reply.thread@),
                )
                &&& request.expect == client::ExpectView::Field("ts"@)
            }
            &&& step matches StepView::Edit { ts, .. } ==> {
                &&& request.method == "chat.update"@
                &&& json::member(request.body, "ts"@) == Some(JsonView::Text(ts))
                &&& request.expect == client::ExpectView::Success
            }
        },
{
    let shown = text::trimmed(sent(step));
    match step {
        StepView::Post(_) => {
            client::law_what_a_message_body_says(
                reply.channel@,
                "thread_ts"@,
                reply.thread@,
                shown,
                blocks,
            );
        },
        StepView::Edit { ts, .. } => {
            client::law_what_a_message_body_says(reply.channel@, "ts"@, ts, shown, blocks);
        },
        StepView::Skip => {},
    }
}

/// What an update asks for. Without a message it posts one; with one it edits
/// that one, unless it is neither the final update nor the throttle interval
/// has passed, and then alone it is skipped. What is shown is the whole text so
/// far, with the cursor after it until the final update.
pub proof fn law_what_an_update_shows(
    message_ts: Option<Seq<char>>,
    text: Seq<char>,
    done: bool,
    elapsed: u64,
)
    ensures
        step_for(message_ts, text, done, elapsed) is Post <==> message_ts is None,
        step_for(message_ts, text, done, elapsed) is Skip <==> message_ts is Some && !done
            && elapsed < 1000,
        step_for(message_ts, text, done, elapsed) matches StepView::Edit { ts, .. } ==> message_ts
            == Some(ts),
        step_for(message_ts, text, done, elapsed) !is Skip ==> sent(
            step_for(message_ts, text, done, elapsed),
        ) == if done {
            text
        } else {
            text + " ▌"@
        },
{
}

/// What is remembered of a step that was sent: a streaming post is the message
/// from then on, and nothing else changes it; the time counts anew after what
/// streaming sent, never after the final update or a skipped one.
pub proof fn law_what_a_sent_step_changes(
    message_ts: Option<Seq<char>>,
    step: StepView,
    done: bool,
    ts: Seq<char>,
)
    ensures
        step is Post && !done ==> message_then(message_ts, step, done, Some(ts)) == Some(ts),
        step !is Post || done ==> message_then(message_ts, step, done, Some(ts)) == message_ts,
        message_then(message_ts, step, done, None) == message_ts,
        restarts(step, done) <==> !done && (step is Post || step is Edit),
{
}

} // verus!
