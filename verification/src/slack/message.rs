//! A message as it is sent: the text that every client can show, and the
//! blocks that render it richly, when it can have them.
use vstd::prelude::*;

use crate::slack::blocks;
use crate::slack::blocks::{Block, BlockView};
use crate::slack::markdown;
use crate::slack::markdown::{Event, EventView};
use crate::slack::render;
use crate::text;

verus! {

/// The most blocks of a message that Slack accepts.
pub const MAX_BLOCKS: usize = 50;

/// Whether the text holds a Slack control sequence (`<@user>`, `<#channel>`,
/// `<!here>`), which Slack only expands in a message's plain text.
pub open spec fn has_controls(s: Seq<char>) -> bool {
    text::occurs(s, "<@"@) || text::occurs(s, "<#"@) || text::occurs(s, "<!"@)
}

/// Whether `s` contains a Slack control sequence.
pub fn has_slack_controls(s: &str) -> (r: bool)
    ensures
        r == has_controls(s@),
{
    text::contains(s, "<@") || text::contains(s, "<#") || text::contains(s, "<!")
}

/// The blocks to send: none when there are none, or more than Slack takes.
pub open spec fn sendable(v: Seq<BlockView>) -> Option<Seq<BlockView>> {
    if v.len() == 0 || v.len() > MAX_BLOCKS {
        None
    } else {
        Some(v)
    }
}

/// The blocks a message is sent with, given its document's events: none for one
/// with control sequences, nor for one whose lists nest deeper than an indent
/// can say.
pub open spec fn message_blocks(markdown: Seq<char>, ev: Seq<EventView>) -> Option<
    Seq<BlockView>,
> {
    if has_controls(markdown) {
        None
    } else {
        match render::rendered(ev) {
            Some(v) => sendable(v),
            None => None,
        }
    }
}

/// The optional blocks of a message.
pub open spec fn opt_blocks(v: Option<Vec<Block>>) -> Option<Seq<BlockView>> {
    match v {
        Some(v) => Some(blocks::blocks_view(v@)),
        None => None,
    }
}

/// The blocks to send: none when there are none, or more than Slack takes.
fn within_cap(v: Vec<Block>) -> (r: Option<Vec<Block>>)
    ensures
        opt_blocks(r) == sendable(blocks::blocks_view(v@)),
{
    if v.len() == 0 || v.len() > MAX_BLOCKS {
        None
    } else {
        Some(v)
    }
}

/// The message for a document whose events are at hand: the text fallback and
/// the blocks.
pub fn message_of_events(markdown: &str, events: &Vec<Event>) -> (r: (String, Option<Vec<Block>>))
    ensures
        r.0@ == text::trimmed(markdown@),
        opt_blocks(r.1) == message_blocks(markdown@, markdown::events_view(events@)),
{
    let fallback = render::fallback_text(markdown);
    if has_slack_controls(markdown) {
        return (fallback, None);
    }
    match render::blocks_of(events) {
        Some(blocks) => (fallback, within_cap(blocks)),
        None => (fallback, None),
    }
}

/// Render Markdown into the text and the blocks to send. There are no blocks,
/// so that plain text is sent, when the render is empty or over the block cap,
/// when the message carries Slack control sequences, or when its lists nest
/// deeper than an indent can say.
pub fn render_message(markdown: &str) -> (r: (String, Option<Vec<Block>>))
    ensures
        r.0@ == text::trimmed(markdown@),
        opt_blocks(r.1) == message_blocks(markdown@, markdown::document(markdown@)),
{
    let events = markdown::read_document(markdown);
    message_of_events(markdown, &events)
}

/// A message never has more blocks than Slack takes, nor an empty list of them,
/// and one with control sequences has none, so that they resolve.
pub proof fn law_blocks_stay_within_the_cap(markdown: Seq<char>, ev: Seq<EventView>)
    ensures
        message_blocks(markdown, ev) matches Some(v) ==> {
            &&& 0 < v.len() <= MAX_BLOCKS
            &&& !has_controls(markdown)
            &&& render::rendered(ev) == Some(v)
        },
        has_controls(markdown) ==> message_blocks(markdown, ev) is None,
{
}

/// A text has a control sequence exactly where a `<` stands before an `@`, a
/// `#` or a `!`.
pub proof fn law_what_a_control_sequence_is(s: Seq<char>)
    ensures
        has_controls(s) <==> exists|k: int|
            0 <= k && k + 1 < s.len() && #[trigger] s[k] == '<' && (s[k + 1] == '@' || s[k + 1]
                == '#' || s[k + 1] == '!'),
{
    reveal_strlit("<@");
    reveal_strlit("<#");
    reveal_strlit("<!");
    if has_controls(s) {
        let p = if text::occurs(s, "<@"@) {
            "<@"@
        } else if text::occurs(s, "<#"@) {
            "<#"@
        } else {
            "<!"@
        };
        let at = choose|at: int| text::stands_at(s, p, at);
        let part = s.subrange(at, at + 2);
        assert(part[0] == s[at] && part[1] == s[at + 1]);
        assert(s[at] == '<');
    }
    if exists|k: int|
        0 <= k && k + 1 < s.len() && #[trigger] s[k] == '<' && (s[k + 1] == '@' || s[k + 1] == '#'
            || s[k + 1] == '!') {
        let k = choose|k: int|
            0 <= k && k + 1 < s.len() && #[trigger] s[k] == '<' && (s[k + 1] == '@' || s[k + 1]
                == '#' || s[k + 1] == '!');
        let part = s.subrange(k, k + 2);
        if s[k + 1] == '@' {
            assert(part =~= "<@"@);
            assert(text::stands_at(s, "<@"@, k));
        } else if s[k + 1] == '#' {
            assert(part =~= "<#"@);
            assert(text::stands_at(s, "<#"@, k));
        } else {
            assert(part =~= "<!"@);
            assert(text::stands_at(s, "<!"@, k));
        }
    }
}

/// A message without control sequences is sent with all the blocks that its
/// document renders to, as long as there is one and Slack takes them all;
/// otherwise it is sent with none.
pub proof fn law_when_blocks_are_sent(markdown: Seq<char>, ev: Seq<EventView>)
    ensures
        !has_controls(markdown) ==> (render::rendered(ev) matches Some(v) ==> if 1 <= v.len() <= 50 {
            message_blocks(markdown, ev) == Some(v)
        } else {
            message_blocks(markdown, ev) is None
        }),
        render::rendered(ev) is None ==> message_blocks(markdown, ev) is None,
{
}

} // verus!
