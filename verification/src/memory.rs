//! Conversation memory: the id that keys a conversation's stored history, and
//! the system prompt assembled from the persona and the durable facts.
use vstd::prelude::*;

use crate::event::{Inbound, InboundView};
use crate::text;
use crate::text::CharSet;

verus! {

/// The name of a channel's facts file.
pub fn facts_file(channel: &str) -> (r: String)
    ensures
        r@ == channel@ + ".md"@,
{
    let mut out: String = channel.to_owned();
    out.append(".md");
    out
}

/// The sections of a list that are not blank, trimmed.
pub open spec fn present(parts: Seq<Seq<char>>) -> Seq<Seq<char>>
    decreases parts.len(),
{
    if parts.len() == 0 {
        seq![]
    } else if text::trimmed(parts.last()).len() == 0 {
        present(parts.drop_last())
    } else {
        present(parts.drop_last()).push(text::trimmed(parts.last()))
    }
}

/// The memory section of a prompt: the facts under a heading, or nothing when
/// both are blank.
pub open spec fn memory_section(global: Seq<char>, per_channel: Seq<char>) -> Seq<Seq<char>> {
    let facts = present(seq![global, per_channel]);
    if facts.len() == 0 {
        seq![]
    } else {
        seq![
            "# Memory\n\nDurable facts — treat as context:\n\n"@ + text::joined(facts, "\n\n"@),
        ]
    }
}

/// The sections of a prompt: the persona, unless it is blank, then the memory
/// section.
pub open spec fn prompt_sections(
    persona: Option<Seq<char>>,
    global: Seq<char>,
    per_channel: Seq<char>,
) -> Seq<Seq<char>> {
    let head = match persona {
        Some(persona) => present(seq![persona]),
        None => seq![],
    };
    head + memory_section(global, per_channel)
}

/// The system prompt, or nothing when there is no section to put in it.
pub open spec fn prompt_of(
    persona: Option<Seq<char>>,
    global: Seq<char>,
    per_channel: Seq<char>,
) -> Option<Seq<char>> {
    let sections = prompt_sections(persona, global, per_channel);
    if sections.len() == 0 {
        None
    } else {
        Some(text::joined(sections, "\n\n"@))
    }
}

/// Append a part, trimmed, unless it is blank.
fn push_present(out: &mut Vec<String>, part: &str)
    ensures
        text::texts(final(out)@) == text::texts(old(out)@) + present(seq![part@]),
{
    let ghost had = text::texts(out@);
    let t = text::trim(part);
    proof {
        reveal_with_fuel(present, 2);
        assert(seq![part@].drop_last() =~= seq![]);
    }
    if !t.is_empty() {
        out.push(t.to_owned());
    }
    assert(text::texts(out@) =~= had + present(seq![part@]));
}

/// Assemble the system prompt from the optional persona and the durable facts,
/// which go under a `# Memory` heading. Blank parts are omitted; when nothing is
/// left, `None`, so that the model uses its default prompt.
pub fn assemble_prompt(persona: Option<&str>, global: &str, per_channel: &str) -> (r: Option<
    String,
>)
    ensures
        text::opt_text(r) == prompt_of(text::opt_str(persona), global@, per_channel@),
{
    let mut sections: Vec<String> = Vec::new();
    if let Some(persona) = persona {
        push_present(&mut sections, persona);
    }
    assert(text::texts(sections@) =~= match text::opt_str(persona) {
        Some(persona) => present(seq![persona]),
        None => seq![],
    });
    let ghost head = text::texts(sections@);
    let mut facts: Vec<String> = Vec::new();
    push_present(&mut facts, global);
    push_present(&mut facts, per_channel);
    proof {
        reveal_with_fuel(present, 3);
        let both = seq![global@, per_channel@];
        assert(both.drop_last() =~= seq![global@]);
        assert(seq![global@].drop_last() =~= seq![]);
        assert(seq![per_channel@].drop_last() =~= seq![]);
        assert(text::texts(facts@) =~= present(both));
    }
    if facts.len() > 0 {
        let mut memory: String = "# Memory\n\nDurable facts — treat as context:\n\n".to_owned();
        memory.append(text::join(&facts, "\n\n").as_str());
        sections.push(memory);
    }
    assert(text::texts(sections@) =~= head + memory_section(global@, per_channel@));
    if sections.len() == 0 {
        None
    } else {
        Some(text::join(&sections, "\n\n"))
    }
}

/// The conversation a message belongs to: the whole direct-message channel, or
/// one thread of a channel.
pub open spec fn conversation(m: InboundView) -> Seq<char> {
    if m.is_dm {
        "dm:"@ + m.channel
    } else {
        "ch:"@ + m.channel + ":"@ + m.thread
    }
}

/// The id of the conversation that `inbound` belongs to. Direct messages are
/// one rolling conversation, keyed by their channel; a channel message is keyed
/// per thread.
pub fn conversation_id(inbound: &Inbound) -> (r: String)
    ensures
        r@ == conversation(inbound@),
{
    if inbound.is_dm {
        let mut id: String = "dm:".to_owned();
        id.append(inbound.channel.as_str());
        id
    } else {
        let mut id: String = "ch:".to_owned();
        id.append(inbound.channel.as_str());
        id.append(":");
        id.append(inbound.thread.as_str());
        id
    }
}

/// Direct messages of one channel share a conversation, whatever their thread.
pub proof fn law_direct_messages_share_a_conversation(a: InboundView, b: InboundView)
    requires
        a.is_dm,
        b.is_dm,
    ensures
        conversation(a) == conversation(b) <==> a.channel == b.channel,
{
    let x = conversation(a);
    let y = conversation(b);
    reveal_strlit("dm:");
    if x == y {
        assert(x.subrange(3, x.len() as int) =~= a.channel);
        assert(y.subrange(3, y.len() as int) =~= b.channel);
    }
}

/// A direct message and a channel message are never one conversation.
pub proof fn law_direct_and_channel_messages_stay_apart(a: InboundView, b: InboundView)
    requires
        a.is_dm,
        !b.is_dm,
    ensures
        conversation(a) != conversation(b),
{
    reveal_strlit("dm:");
    reveal_strlit("ch:");
    assert(conversation(a)[0] == 'd');
    assert(conversation(b)[0] == 'c');
}

/// Two channel messages are one conversation exactly when their channel and
/// thread are the same, as long as channel ids hold no colon (or are equal).
pub proof fn law_a_channel_is_keyed_per_thread(a: InboundView, b: InboundView)
    requires
        !a.is_dm,
        !b.is_dm,
        a.channel == b.channel || (!a.channel.contains(':') && !b.channel.contains(':')),
    ensures
        conversation(a) == conversation(b) <==> a.channel == b.channel && a.thread == b.thread,
{
    reveal_strlit("ch:");
    reveal_strlit(":");
    let x = conversation(a);
    let y = conversation(b);
    if x == y {
        let s = x.subrange(3, x.len() as int);
        assert(s =~= a.channel + ":"@ + a.thread);
        assert(s =~= b.channel + ":"@ + b.thread);
        if a.channel != b.channel {
            lemma_before_colon(s, a.channel, a.thread);
            lemma_before_colon(s, b.channel, b.thread);
        }
        let n = a.channel.len() as int;
        assert(s.subrange(n + 1, s.len() as int) =~= a.thread);
        assert(s.subrange(n + 1, s.len() as int) =~= b.thread);
    }
}

proof fn lemma_before_colon(s: Seq<char>, channel: Seq<char>, thread: Seq<char>)
    requires
        s == channel + ":"@ + thread,
        !channel.contains(':'),
    ensures
        channel == s.subrange(0, text::run_before(s, CharSet::One(':')) as int),
{
    reveal_strlit(":");
    let n = channel.len();
    assert forall|k: int| 0 <= k < n implies !CharSet::One(':').contains(#[trigger] s[k]) by {
        assert(s[k] == channel[k]);
    }
    text::lemma_run_before_is(s, CharSet::One(':'), n);
    assert(s.subrange(0, n as int) =~= channel);
}

/// The prompt is absent exactly when the persona and both facts files are
/// blank.
pub proof fn law_the_prompt_is_absent_when_all_is_blank(
    persona: Option<Seq<char>>,
    global: Seq<char>,
    per_channel: Seq<char>,
)
    ensures
        prompt_of(persona, global, per_channel) is None <==> {
            &&& persona matches Some(p) ==> text::trimmed(p).len() == 0
            &&& text::trimmed(global).len() == 0
            &&& text::trimmed(per_channel).len() == 0
        },
{
    reveal_with_fuel(present, 3);
    let both = seq![global, per_channel];
    assert(both.drop_last() =~= seq![global]);
    assert(seq![global].drop_last() =~= seq![]);
    if let Some(p) = persona {
        assert(seq![p].drop_last() =~= seq![]);
    }
}

/// A persona that is not blank opens the prompt, and is all of it when there
/// are no facts.
pub proof fn law_the_persona_opens_the_prompt(
    persona: Seq<char>,
    global: Seq<char>,
    per_channel: Seq<char>,
)
    requires
        text::trimmed(persona).len() > 0,
    ensures
        prompt_of(Some(persona), global, per_channel) matches Some(p) && text::begins(
            p,
            text::trimmed(persona),
        ),
        text::trimmed(global).len() == 0 && text::trimmed(per_channel).len() == 0 ==> prompt_of(
            Some(persona),
            global,
            per_channel,
        ) == Some(text::trimmed(persona)),
{
    reveal_with_fuel(present, 3);
    assert(seq![persona].drop_last() =~= seq![]);
    let both = seq![global, per_channel];
    assert(both.drop_last() =~= seq![global]);
    assert(seq![global].drop_last() =~= seq![]);
    let sections = prompt_sections(Some(persona), global, per_channel);
    assert(sections[0] == text::trimmed(persona));
    text::lemma_joined_begins(sections, "\n\n"@);
}

/// What the prompt is: the trimmed persona, then, on a paragraph of their own
/// under the memory heading, the trimmed facts, the global ones first. What is
/// blank is left out, together with the gap before it.
pub proof fn law_what_the_prompt_is(
    persona: Option<Seq<char>>,
    global: Seq<char>,
    per_channel: Seq<char>,
)
    ensures
        ({
            let head = match persona {
                Some(persona) => text::trimmed(persona),
                None => seq![],
            };
            let first = text::trimmed(global);
            let second = text::trimmed(per_channel);
            let facts = if first.len() > 0 && second.len() > 0 {
                first + "\n\n"@ + second
            } else {
                first + second
            };
            let memory = "# Memory\n\nDurable facts — treat as context:\n\n"@ + facts;
            prompt_of(persona, global, per_channel) == if head.len() == 0 && facts.len() == 0 {
                None
            } else if facts.len() == 0 {
                Some(head)
            } else if head.len() == 0 {
                Some(memory)
            } else {
                Some(head + "\n\n"@ + memory)
            }
        }),
{
    reveal_with_fuel(present, 3);
    reveal_with_fuel(text::joined, 3);
    let both = seq![global, per_channel];
    assert(both.drop_last() =~= seq![global]);
    assert(seq![global].drop_last() =~= seq![]);
    if let Some(p) = persona {
        assert(seq![p].drop_last() =~= seq![]);
    }
    let first = text::trimmed(global);
    let second = text::trimmed(per_channel);
    let kept = present(both);
    if first.len() > 0 && second.len() > 0 {
        assert(kept =~= seq![first, second]);
        assert(kept.drop_last() =~= seq![first]);
    } else if first.len() > 0 {
        assert(kept =~= seq![first]);
        assert(first + second =~= first);
    } else if second.len() > 0 {
        assert(kept =~= seq![second]);
        assert(first + second =~= second);
    }
    let sections = prompt_sections(persona, global, per_channel);
    if sections.len() == 2 {
        assert(sections.drop_last() =~= seq![sections[0]]);
    }
}

/// Every fact that is not blank is in the prompt, after the memory heading,
/// whatever the persona is and whether or not the other facts are blank; and
/// the global facts come before the channel's.
pub proof fn law_every_fact_is_in_the_prompt(
    persona: Option<Seq<char>>,
    global: Seq<char>,
    per_channel: Seq<char>,
)
    ensures
        text::trimmed(global).len() > 0 ==> (prompt_of(persona, global, per_channel) matches Some(p)
            && exists|heading: int, at: int|
            heading + "# Memory"@.len() <= at && #[trigger] text::stands_at(
                p,
                "# Memory"@,
                heading,
            ) && #[trigger] text::stands_at(p, text::trimmed(global), at)),
        text::trimmed(per_channel).len() > 0 ==> (prompt_of(persona, global, per_channel) matches Some(
            p,
        ) && exists|heading: int, at: int|
            heading + "# Memory"@.len() <= at && #[trigger] text::stands_at(
                p,
                "# Memory"@,
                heading,
            ) && #[trigger] text::stands_at(p, text::trimmed(per_channel), at)),
        text::trimmed(global).len() > 0 && text::trimmed(per_channel).len() > 0 ==> (prompt_of(
            persona,
            global,
            per_channel,
        ) matches Some(p) && exists|a: int, b: int|
            a + text::trimmed(global).len() <= b && #[trigger] text::stands_at(
                p,
                text::trimmed(global),
                a,
            ) && #[trigger] text::stands_at(p, text::trimmed(per_channel), b)),
{
    law_what_the_prompt_is(persona, global, per_channel);
    let title = "# Memory\n\nDurable facts — treat as context:\n\n"@;
    reveal_strlit("# Memory\n\nDurable facts — treat as context:\n\n");
    reveal_strlit("# Memory");
    reveal_strlit("\n\n");
    let head = match persona {
        Some(persona) => text::trimmed(persona),
        None => seq![],
    };
    let first = text::trimmed(global);
    let second = text::trimmed(per_channel);
    if first.len() > 0 || second.len() > 0 {
        let p = prompt_of(persona, global, per_channel)->0;
        let heading: int = if head.len() > 0 {
            head.len() as int + 2
        } else {
            0
        };
        let a: int = heading + title.len();
        let b: int = if first.len() > 0 {
            a + first.len() + 2
        } else {
            a
        };
        assert(p.subrange(heading, heading + 8) =~= "# Memory"@);
        assert(text::stands_at(p, "# Memory"@, heading));
        if first.len() > 0 {
            assert(p.subrange(a, a + first.len()) =~= first);
            assert(text::stands_at(p, first, a));
        }
        if second.len() > 0 {
            assert(p.subrange(b, b + second.len()) =~= second);
            assert(text::stands_at(p, second, b));
        }
    }
}

} // verus!
