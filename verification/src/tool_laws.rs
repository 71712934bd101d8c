//! What holds of the skills on offer: how a skill file is read, which entries of
//! a directory are skills, and what the notice and the sandbox are told.
use vstd::prelude::*;

use crate::config::Sandbox;
use crate::text;
use crate::text::CharSet;
use crate::text_laws;
use crate::tools;
use crate::tools::{EntryView, SkillView};

verus! {

/// Whether all of it is white space.
pub open spec fn blank(s: Seq<char>) -> bool {
    forall|k: int| 0 <= k < s.len() ==> text::white_space(#[trigger] s[k])
}

/// Whether the line is three dashes, but for white space after them.
pub open spec fn dashes(line: Seq<char>) -> bool {
    &&& line.len() >= 3
    &&& line[0] == '-' && line[1] == '-' && line[2] == '-'
    &&& forall|k: int| 3 <= k < line.len() ==> text::white_space(#[trigger] line[k])
}

proof fn lemma_stripped(s: Seq<char>, set: CharSet)
    ensures
        forall|k: int|
            text::strip_end(s, set).len() <= k < s.len() ==> set.contains(#[trigger] s[k]),
    decreases s.len(),
{
    if s.len() > 0 && set.contains(s.last()) {
        lemma_stripped(s.drop_last(), set);
        let rest = s.drop_last();
        assert forall|k: int|
            text::strip_end(s, set).len() <= k < s.len() implies set.contains(#[trigger] s[k]) by {
            if k < rest.len() {
                assert(rest[k] == s[k]);
            }
        }
    }
}

/// A line closes the frontmatter exactly when it is three dashes, but for white
/// space after them.
pub proof fn law_what_a_fence_is(line: Seq<char>)
    ensures
        tools::is_fence(line) <==> dashes(line),
{
    reveal_strlit("---");
    if tools::is_fence(line) {
        text::lemma_strip_end(line, CharSet::Space);
        lemma_stripped(line, CharSet::Space);
        let p = text::strip_end(line, CharSet::Space);
        assert(p[0] == line[0] && p[1] == line[1] && p[2] == line[2]);
        assert forall|k: int| 3 <= k < line.len() implies text::white_space(#[trigger] line[k]) by {
            assert(CharSet::Space.contains(line[k]));
        }
    }
    if dashes(line) {
        let rest = line.subrange(3, line.len() as int);
        assert(line =~= "---"@ + rest);
        assert forall|k: int| 0 <= k < rest.len() implies CharSet::Space.contains(
            #[trigger] rest[k],
        ) by {
            assert(text::white_space(line[k + 3]));
        }
        text::lemma_strip_end_of("---"@, rest, CharSet::Space);
    }
}

/// Whether what stands from `a` to `b` is a line of `s`.
pub open spec fn is_line(s: Seq<char>, a: int, b: int) -> bool {
    &&& 0 <= a <= b <= s.len()
    &&& a == 0 || s[a - 1] == '\n'
    &&& b == s.len() || s[b] == '\n'
    &&& forall|k: int| a <= k < b ==> #[trigger] s[k] != '\n'
}

/// Whether no line of `s` is a fence.
pub open spec fn unfenced(s: Seq<char>) -> bool {
    forall|a: int, b: int| #[trigger] is_line(s, a, b) ==> !dashes(s.subrange(a, b))
}

/// A text without a fence gives none.
proof fn lemma_no_fence(s: Seq<char>)
    requires
        unfenced(s),
    ensures
        tools::fence_in(s) is None,
    decreases s.len(),
{
    let nl = CharSet::One('\n');
    text::lemma_run_before(s, nl);
    let n = text::run_before(s, nl) as int;
    assert forall|k: int| 0 <= k < n implies #[trigger] s[k] != '\n' by {
        assert(!nl.contains(s[k]));
    }
    assert(is_line(s, 0, n));
    let line = s.subrange(0, n);
    law_what_a_fence_is(line);
    if n < s.len() {
        let rest = s.subrange(n + 1, s.len() as int);
        assert forall|a: int, b: int| #[trigger] is_line(rest, a, b) implies !dashes(
            rest.subrange(a, b),
        ) by {
            assert(is_line(s, a + n + 1, b + n + 1)) by {
                assert(a > 0 ==> rest[a - 1] == s[a + n]);
                assert(b < rest.len() ==> rest[b] == s[b + n + 1]);
                assert forall|k: int| a + n + 1 <= k < b + n + 1 implies #[trigger] s[k] != '\n' by {
                    assert(rest[k - n - 1] == s[k]);
                }
            }
            assert(s.subrange(a + n + 1, b + n + 1) =~= rest.subrange(a, b));
        }
        lemma_no_fence(rest);
    } else {
        assert(line =~= s);
    }
}

/// After lines that are no fences the next one is the first.
proof fn lemma_fence_after(body: Seq<char>, fence: Seq<char>, after: Seq<char>)
    requires
        unfenced(body),
        dashes(fence),
        !fence.contains('\n'),
        after.len() == 0 || after[0] == '\n',
    ensures
        tools::fence_in(fence + after) == Some(0int),
        tools::fence_in(body + seq!['\n'] + (fence + after)) == Some(body.len() as int + 1),
    decreases body.len(),
{
    let nl = CharSet::One('\n');
    law_what_a_fence_is(fence);
    assert forall|k: int| 0 <= k < fence.len() implies !nl.contains(#[trigger] fence[k]) by {
        assert(fence.contains(fence[k]));
    }
    if after.len() == 0 {
        assert(fence + after =~= fence);
        text_laws::law_what_dividing_gives(fence, '\n', after, nl);
    } else {
        let more = after.subrange(1, after.len() as int);
        assert(fence + after =~= fence + seq!['\n'] + more);
        text_laws::law_what_dividing_gives(fence, '\n', more, nl);
    }
    let tail = fence + after;
    let all = body + seq!['\n'] + tail;
    text::lemma_run_before(body, nl);
    let n = text::run_before(body, nl) as int;
    let line = body.subrange(0, n);
    assert forall|k: int| 0 <= k < n implies #[trigger] body[k] != '\n' by {
        assert(!nl.contains(body[k]));
    }
    assert forall|k: int| 0 <= k < line.len() implies !nl.contains(#[trigger] line[k]) by {
        assert(line[k] == body[k]);
    }
    assert(is_line(body, 0, n));
    law_what_a_fence_is(line);
    if n < body.len() {
        let rest = body.subrange(n + 1, body.len() as int);
        assert forall|a: int, b: int| #[trigger] is_line(rest, a, b) implies !dashes(
            rest.subrange(a, b),
        ) by {
            assert(is_line(body, a + n + 1, b + n + 1)) by {
                assert(a > 0 ==> rest[a - 1] == body[a + n]);
                assert(b < rest.len() ==> rest[b] == body[b + n + 1]);
                assert forall|k: int| a + n + 1 <= k < b + n + 1 implies #[trigger] body[k]
                    != '\n' by {
                    assert(rest[k - n - 1] == body[k]);
                }
            }
            assert(body.subrange(a + n + 1, b + n + 1) =~= rest.subrange(a, b));
        }
        lemma_fence_after(rest, fence, after);
        assert(body[n] == '\n');
        assert(all =~= line + seq!['\n'] + (rest + seq!['\n'] + tail));
        text_laws::law_what_dividing_gives(line, '\n', rest + seq!['\n'] + tail, nl);
    } else {
        assert(line =~= body);
        text_laws::law_what_dividing_gives(body, '\n', tail, nl);
    }
}

/// The frontmatter is what stands between the opening fence and the next line
/// that is one, however many lines that are none come before. It may be empty.
/// Without a closing fence, or without an opening one, there is none.
pub proof fn law_what_the_frontmatter_is(
    body: Seq<char>,
    fence: Seq<char>,
    after: Seq<char>,
    returned: bool,
)
    requires
        unfenced(body),
        dashes(fence),
        !fence.contains('\n'),
        after.len() == 0 || after[0] == '\n',
    ensures
        ({
            let open = if returned {
                seq!['-', '-', '-', '\r', '\n']
            } else {
                seq!['-', '-', '-', '\n']
            };
            &&& tools::fenced(open + (body + seq!['\n'] + (fence + after))) == Some(body)
            &&& tools::fenced(open + (fence + after)) == Some(Seq::<char>::empty())
            &&& tools::fenced(open + body) is None
        }),
        body.len() < 3 || body[0] != '-' || body[1] != '-' || body[2] != '-' ==> tools::fenced(
            body,
        ) is None,
{
    reveal_strlit("---\n");
    reveal_strlit("---\r\n");
    assert("---\n"@ =~= seq!['-', '-', '-', '\n']);
    assert("---\r\n"@ =~= seq!['-', '-', '-', '\r', '\n']);
    let open = if returned {
        "---\r\n"@
    } else {
        "---\n"@
    };
    lemma_fence_after(body, fence, after);
    lemma_no_fence(body);
    let long = body + seq!['\n'] + (fence + after);
    lemma_opened(open, long);
    lemma_opened(open, fence + after);
    lemma_opened(open, body);
    assert(long.subrange(0, body.len() as int) =~= body);
    if text::begins(body, "---\n"@) {
        assert(body.subrange(0, 4)[0] == body[0] && body.subrange(0, 4)[1] == body[1]
            && body.subrange(0, 4)[2] == body[2]);
    }
    if text::begins(body, "---\r\n"@) {
        assert(body.subrange(0, 5)[0] == body[0] && body.subrange(0, 5)[1] == body[1]
            && body.subrange(0, 5)[2] == body[2]);
    }
}

proof fn lemma_opened(open: Seq<char>, rest: Seq<char>)
    requires
        open == "---\n"@ || open == "---\r\n"@,
    ensures
        ({
            let found = match text::after_prefix(open + rest, "---\n"@) {
                Some(rest) => Some(rest),
                None => text::after_prefix(open + rest, "---\r\n"@),
            };
            found == Some(rest)
        }),
{
    reveal_strlit("---\n");
    reveal_strlit("---\r\n");
    text_laws::law_what_stands_where(seq![], open, rest);
    if open == "---\r\n"@ {
        let all = open + rest;
        assert(all[3] == '\r');
        if text::begins(all, "---\n"@) {
            assert(all.subrange(0, 4)[3] == all[3]);
        }
    }
}

/// Whether all of it is quotation marks.
pub open spec fn quotes(s: Seq<char>) -> bool {
    forall|k: int| 0 <= k < s.len() ==> #[trigger] s[k] == '"' || s[k] == '\''
}

/// A `key: value` line gives the value of its key, without the white space and
/// the quotation marks around it; it gives nothing for another key, and a line
/// without a colon gives nothing at all.
pub proof fn law_what_a_line_gives(
    key: Seq<char>,
    other: Seq<char>,
    gap: Seq<char>,
    open: Seq<char>,
    value: Seq<char>,
    close: Seq<char>,
    after: Seq<char>,
)
    requires
        key.len() > 0,
        text::is_trim(key),
        !key.contains(':'),
        other != key,
        blank(gap),
        quotes(open),
        quotes(close),
        value.len() > 0,
        text::is_trim(value),
        value[0] != '"' && value[0] != '\'',
        value[value.len() - 1] != '"' && value[value.len() - 1] != '\'',
        blank(after),
    ensures
        ({
            let line = key + seq![':'] + (gap + (open + value + close) + after);
            &&& tools::line_value(line, key) == Some(value)
            &&& tools::line_value(line, other) is None
            &&& tools::line_value(key, key) is None
        }),
{
    let colon = CharSet::One(':');
    let marks = CharSet::Either('"', '\'');
    assert forall|k: int| 0 <= k < key.len() implies !colon.contains(#[trigger] key[k]) by {
        assert(key.contains(key[k]));
    }
    let quoted = open + value + close;
    text_laws::law_what_dividing_gives(key, ':', gap + quoted + after, colon);
    text::lemma_trim_is_trimmed(key);
    assert(!text::white_space('"') && !text::white_space('\''));
    assert(text::is_trim(quoted)) by {
        if open.len() > 0 {
            assert(quoted[0] == open[0]);
        } else {
            assert(quoted[0] == value[0]);
        }
        if close.len() > 0 {
            assert(quoted.last() == close[close.len() - 1]);
        } else {
            assert(quoted.last() == value.last());
        }
    }
    text::law_what_trimming_leaves(gap, quoted, after);
    assert forall|k: int| 0 <= k < open.len() implies marks.contains(#[trigger] open[k]) by {}
    assert forall|k: int| 0 <= k < close.len() implies marks.contains(#[trigger] close[k]) by {}
    text_laws::law_what_stripping_leaves(open, value, close, marks);
    text::lemma_trim_is_trimmed(value);
}

/// The value of a key is the one that its first line gives; lines that give none
/// make no difference. An empty one counts as none.
pub proof fn law_the_first_line_for_a_key_decides(
    line: Seq<char>,
    rest: Seq<Seq<char>>,
    key: Seq<char>,
)
    ensures
        tools::first_value(seq![line] + rest, key) == match tools::line_value(line, key) {
            Some(value) => Some(value),
            None => tools::first_value(rest, key),
        },
        tools::first_value(Seq::<Seq<char>>::empty(), key) is None,
        tools::non_empty(Some(line)) == if line.len() == 0 {
            None
        } else {
            Some(line)
        },
{
    assert((seq![line] + rest).drop_first() =~= rest);
}

/// A file is described by its first line that is not blank: without the number
/// signs in front of it and the white space around what is left.
pub proof fn law_what_the_headline_is(
    empty: Seq<char>,
    rest: Seq<Seq<char>>,
    signs: Seq<char>,
    gap: Seq<char>,
    title: Seq<char>,
    after: Seq<char>,
)
    requires
        blank(empty),
        forall|k: int| 0 <= k < signs.len() ==> #[trigger] signs[k] == '#',
        blank(gap),
        title.len() > 0,
        text::is_trim(title),
        title[0] != '#',
        blank(after),
    ensures
        tools::headline(seq![empty] + rest) == tools::headline(rest),
        tools::headline(seq![signs + (gap + title + after)] + rest) == Some(title),
        tools::headline(Seq::<Seq<char>>::empty()) is None,
{
    let none = Seq::<char>::empty();
    assert(empty + none + none =~= empty);
    text::law_what_trimming_leaves(empty, none, none);
    assert((seq![empty] + rest).drop_first() =~= rest);
    let sign = CharSet::One('#');
    let core = gap + title + after;
    let line = signs + core;
    assert(core[0] != '#') by {
        if gap.len() > 0 {
            assert(core[0] == gap[0]);
            assert(text::white_space(gap[0]));
            assert(!text::white_space('#'));
        } else {
            assert(core[0] == title[0]);
        }
    }
    let lines = seq![line] + rest;
    assert(lines[0] == line);
    assert forall|k: int| 0 <= k < signs.len() implies sign.contains(#[trigger] signs[k]) by {}
    text_laws::lemma_strip_start_of(signs, core, sign);
    text::law_what_trimming_leaves(gap, title, after);
    assert(text::trimmed(line).len() > 0) by {
        if signs.len() > 0 {
            let bare = signs + gap + title;
            assert(bare[0] == signs[0]);
            assert(bare.last() == title.last());
            assert(none + bare + after =~= line);
            text::law_what_trimming_leaves(none, bare, after);
        } else {
            assert(line =~= core);
        }
    }
}

/// What a skill file says comes from its frontmatter when that gives a
/// description or arguments, both as it gives them; else its headline describes
/// it, and it has no arguments.
pub proof fn law_what_a_skill_file_says(text: Seq<char>, front: Seq<char>)
    ensures
        tools::fenced(text) == Some(front) && (tools::field(front, "description"@) is Some
            || tools::field(front, "args"@) is Some) ==> tools::skill_meta(text) == (
            tools::field(front, "description"@),
            tools::field(front, "args"@),
        ),
        tools::fenced(text) is None || (tools::fenced(text) == Some(front) && tools::field(
            front,
            "description"@,
        ) is None && tools::field(front, "args"@) is None) ==> tools::skill_meta(text) == (
            tools::headline(text::lines_of(text)),
            None::<Seq<char>>,
        ),
{
}

/// The skills among the entries of a directory are the directories, in order,
/// each under its own name and with what its file says; one without a file says
/// nothing.
pub proof fn law_every_directory_is_a_skill(v: Seq<EntryView>, e: EntryView)
    ensures
        !e.is_dir ==> tools::skills_among(v.push(e)) == tools::skills_among(v),
        e.is_dir ==> tools::skills_among(v.push(e)) == tools::skills_among(v).push(
            SkillView {
                name: e.name,
                description: match e.skill_md {
                    Some(text) => tools::skill_meta(text).0,
                    None => None,
                },
                args: match e.skill_md {
                    Some(text) => tools::skill_meta(text).1,
                    None => None,
                },
            },
        ),
        tools::skills_among(Seq::<EntryView>::empty()) == Seq::<SkillView>::empty(),
{
    assert(v.push(e).drop_last() =~= v);
}

/// A file name comes before another when it is a proper beginning of it, or has
/// the smaller byte where the two first differ.
pub proof fn law_what_comes_first(start: Seq<u8>, a: Seq<u8>, b: Seq<u8>, x: u8, y: u8)
    ensures
        x < y ==> tools::precedes(start + seq![x] + a, start + seq![y] + b),
        x > y ==> !tools::precedes(start + seq![x] + a, start + seq![y] + b),
        tools::precedes(start, start + seq![y] + b),
        !tools::precedes(start + seq![x] + a, start),
        !tools::precedes(start, start),
    decreases start.len(),
{
    let p = start + seq![x] + a;
    let q = start + seq![y] + b;
    if start.len() > 0 {
        let rest = start.drop_first();
        law_what_comes_first(rest, a, b, x, y);
        assert(p[0] == start[0] && q[0] == start[0]);
        assert(p.drop_first() =~= rest + seq![x] + a);
        assert(q.drop_first() =~= rest + seq![y] + b);
    } else {
        assert(p[0] == x && q[0] == y);
    }
}

/// A skill's line of the notice.
pub open spec fn notice_line(s: SkillView) -> Seq<char> {
    match s.description {
        Some(description) => "- `"@ + s.name + "`: "@ + description,
        None => "- `"@ + s.name + "`"@,
    }
}

/// The notice lists every skill, in order, each on a line of its own with its
/// name and its description; without skills there is no notice.
pub proof fn law_the_notice_lists_every_skill(skills: Seq<SkillView>, s: SkillView)
    ensures
        tools::notice(Seq::<SkillView>::empty()) is None,
        tools::notice(seq![s]) matches Some(t) && text::ends(t, "\n"@ + notice_line(s)),
        skills.len() > 0 ==> (tools::notice(skills) matches Some(t) && tools::notice(
            skills.push(s),
        ) == Some(t + "\n"@ + notice_line(s))),
{
    let intro = "You're in a workspace and can run tools. These skills are available — read `skills/<name>/SKILL.md` for how to use one and run its scripts with bash. Prefer a matching skill over ad-hoc commands:\n"@;
    let items = skills.map_values(|x: SkillView| tools::notice_item(x));
    let more = skills.push(s).map_values(|x: SkillView| tools::notice_item(x));
    assert(more =~= items.push(notice_line(s)));
    assert(more.drop_last() =~= items);
    if skills.len() > 0 {
        assert(intro + text::joined(more, "\n"@) =~= intro + text::joined(items, "\n"@) + "\n"@
            + notice_line(s));
    }
    let one = seq![s].map_values(|x: SkillView| tools::notice_item(x));
    assert(one =~= seq![notice_line(s)]);
    let t = intro + notice_line(s);
    let p = "\n"@ + notice_line(s);
    assert(tools::notice(seq![s]) == Some(t));
    reveal_strlit("\n");
    reveal_strlit(
        "You're in a workspace and can run tools. These skills are available — read `skills/<name>/SKILL.md` for how to use one and run its scripts with bash. Prefer a matching skill over ad-hoc commands:\n",
    );
    assert(intro.last() == '\n');
    assert(t.subrange(t.len() - p.len(), t.len() as int) =~= p);
}

/// A sandbox is passed just the variables that have a value, each with its own,
/// in order.
pub proof fn law_only_set_variables_are_passed(
    names: Seq<Seq<char>>,
    values: Seq<Option<Seq<char>>>,
    name: Seq<char>,
    value: Seq<char>,
)
    requires
        names.len() == values.len(),
    ensures
        tools::env_set(names.push(name), values.push(Some(value))) == tools::env_set(
            names,
            values,
        ).push((name, value)),
        tools::env_set(names.push(name), values.push(None)) == tools::env_set(names, values),
        tools::env_set(seq![], seq![]) == Seq::<(Seq<char>, Seq<char>)>::empty(),
{
    assert(names.push(name).drop_last() =~= names);
    assert(values.push(Some(value)).drop_last() =~= values);
    assert(values.push(None).drop_last() =~= values);
}

/// The trees that are there are provisioned, and no other, the repository's
/// before the channel's, so that the channel's files win.
pub proof fn law_the_channel_has_the_last_word<T>(repo: T, channel: T)
    ensures
        tools::sources_of(Some(repo), Some(channel)).len() == 2,
        tools::sources_of(Some(repo), Some(channel)).first() == repo,
        tools::sources_of(Some(repo), Some(channel)).last() == channel,
        tools::sources_of(Some(repo), None) == seq![repo],
        tools::sources_of(None, Some(channel)) == seq![channel],
        tools::sources_of(None::<T>, None).len() == 0,
{
}

/// A sandbox is set up as the config says, limits, network and idle time
/// included, and runs as the host's user and group.
pub proof fn law_a_sandbox_is_what_the_config_says(
    config: Sandbox,
    uid: u32,
    gid: u32,
    values: Seq<Option<Seq<char>>>,
)
    ensures
        ({
            let s = tools::settings_of(config, uid, gid, values);
            &&& s.image == config.image@
            &&& s.memory == config.memory@
            &&& s.cpus == config.cpus@
            &&& s.pids_limit == config.pids
            &&& s.network == text::opt_text(config.network)
            &&& s.idle_seconds == 60 * config.idle_minutes
            &&& s.user == text::digits(uid as nat) + seq![':'] + text::digits(gid as nat)
            &&& s.env == tools::env_set(text::texts(config.env@), values)
        }),
{
    reveal_strlit(":");
    assert(":"@ =~= seq![':']);
}

} // verus!
