//! What holds of the string primitives: what each takes apart is what was put
//! together.
use vstd::prelude::*;

use crate::text;
use crate::text::CharSet;

verus! {

/// White space is the space, the tab, the line feed and the other ASCII controls
/// beside them, and the blanks and line separators of Unicode beyond ASCII. No
/// letter, digit or punctuation mark of ASCII is.
pub proof fn law_what_white_space_is(c: char)
    ensures
        (c as u32) < 0x80 ==> (text::white_space(c) <==> c == ' ' || c == '\t' || c == '\n' || c
            == '\r' || c == '\x0b' || c == '\x0c'),
        (c as u32) >= 0x80 ==> (text::white_space(c) <==> c == '\u{85}' || c == '\u{a0}' || c
            == '\u{1680}' || ('\u{2000}' <= c && c <= '\u{200a}') || c == '\u{2028}' || c
            == '\u{2029}' || c == '\u{202f}' || c == '\u{205f}' || c == '\u{3000}'),
{
}

/// A set holds what it names and nothing else.
pub proof fn law_what_a_set_holds(a: char, b: char, c: char)
    ensures
        CharSet::One(a).contains(c) <==> c == a,
        CharSet::Either(a, b).contains(c) <==> c == a || c == b,
        CharSet::Space.contains(c) <==> text::white_space(c),
{
}

/// Whether every character of `s` is in `set`.
pub open spec fn all_in(s: Seq<char>, set: CharSet) -> bool {
    forall|k: int| 0 <= k < s.len() ==> set.contains(#[trigger] s[k])
}

/// Whether no character of `s` is in `set`.
pub open spec fn none_in(s: Seq<char>, set: CharSet) -> bool {
    forall|k: int| 0 <= k < s.len() ==> !set.contains(#[trigger] s[k])
}

/// What stands at the start of a text and belongs to `set` is what stripping the
/// start removes.
pub proof fn lemma_strip_start_of(before: Seq<char>, s: Seq<char>, set: CharSet)
    requires
        all_in(before, set),
        s.len() > 0 ==> !set.contains(s[0]),
    ensures
        text::strip_start(before + s, set) == s,
    decreases before.len(),
{
    let all = before + s;
    if before.len() == 0 {
        assert(all =~= s);
    } else {
        let tail = before.drop_first();
        assert(set.contains(before[0]));
        assert(all.first() == before[0]);
        assert(all.drop_first() =~= tail + s);
        assert forall|k: int| 0 <= k < tail.len() implies set.contains(#[trigger] tail[k]) by {
            assert(tail[k] == before[k + 1]);
        }
        lemma_strip_start_of(tail, s, set);
    }
}

/// Stripping removes the characters of the set around a text, all of them on
/// the sides that it strips, and nothing else.
pub proof fn law_what_stripping_leaves(
    before: Seq<char>,
    s: Seq<char>,
    after: Seq<char>,
    set: CharSet,
)
    requires
        all_in(before, set),
        all_in(after, set),
        s.len() > 0,
        !set.contains(s[0]),
        !set.contains(s[s.len() - 1]),
    ensures
        text::strip(before + s + after, set) == s,
        text::strip_start(before + s + after, set) == s + after,
        text::strip_end(before + s + after, set) == before + s,
        text::strip(before + after, set) == Seq::<char>::empty(),
{
    assert(before + s + after =~= before + (s + after));
    assert((s + after)[0] == s[0]);
    lemma_strip_start_of(before, s + after, set);
    text::lemma_strip_end_of(s, after, set);
    assert((before + s).last() == s.last());
    text::lemma_strip_end_of(before + s, after, set);
    let only = before + after;
    assert forall|k: int| 0 <= k < only.len() implies set.contains(#[trigger] only[k]) by {
        if k < before.len() {
            assert(only[k] == before[k]);
        } else {
            assert(only[k] == after[k - before.len()]);
        }
    }
    assert(only + Seq::<char>::empty() =~= only);
    lemma_strip_start_of(only, seq![], set);
}

/// A text is divided at the first character of the set: what stood before it and
/// what stood after it come back. Without such a character it is not divided.
pub proof fn law_what_dividing_gives(
    before: Seq<char>,
    c: char,
    after: Seq<char>,
    set: CharSet,
)
    requires
        none_in(before, set),
        set.contains(c),
    ensures
        text::divided(before + seq![c] + after, set) == Some((before, after)),
        text::divided(before, set) is None,
{
    let all = before + seq![c] + after;
    assert forall|k: int| 0 <= k < before.len() implies !set.contains(#[trigger] all[k]) by {
        assert(all[k] == before[k]);
    }
    assert(all[before.len() as int] == c);
    text::lemma_run_before_is(all, set, before.len());
    assert(all.subrange(0, before.len() as int) =~= before);
    assert(all.subrange(before.len() as int + 1, all.len() as int) =~= after);
    text::lemma_run_before_is(before, set, before.len());
}

/// A text has a beginning, an end or a part exactly when it is put together with
/// it, and what follows a beginning is the rest.
pub proof fn law_what_stands_where(before: Seq<char>, p: Seq<char>, after: Seq<char>)
    ensures
        text::occurs(before + p + after, p),
        text::begins(p + after, p),
        text::ends(before + p, p),
        text::after_prefix(p + after, p) == Some(after),
{
    let all = before + p + after;
    assert(all.subrange(before.len() as int, before.len() as int + p.len()) =~= p);
    assert(text::stands_at(all, p, before.len() as int));
    assert((p + after).subrange(0, p.len() as int) =~= p);
    let end = before + p;
    assert(end.subrange(before.len() as int, end.len() as int) =~= p);
    assert((p + after).subrange(p.len() as int, (p + after).len() as int) =~= after);
}

/// Whatever begins with, ends with or holds a text is put together with it; and
/// without it as a beginning nothing follows it.
pub proof fn law_what_stands_there_is_part_of_it(s: Seq<char>, p: Seq<char>)
    ensures
        text::occurs(s, p) ==> exists|a: Seq<char>, b: Seq<char>| s == #[trigger] ((a + p) + b),
        text::begins(s, p) ==> exists|b: Seq<char>| s == #[trigger] (p + b),
        text::ends(s, p) ==> exists|a: Seq<char>| s == #[trigger] (a + p),
        text::after_prefix(s, p) matches Some(rest) ==> s == p + rest,
        text::after_prefix(s, p) is None <==> !text::begins(s, p),
{
    if text::occurs(s, p) {
        let at = choose|at: int| text::stands_at(s, p, at);
        let a = s.subrange(0, at);
        let b = s.subrange(at + p.len(), s.len() as int);
        assert(s =~= (a + p) + b) by {
            assert forall|k: int| 0 <= k < s.len() implies s[k] == ((a + p) + b)[k] by {
                if at <= k < at + p.len() {
                    assert(s.subrange(at, at + p.len())[k - at] == s[k]);
                }
            }
        }
    }
    if text::begins(s, p) {
        let b = s.subrange(p.len() as int, s.len() as int);
        assert(s =~= p + b) by {
            assert forall|k: int| 0 <= k < s.len() implies s[k] == (p + b)[k] by {
                if k < p.len() {
                    assert(s.subrange(0, p.len() as int)[k] == s[k]);
                }
            }
        }
    }
    if text::ends(s, p) {
        let at = s.len() - p.len();
        let a = s.subrange(0, at);
        assert(s =~= a + p) by {
            assert forall|k: int| 0 <= k < s.len() implies s[k] == (a + p)[k] by {
                if k >= at {
                    assert(s.subrange(at, at + p.len())[k - at] == s[k]);
                }
            }
        }
    }
}

/// Joining puts the separator between the parts and nowhere else: joining two
/// lists is joining each, with the separator between.
pub proof fn law_what_joining_gives(a: Seq<Seq<char>>, b: Seq<Seq<char>>, sep: Seq<char>, part: Seq<char>)
    requires
        a.len() > 0,
        b.len() > 0,
    ensures
        text::joined(a + b, sep) == text::joined(a, sep) + sep + text::joined(b, sep),
        text::joined(seq![part], sep) == part,
        text::joined(Seq::<Seq<char>>::empty(), sep) == Seq::<char>::empty(),
    decreases b.len(),
{
    let all = a + b;
    assert(all.drop_last() =~= a + b.drop_last());
    if b.len() == 1 {
        assert(a + b.drop_last() =~= a);
    } else {
        law_what_joining_gives(a, b.drop_last(), sep, part);
        assert(text::joined(all, sep) =~= text::joined(a, sep) + sep + text::joined(b, sep));
    }
}

/// Putting two lists of parts one after the other is putting the parts of each
/// one after the other.
pub proof fn law_what_concatenating_gives(a: Seq<Seq<char>>, b: Seq<Seq<char>>, part: Seq<char>)
    ensures
        text::concat(a + b) == text::concat(a) + text::concat(b),
        text::concat(seq![part]) == part,
        text::concat(Seq::<Seq<char>>::empty()) == Seq::<char>::empty(),
    decreases b.len(),
{
    reveal_with_fuel(text::concat, 2);
    assert(seq![part].drop_last() =~= seq![]);
    assert(text::concat(seq![part]) =~= part);
    let all = a + b;
    if b.len() == 0 {
        assert(all =~= a);
        assert(text::concat(a) + text::concat(b) =~= text::concat(a));
    } else {
        assert(all.drop_last() =~= a + b.drop_last());
        law_what_concatenating_gives(a, b.drop_last(), part);
        assert(text::concat(all) =~= text::concat(a) + text::concat(b));
    }
}

/// A text falls into its lines: one that ends in a line feed, with or without a
/// carriage return before it, comes first, and then the lines of the rest. Text
/// without a line feed is one line, and no text is none.
pub proof fn law_what_the_lines_are(line: Seq<char>, rest: Seq<char>)
    requires
        !line.contains('\n'),
    ensures
        (line.len() == 0 || line[line.len() - 1] != '\r') ==> {
            &&& text::lines_of(line + seq!['\n'] + rest) == seq![line] + text::lines_of(rest)
            &&& text::lines_of(line + seq!['\r', '\n'] + rest) == seq![line] + text::lines_of(rest)
        },
        line.len() > 0 ==> text::lines_of(line) == seq![line],
        text::lines_of(Seq::<char>::empty()) == Seq::<Seq<char>>::empty(),
{
    let nl = CharSet::One('\n');
    assert forall|k: int| 0 <= k < line.len() implies !nl.contains(#[trigger] line[k]) by {
        assert(line[k] != '\n');
    }
    law_what_dividing_gives(line, '\n', rest, nl);
    let returned = line.push('\r');
    assert forall|k: int| 0 <= k < returned.len() implies !nl.contains(#[trigger] returned[k]) by {
        if k < line.len() {
            assert(returned[k] == line[k]);
        }
    }
    law_what_dividing_gives(returned, '\n', rest, nl);
    assert(line + seq!['\r', '\n'] + rest =~= returned + seq!['\n'] + rest);
    assert(returned.drop_last() =~= line);
    text::lemma_run_before_is(line, nl, line.len());
}

/// The value of decimal digits.
pub open spec fn value_of(s: Seq<char>) -> int
    decreases s.len(),
{
    if s.len() == 0 {
        0
    } else {
        10 * value_of(s.drop_last()) + (s[s.len() - 1] as int - '0' as int)
    }
}

/// A number in decimal is made of digits only, says the number, and has no zero
/// in front unless it is zero.
pub proof fn law_a_number_is_read_back(n: nat)
    ensures
        value_of(text::digits(n)) == n,
        text::digits(n).len() > 0,
        forall|k: int|
            0 <= k < text::digits(n).len() ==> '0' <= (#[trigger] text::digits(n)[k])
                && text::digits(n)[k] <= '9',
        text::digits(n)[0] == '0' ==> n == 0,
    decreases n,
{
    reveal_strlit("0123456789");
    let d = n % 10;
    let last = text::digit(d);
    assert(last.len() == 1);
    assert(last[0] == "0123456789"@[d as int]);
    assert(last[0] as int - '0' as int == d);
    let all = text::digits(n);
    if n < 10 {
        assert(all.drop_last() =~= seq![]);
        reveal_with_fuel(value_of, 2);
    } else {
        law_a_number_is_read_back(n / 10);
        let head = text::digits(n / 10);
        assert(all.drop_last() =~= head);
        assert(all[0] == head[0]);
        assert forall|k: int| 0 <= k < all.len() implies '0' <= (#[trigger] all[k]) && all[k]
            <= '9' by {
            if k < head.len() {
                assert(all[k] == head[k]);
            } else {
                assert(all[k] == last[0]);
            }
        }
    }
}

/// Taking one character off the end takes off just that one, if it is there.
pub proof fn law_what_taking_one_off_leaves(s: Seq<char>, c: char)
    ensures
        text::without_last(s.push(c), c) == s,
        s.len() == 0 || s[s.len() - 1] != c ==> text::without_last(s, c) == s,
{
    assert(s.push(c).drop_last() =~= s);
}

} // verus!
