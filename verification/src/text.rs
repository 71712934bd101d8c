//! String primitives over the character view of a `str`: trimming, splitting,
//! searching, lines and joining. Everything else in the crate states its text
//! rules through these.
use vstd::prelude::*;

verus! {

/// The Unicode `White_Space` property: the characters that trimming removes
/// and that separate words.
pub open spec fn white_space(c: char) -> bool {
    let n = c as u32;
    ||| 0x9 <= n <= 0xd
    ||| n == 0x20
    ||| n == 0x85
    ||| n == 0xa0
    ||| n == 0x1680
    ||| 0x2000 <= n <= 0x200a
    ||| 0x2028 <= n <= 0x2029
    ||| n == 0x202f
    ||| n == 0x205f
    ||| n == 0x3000
}

/// A set of characters to strip or to split at.
#[derive(Clone, Copy)]
pub enum CharSet {
    /// Every white-space character.
    Space,
    /// One character.
    One(char),
    /// Two characters.
    Either(char, char),
}

impl CharSet {
    pub open spec fn contains(self, c: char) -> bool {
        match self {
            CharSet::Space => white_space(c),
            CharSet::One(a) => c == a,
            CharSet::Either(a, b) => c == a || c == b,
        }
    }

    /// Whether `c` is in the set.
    pub fn has(&self, c: char) -> (r: bool)
        ensures
            r == self.contains(c),
    {
        match *self {
            CharSet::Space => is_white_space(c),
            CharSet::One(a) => c == a,
            CharSet::Either(a, b) => c == a || c == b,
        }
    }
}

/// Whether `c` is white space.
pub fn is_white_space(c: char) -> (r: bool)
    ensures
        r == white_space(c),
{
    let n: u32 = c as u32;
    (0x9 <= n && n <= 0xd) || n == 0x20 || n == 0x85 || n == 0xa0 || n == 0x1680 || (0x2000 <= n
        && n <= 0x200a) || (0x2028 <= n && n <= 0x2029) || n == 0x202f || n == 0x205f || n == 0x3000
}

/// `s` without its leading characters from `set`.
pub open spec fn strip_start(s: Seq<char>, set: CharSet) -> Seq<char>
    decreases s.len(),
{
    if s.len() > 0 && set.contains(s.first()) {
        strip_start(s.drop_first(), set)
    } else {
        s
    }
}

/// `s` without its trailing characters from `set`.
pub open spec fn strip_end(s: Seq<char>, set: CharSet) -> Seq<char>
    decreases s.len(),
{
    if s.len() > 0 && set.contains(s.last()) {
        strip_end(s.drop_last(), set)
    } else {
        s
    }
}

/// `s` without its leading and trailing characters from `set`.
pub open spec fn strip(s: Seq<char>, set: CharSet) -> Seq<char> {
    strip_end(strip_start(s, set), set)
}

/// `s` without the white space around it.
pub open spec fn trimmed(s: Seq<char>) -> Seq<char> {
    strip(s, CharSet::Space)
}

/// How many characters of `s` stand before the first one from `set` (all of
/// them when there is none).
pub open spec fn run_before(s: Seq<char>, set: CharSet) -> nat
    decreases s.len(),
{
    if s.len() == 0 || set.contains(s.first()) {
        0
    } else {
        1 + run_before(s.drop_first(), set)
    }
}

/// `s` divided at its first character from `set`: what stands before it and
/// what stands after it. `None` when `s` has no such character.
pub open spec fn divided(s: Seq<char>, set: CharSet) -> Option<(Seq<char>, Seq<char>)> {
    let n = run_before(s, set) as int;
    if n < s.len() {
        Some((s.subrange(0, n), s.subrange(n + 1, s.len() as int)))
    } else {
        None
    }
}

/// Whether `p` stands in `s` at position `at`.
pub open spec fn stands_at(s: Seq<char>, p: Seq<char>, at: int) -> bool {
    0 <= at && at + p.len() <= s.len() && s.subrange(at, at + p.len()) == p
}

/// Whether `p` occurs somewhere in `s`.
pub open spec fn occurs(s: Seq<char>, p: Seq<char>) -> bool {
    exists|at: int| stands_at(s, p, at)
}

/// Whether `at` is where `p` first occurs in `s`.
pub open spec fn first_at(s: Seq<char>, p: Seq<char>, at: int) -> bool {
    stands_at(s, p, at) && forall|k: int| 0 <= k < at ==> !stands_at(s, p, k)
}

/// Whether `s` begins with `p`.
pub open spec fn begins(s: Seq<char>, p: Seq<char>) -> bool {
    stands_at(s, p, 0)
}

/// Whether `s` ends with `p`.
pub open spec fn ends(s: Seq<char>, p: Seq<char>) -> bool {
    stands_at(s, p, s.len() - p.len())
}

/// `s` without one `c` at its end.
pub open spec fn without_last(s: Seq<char>, c: char) -> Seq<char> {
    if s.len() > 0 && s.last() == c {
        s.drop_last()
    } else {
        s
    }
}

/// The lines of `s`: each ends at a newline (`\n` or `\r\n`, not part of the
/// line) or at the end of `s`. A trailing newline starts no further line.
pub open spec fn lines_of(s: Seq<char>) -> Seq<Seq<char>>
    decreases s.len(),
{
    let n = run_before(s, CharSet::One('\n')) as int;
    if s.len() == 0 {
        seq![]
    } else if n < s.len() {
        seq![without_last(s.subrange(0, n), '\r')] + lines_of(s.subrange(n + 1, s.len() as int))
    } else {
        seq![s]
    }
}

/// The parts one after the other, with `sep` between them.
pub open spec fn joined(parts: Seq<Seq<char>>, sep: Seq<char>) -> Seq<char>
    decreases parts.len(),
{
    if parts.len() == 0 {
        seq![]
    } else if parts.len() == 1 {
        parts[0]
    } else {
        joined(parts.drop_last(), sep) + sep + parts.last()
    }
}

/// The text of an optional string.
pub open spec fn opt_text(s: Option<String>) -> Option<Seq<char>> {
    match s {
        Some(s) => Some(s@),
        None => None,
    }
}

/// The text of an optional string slice.
pub open spec fn opt_str(s: Option<&str>) -> Option<Seq<char>> {
    match s {
        Some(s) => Some(s@),
        None => None,
    }
}

/// The texts of a list of strings.
pub open spec fn texts(v: Seq<String>) -> Seq<Seq<char>> {
    v.map_values(|s: String| s@)
}

pub proof fn lemma_run_before(s: Seq<char>, set: CharSet)
    ensures
        run_before(s, set) <= s.len(),
        forall|k: int| 0 <= k < run_before(s, set) ==> !set.contains(#[trigger] s[k]),
        run_before(s, set) < s.len() ==> set.contains(s[run_before(s, set) as int]),
    decreases s.len(),
{
    if s.len() == 0 || set.contains(s.first()) {
    } else {
        let t = s.drop_first();
        lemma_run_before(t, set);
        assert forall|k: int| 0 <= k < run_before(s, set) implies !set.contains(#[trigger] s[k]) by {
            if k > 0 {
                assert(t[k - 1] == s[k]);
            }
        }
    }
}

/// A count with no member of `set` before it, and one at it or the end, is the
/// run before the set.
pub proof fn lemma_run_before_is(s: Seq<char>, set: CharSet, n: nat)
    requires
        n <= s.len(),
        forall|k: int| 0 <= k < n ==> !set.contains(#[trigger] s[k]),
        n < s.len() ==> set.contains(s[n as int]),
    ensures
        run_before(s, set) == n,
{
    lemma_run_before(s, set);
    let r = run_before(s, set);
    if r < n {
        assert(!set.contains(s[r as int]));
    } else if n < r {
        assert(!set.contains(s[n as int]));
    }
}

/// The characters of `s`.
pub fn chars_of(s: &str) -> (r: Vec<char>)
    ensures
        r@ == s@,
{
    let mut out: Vec<char> = Vec::new();
    for c in it: s.chars()
        invariant
            it.seq() == s@,
            out@ == s@.take(it.index() as int),
    {
        out.push(c);
        assert(s@.take(it.index() as int + 1) == s@.take(it.index() as int).push(c));
    }
    assert(s@.take(s@.len() as int) == s@);
    out
}

/// `s` without its leading characters from `set`.
pub fn trim_start_set<'a>(s: &'a str, set: CharSet) -> (r: &'a str)
    ensures
        r@ == strip_start(s@, set),
{
    let v: Vec<char> = chars_of(s);
    let n: usize = v.len();
    let mut i: usize = 0;
    assert(s@.subrange(0, n as int) == s@);
    while i < n && set.has(v[i])
        invariant
            i <= n,
            n == v@.len(),
            v@ == s@,
            strip_start(s@, set) == strip_start(s@.subrange(i as int, n as int), set),
        decreases n - i,
    {
        assert(s@.subrange(i as int, n as int).drop_first() == s@.subrange(i + 1, n as int));
        i = i + 1;
    }
    s.substring_char(i, n)
}

/// `s` without its trailing characters from `set`.
pub fn trim_end_set<'a>(s: &'a str, set: CharSet) -> (r: &'a str)
    ensures
        r@ == strip_end(s@, set),
{
    let v: Vec<char> = chars_of(s);
    let mut n: usize = v.len();
    assert(s@.subrange(0, n as int) == s@);
    while n > 0 && set.has(v[n - 1])
        invariant
            n <= v@.len(),
            v@ == s@,
            strip_end(s@, set) == strip_end(s@.subrange(0, n as int), set),
        decreases n,
    {
        assert(s@.subrange(0, n as int).drop_last() == s@.subrange(0, n - 1));
        n = n - 1;
    }
    s.substring_char(0, n)
}

/// `s` without its leading and trailing characters from `set`.
pub fn trim_set<'a>(s: &'a str, set: CharSet) -> (r: &'a str)
    ensures
        r@ == strip(s@, set),
{
    trim_end_set(trim_start_set(s, set), set)
}

/// `s` without the white space around it.
pub fn trim<'a>(s: &'a str) -> (r: &'a str)
    ensures
        r@ == trimmed(s@),
{
    trim_set(s, CharSet::Space)
}

/// `s` divided at its first character from `set`.
pub fn split_once<'a>(s: &'a str, set: CharSet) -> (r: Option<(&'a str, &'a str)>)
    ensures
        match r {
            Some(parts) => divided(s@, set) == Some((parts.0@, parts.1@)),
            None => divided(s@, set) is None,
        },
{
    let v: Vec<char> = chars_of(s);
    let n: usize = v.len();
    let mut i: usize = 0;
    while i < n && !set.has(v[i])
        invariant
            i <= n,
            n == v@.len(),
            v@ == s@,
            forall|k: int| 0 <= k < i ==> !set.contains(#[trigger] s@[k]),
        decreases n - i,
    {
        i = i + 1;
    }
    proof {
        lemma_run_before_is(s@, set, i as nat);
    }
    if i < n {
        Some((s.substring_char(0, i), s.substring_char(i + 1, n)))
    } else {
        None
    }
}

/// Whether `p` stands in `v` at position `at`.
fn matches_at(v: &Vec<char>, p: &Vec<char>, at: usize) -> (r: bool)
    ensures
        r == stands_at(v@, p@, at as int),
{
    let n: usize = v.len();
    if p.len() > n || at > n - p.len() {
        return false;
    }
    let mut k: usize = 0;
    while k < p.len()
        invariant
            k <= p@.len(),
            n == v@.len(),
            at + p@.len() <= n,
            forall|j: int| 0 <= j < k ==> v@[at + j] == #[trigger] p@[j],
        decreases p@.len() - k,
    {
        if v[at + k] != p[k] {
            assert(v@.subrange(at as int, at + p@.len())[k as int] == v@[at + k]);
            return false;
        }
        k = k + 1;
    }
    assert(v@.subrange(at as int, at + p@.len()) =~= p@);
    true
}

/// Where `p` first occurs in `s`, counted in characters.
pub fn find(s: &str, p: &str) -> (r: Option<usize>)
    ensures
        match r {
            Some(at) => first_at(s@, p@, at as int),
            None => !occurs(s@, p@),
        },
{
    let v: Vec<char> = chars_of(s);
    let q: Vec<char> = chars_of(p);
    let mut at: usize = 0;
    while at < v.len()
        invariant
            at <= v@.len(),
            v@ == s@,
            q@ == p@,
            forall|k: int| 0 <= k < at ==> !stands_at(s@, p@, k),
        decreases v@.len() - at,
    {
        if matches_at(&v, &q, at) {
            return Some(at);
        }
        at = at + 1;
    }
    if matches_at(&v, &q, at) {
        return Some(at);
    }
    assert forall|k: int| !stands_at(s@, p@, k) by {
        assert(k < at ==> k < 0 || !stands_at(s@, p@, k));
    }
    None
}

/// Whether `p` occurs somewhere in `s`.
pub fn contains(s: &str, p: &str) -> (r: bool)
    ensures
        r == occurs(s@, p@),
{
    match find(s, p) {
        Some(at) => {
            assert(stands_at(s@, p@, at as int));
            true
        },
        None => false,
    }
}

/// What follows `p` when `s` begins with it.
pub open spec fn after_prefix(s: Seq<char>, p: Seq<char>) -> Option<Seq<char>> {
    if begins(s, p) {
        Some(s.subrange(p.len() as int, s.len() as int))
    } else {
        None
    }
}

/// What follows `p` when `s` begins with it.
pub fn strip_prefix<'a>(s: &'a str, p: &str) -> (r: Option<&'a str>)
    ensures
        opt_str(r) == after_prefix(s@, p@),
{
    let v: Vec<char> = chars_of(s);
    let q: Vec<char> = chars_of(p);
    if matches_at(&v, &q, 0) {
        Some(s.substring_char(q.len(), v.len()))
    } else {
        None
    }
}

/// Whether `s` ends with `p`.
pub fn ends_with(s: &str, p: &str) -> (r: bool)
    ensures
        r == ends(s@, p@),
{
    let v: Vec<char> = chars_of(s);
    let q: Vec<char> = chars_of(p);
    if q.len() > v.len() {
        return false;
    }
    matches_at(&v, &q, v.len() - q.len())
}

/// Whether the two texts are the same.
pub fn same(a: &str, b: &str) -> (r: bool)
    ensures
        r == (a@ == b@),
{
    let a: String = a.to_owned();
    let b: String = b.to_owned();
    a == b
}

/// The lines of `s`.
pub fn lines(s: &str) -> (r: Vec<String>)
    ensures
        texts(r@) == lines_of(s@),
{
    let mut out: Vec<String> = Vec::new();
    let mut rest: &str = s;
    assert(texts(out@) + lines_of(rest@) == lines_of(s@));
    loop
        invariant_except_break
            texts(out@) + lines_of(rest@) == lines_of(s@),
        ensures
            texts(out@) == lines_of(s@),
        decreases rest@.len(),
    {
        if rest.is_empty() {
            assert(texts(out@) + lines_of(rest@) == texts(out@));
            break;
        }
        let ghost before = texts(out@);
        proof {
            lemma_run_before(rest@, CharSet::One('\n'));
        }
        match split_once(rest, CharSet::One('\n')) {
            Some((line, tail)) => {
                let line: String = drop_last(line, '\r').to_owned();
                let ghost whole = lines_of(rest@);
                assert(whole == seq![line@] + lines_of(tail@));
                out.push(line);
                assert(texts(out@) == before.push(line@));
                assert(before + whole == texts(out@) + lines_of(tail@));
                rest = tail;
            },
            None => {
                out.push(rest.to_owned());
                assert(texts(out@) == before.push(rest@));
                assert(before + seq![rest@] == before.push(rest@));
                break;
            },
        }
    }
    out
}

/// `s` without one `c` at its end.
pub fn drop_last<'a>(s: &'a str, c: char) -> (r: &'a str)
    ensures
        r@ == without_last(s@, c),
{
    let v: Vec<char> = chars_of(s);
    let n: usize = v.len();
    if n > 0 && v[n - 1] == c {
        s.substring_char(0, n - 1)
    } else {
        s
    }
}

/// The parts one after the other, with `sep` between them.
pub fn join(parts: &Vec<String>, sep: &str) -> (r: String)
    ensures
        r@ == joined(texts(parts@), sep@),
{
    let mut out: String = String::new();
    let mut i: usize = 0;
    let ghost all = texts(parts@);
    while i < parts.len()
        invariant
            i <= parts@.len(),
            all == texts(parts@),
            out@ == joined(all.take(i as int), sep@),
        decreases parts@.len() - i,
    {
        if i > 0 {
            out.append(sep);
        }
        out.append(parts[i].as_str());
        assert(all.take(i + 1).drop_last() == all.take(i as int));
        assert(i == 0 ==> out@ == all[0]);
        i = i + 1;
    }
    assert(all.take(i as int) == all);
    out
}

/// A copy of the strings.
pub fn copy_texts(v: &Vec<String>) -> (r: Vec<String>)
    ensures
        texts(r@) == texts(v@),
{
    let mut out: Vec<String> = Vec::new();
    let mut i: usize = 0;
    while i < v.len()
        invariant
            i <= v@.len(),
            out@.len() == i,
            forall|k: int| 0 <= k < i ==> (#[trigger] out@[k])@ == v@[k]@,
        decreases v@.len() - i,
    {
        out.push(v[i].clone());
        i = i + 1;
    }
    assert(texts(out@) =~= texts(v@));
    out
}

/// Whether one of the strings is `s`.
pub fn any_same(v: &Vec<String>, s: &str) -> (r: bool)
    ensures
        r == texts(v@).contains(s@),
{
    let mut i: usize = 0;
    while i < v.len()
        invariant
            i <= v@.len(),
            forall|k: int| 0 <= k < i ==> (#[trigger] v@[k])@ != s@,
        decreases v@.len() - i,
    {
        if same(v[i].as_str(), s) {
            assert(texts(v@)[i as int] == s@);
            return true;
        }
        i = i + 1;
    }
    assert forall|k: int| 0 <= k < texts(v@).len() implies texts(v@)[k] != s@ by {
        assert(v@[k]@ != s@);
    }
    false
}

/// The texts of a list of string slices.
pub open spec fn strs(v: Seq<&str>) -> Seq<Seq<char>> {
    v.map_values(|s: &str| s@)
}

/// The parts one after the other.
pub open spec fn concat(parts: Seq<Seq<char>>) -> Seq<char>
    decreases parts.len(),
{
    if parts.len() == 0 {
        seq![]
    } else {
        concat(parts.drop_last()) + parts.last()
    }
}

/// One more part comes at the end.
pub proof fn lemma_concat_push(parts: Seq<Seq<char>>, part: Seq<char>)
    ensures
        concat(parts.push(part)) == concat(parts) + part,
{
    assert(parts.push(part).drop_last() =~= parts);
}

/// Whether `s` neither begins nor ends with white space.
pub open spec fn is_trim(s: Seq<char>) -> bool {
    s.len() > 0 ==> !white_space(s.first()) && !white_space(s.last())
}

/// Stripping leaves a part of `s` that does not begin with a member of `set`.
proof fn lemma_strip_start(s: Seq<char>, set: CharSet)
    ensures
        strip_start(s, set).len() <= s.len(),
        strip_start(s, set) == s.subrange(s.len() - strip_start(s, set).len(), s.len() as int),
        strip_start(s, set).len() > 0 ==> !set.contains(strip_start(s, set).first()),
    decreases s.len(),
{
    if s.len() > 0 && set.contains(s.first()) {
        lemma_strip_start(s.drop_first(), set);
    }
    assert(strip_start(s, set) =~= s.subrange(s.len() - strip_start(s, set).len(), s.len() as int));
}

/// Stripping leaves a part of `s` that does not end with a member of `set`.
pub proof fn lemma_strip_end(s: Seq<char>, set: CharSet)
    ensures
        strip_end(s, set).len() <= s.len(),
        strip_end(s, set) == s.subrange(0, strip_end(s, set).len() as int),
        strip_end(s, set).len() > 0 ==> !set.contains(strip_end(s, set).last()),
    decreases s.len(),
{
    if s.len() > 0 && set.contains(s.last()) {
        lemma_strip_end(s.drop_last(), set);
    }
    assert(strip_end(s, set) =~= s.subrange(0, strip_end(s, set).len() as int));
}

/// Trimming leaves no white space around the text, and trimming again changes
/// nothing.
pub proof fn lemma_trimmed(s: Seq<char>)
    ensures
        is_trim(trimmed(s)),
        trimmed(trimmed(s)) == trimmed(s),
{
    let t = strip_start(s, CharSet::Space);
    lemma_strip_start(s, CharSet::Space);
    lemma_strip_end(t, CharSet::Space);
    if trimmed(s).len() > 0 {
        assert(trimmed(s).first() == t.first());
    }
    lemma_trim_is_trimmed(trimmed(s));
}

/// Text without white space around it is left as it is.
pub proof fn lemma_trim_is_trimmed(s: Seq<char>)
    requires
        is_trim(s),
    ensures
        trimmed(s) == s,
{
}

/// A decimal digit.
pub open spec fn digit(d: nat) -> Seq<char> {
    "0123456789"@.subrange(d as int, d as int + 1)
}

/// A number in decimal, without leading zeros.
pub open spec fn digits(n: nat) -> Seq<char>
    decreases n,
{
    if n < 10 {
        digit(n)
    } else {
        digits(n / 10) + digit(n % 10)
    }
}

/// A number in decimal, without leading zeros.
pub fn decimal(n: u32) -> (r: String)
    ensures
        r@ == digits(n as nat),
    decreases n,
{
    let mut out: String = if n < 10 {
        String::new()
    } else {
        decimal(n / 10)
    };
    proof {
        reveal_strlit("0123456789");
    }
    let d: usize = (n % 10) as usize;
    let last: &str = "0123456789".substring_char(d, d + 1);
    out.append(last);
    out
}

/// A copy of the optional string.
pub fn copy_text(s: &Option<String>) -> (r: Option<String>)
    ensures
        r == *s,
{
    match s {
        Some(s) => Some(s.clone()),
        None => None,
    }
}

/// What trimming leaves is a part of the text.
pub proof fn lemma_trimmed_is_part(s: Seq<char>)
    ensures
        exists|from: int|
            0 <= from && from + trimmed(s).len() <= s.len() && trimmed(s) == #[trigger] s.subrange(
                from,
                from + trimmed(s).len(),
            ),
{
    let t = strip_start(s, CharSet::Space);
    lemma_strip_start(s, CharSet::Space);
    lemma_strip_end(t, CharSet::Space);
    let from = s.len() - t.len();
    assert(trimmed(s) =~= s.subrange(from, from + trimmed(s).len()));
}

/// A text in quotes with what needs it escaped: what `{:?}` prints for it.
pub uninterp spec fn debug_text(s: Seq<char>) -> Seq<char>;

/// `s` as `format!("{:?}", s)` prints it: in double quotes, escaped. Which
/// characters are escaped, and how, is the standard library's own table, and is
/// left unsaid: the result is only named.
#[verifier::external_body]
pub(crate) fn quoted(s: &str) -> (r: String)
    ensures
        r@ == debug_text(s@),
{
    format!("{:?}", s)
}

/// Joined parts begin with the first one.
pub proof fn lemma_joined_begins(parts: Seq<Seq<char>>, sep: Seq<char>)
    requires
        parts.len() > 0,
    ensures
        begins(joined(parts, sep), parts[0]),
    decreases parts.len(),
{
    let j = joined(parts, sep);
    if parts.len() > 1 {
        lemma_joined_begins(parts.drop_last(), sep);
        let head = joined(parts.drop_last(), sep);
        assert(head.subrange(0, parts[0].len() as int) =~= parts[0]);
        assert(j.subrange(0, parts[0].len() as int) =~= head.subrange(0, parts[0].len() as int));
    } else {
        assert(j.subrange(0, parts[0].len() as int) =~= parts[0]);
    }
}

/// Trimming removes the white space around a text, all of it, and nothing else.
pub proof fn law_what_trimming_leaves(before: Seq<char>, s: Seq<char>, after: Seq<char>)
    requires
        forall|k: int| 0 <= k < before.len() ==> white_space(#[trigger] before[k]),
        forall|k: int| 0 <= k < after.len() ==> white_space(#[trigger] after[k]),
        is_trim(s),
    ensures
        trimmed(before + s + after) == s,
    decreases before.len() + after.len(),
{
    let all = before + s + after;
    if before.len() > 0 {
        let rest = before.drop_first();
        assert forall|k: int| 0 <= k < rest.len() implies white_space(#[trigger] rest[k]) by {
            assert(rest[k] == before[k + 1]);
        }
        law_what_trimming_leaves(rest, s, after);
        assert(all.first() == before[0]);
        assert(all.drop_first() =~= rest + s + after);
    } else if s.len() == 0 {
        assert(all =~= after);
        lemma_all_space(after);
        assert(s =~= seq![]);
    } else {
        assert(all =~= s + after);
        assert(all.first() == s.first());
        assert(strip_start(all, CharSet::Space) == all);
        lemma_strip_end_of(s, after, CharSet::Space);
    }
}

/// Nothing is left of white space.
proof fn lemma_all_space(s: Seq<char>)
    requires
        forall|k: int| 0 <= k < s.len() ==> white_space(#[trigger] s[k]),
    ensures
        trimmed(s) == Seq::<char>::empty(),
        strip_start(s, CharSet::Space) == Seq::<char>::empty(),
    decreases s.len(),
{
    if s.len() > 0 {
        let rest = s.drop_first();
        assert(white_space(s[0]));
        assert forall|k: int| 0 <= k < rest.len() implies white_space(#[trigger] rest[k]) by {
            assert(rest[k] == s[k + 1]);
        }
        lemma_all_space(rest);
    } else {
        assert(s =~= seq![]);
    }
}

/// What stands at the end of a text and belongs to `set` is what stripping the
/// end removes.
pub proof fn lemma_strip_end_of(s: Seq<char>, after: Seq<char>, set: CharSet)
    requires
        s.len() > 0 ==> !set.contains(s.last()),
        forall|k: int| 0 <= k < after.len() ==> set.contains(#[trigger] after[k]),
    ensures
        strip_end(s + after, set) == s,
    decreases after.len(),
{
    let all = s + after;
    if after.len() > 0 {
        let rest = after.drop_last();
        assert(set.contains(after[after.len() - 1]));
        assert(all.last() == after.last());
        assert(all.drop_last() =~= s + rest);
        assert forall|k: int| 0 <= k < rest.len() implies set.contains(#[trigger] rest[k]) by {
            assert(rest[k] == after[k]);
        }
        lemma_strip_end_of(s, rest, set);
    } else {
        assert(all =~= s);
    }
}

} // verus!
