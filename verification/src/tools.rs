//! What a turn's tools need to know: the skills on offer, the notice that
//! lists them in a tool-aware prompt, the order they are provisioned in, and
//! the settings of a channel's sandbox.
use vstd::hash_map::StringHashMap;
use vstd::prelude::*;

use crate::config::Sandbox;
use crate::text;
use crate::text::CharSet;

verus! {

/// One provisioned skill: its directory name, a one-line description, and an
/// optional argument placeholder.
#[derive(Debug, PartialEq, Eq)]
pub struct Skill {
    pub name: String,
    pub description: Option<String>,
    pub args: Option<String>,
}

/// The mathematical form of a [`Skill`].
pub struct SkillView {
    pub name: Seq<char>,
    pub description: Option<Seq<char>>,
    pub args: Option<Seq<char>>,
}

impl View for Skill {
    type V = SkillView;

    open spec fn view(&self) -> SkillView {
        SkillView {
            name: self.name@,
            description: text::opt_text(self.description),
            args: text::opt_text(self.args),
        }
    }
}

impl Clone for Skill {
    fn clone(&self) -> (r: Skill)
        ensures
            r == *self,
    {
        Skill {
            name: self.name.clone(),
            description: text::copy_text(&self.description),
            args: text::copy_text(&self.args),
        }
    }
}

/// The skills of a list.
pub open spec fn skills_view(v: Seq<Skill>) -> Seq<SkillView> {
    v.map_values(|s: Skill| s@)
}

/// Whether a line is a `---` fence: just that, but for white space after it.
pub open spec fn is_fence(line: Seq<char>) -> bool {
    text::strip_end(line, CharSet::Space) == "---"@
}

/// Where the first line of `s` that is a fence begins.
pub open spec fn fence_in(s: Seq<char>) -> Option<int>
    decreases s.len(),
{
    proof {
        text::lemma_run_before(s, CharSet::One('\n'));
    }
    match text::divided(s, CharSet::One('\n')) {
        Some(parts) => if is_fence(parts.0) {
            Some(0)
        } else {
            match fence_in(parts.1) {
                Some(at) => Some(parts.0.len() + 1 + at),
                None => None,
            }
        },
        None => if is_fence(s) {
            Some(0)
        } else {
            None
        },
    }
}

/// The lines between a leading `---` fence and the next one, if there are both.
pub open spec fn fenced(text: Seq<char>) -> Option<Seq<char>> {
    let rest = match text::after_prefix(text, "---\n"@) {
        Some(rest) => Some(rest),
        None => text::after_prefix(text, "---\r\n"@),
    };
    match rest {
        Some(rest) => match fence_in(rest) {
            Some(at) => if at == 0 {
                Some(seq![])
            } else {
                Some(rest.subrange(0, at - 1))
            },
            None => None,
        },
        None => None,
    }
}

/// The value of a `key: value` line, when that is what the line is: trimmed,
/// without quotes around it.
pub open spec fn line_value(line: Seq<char>, key: Seq<char>) -> Option<Seq<char>> {
    match text::divided(line, CharSet::One(':')) {
        Some(parts) => if text::trimmed(parts.0) == key {
            Some(text::trimmed(text::strip(text::trimmed(parts.1), CharSet::Either('"', '\''))))
        } else {
            None
        },
        None => None,
    }
}

/// The value of the first line for `key`.
pub open spec fn first_value(lines: Seq<Seq<char>>, key: Seq<char>) -> Option<Seq<char>>
    decreases lines.len(),
{
    if lines.len() == 0 {
        None
    } else {
        match line_value(lines[0], key) {
            Some(value) => Some(value),
            None => first_value(lines.drop_first(), key),
        }
    }
}

/// `value`, unless it is empty.
pub open spec fn non_empty(value: Option<Seq<char>>) -> Option<Seq<char>> {
    match value {
        Some(v) => if v.len() == 0 {
            None
        } else {
            Some(v)
        },
        None => None,
    }
}

/// The scalar `key` of a frontmatter.
pub open spec fn field(front: Seq<char>, key: Seq<char>) -> Option<Seq<char>> {
    non_empty(first_value(text::lines_of(front), key))
}

/// The first line that is not blank, without the `#`s it starts with and the
/// white space around it. Nothing when that leaves nothing.
pub open spec fn headline(lines: Seq<Seq<char>>) -> Option<Seq<char>>
    decreases lines.len(),
{
    if lines.len() == 0 {
        None
    } else if text::trimmed(lines[0]).len() == 0 {
        headline(lines.drop_first())
    } else {
        non_empty(Some(text::trimmed(text::strip_start(lines[0], CharSet::One('#')))))
    }
}

/// A skill file's description and arguments: from the frontmatter when it gives
/// either, else the headline and no arguments.
pub open spec fn skill_meta(text: Seq<char>) -> (Option<Seq<char>>, Option<Seq<char>>) {
    let given = match fenced(text) {
        Some(front) => (field(front, "description"@), field(front, "args"@)),
        None => (None, None),
    };
    if given.0 is Some || given.1 is Some {
        given
    } else {
        (headline(text::lines_of(text)), None)
    }
}

/// Whether a line is a `---` fence.
fn fence_line(line: &str) -> (r: bool)
    ensures
        r == is_fence(line@),
{
    text::same(text::trim_end_set(line, CharSet::Space), "---")
}

/// Where the first line of `s` that is a fence begins.
fn find_fence(s: &str) -> (r: Option<usize>)
    ensures
        match r {
            Some(at) => fence_in(s@) == Some(at as int) && at <= s@.len(),
            None => fence_in(s@) is None,
        },
{
    let total: usize = s.unicode_len();
    let mut tail: &str = s;
    let mut from: usize = 0;
    loop
        invariant
            total == s@.len(),
            from + tail@.len() == total,
            tail@ == s@.subrange(from as int, total as int),
            fence_in(s@) == match fence_in(tail@) {
                Some(at) => Some(from + at),
                None => None,
            },
        decreases tail@.len(),
    {
        proof {
            text::lemma_run_before(tail@, CharSet::One('\n'));
        }
        match text::split_once(tail, CharSet::One('\n')) {
            Some((line, next)) => {
                if fence_line(line) {
                    return Some(from);
                }
                let ghost at = text::run_before(tail@, CharSet::One('\n'));
                assert(line@.len() == at);
                from = from + line.unicode_len() + 1;
                assert(next@ =~= s@.subrange(from as int, total as int));
                tail = next;
            },
            None => {
                return if fence_line(tail) {
                    Some(from)
                } else {
                    None
                };
            },
        }
    }
}

/// The lines between a leading `---` fence and the next one, if there are both.
pub fn frontmatter<'a>(text: &'a str) -> (r: Option<&'a str>)
    ensures
        text::opt_str(r) == fenced(text@),
{
    let rest = match text::strip_prefix(text, "---\n") {
        Some(rest) => rest,
        None => match text::strip_prefix(text, "---\r\n") {
            Some(rest) => rest,
            None => {
                return None;
            },
        },
    };
    match find_fence(rest) {
        Some(at) => if at == 0 {
            Some(rest.substring_char(0, 0))
        } else {
            Some(rest.substring_char(0, at - 1))
        },
        None => None,
    }
}

/// A scalar `key: value` from a simple frontmatter, or `None`.
pub fn fm_field(front: &str, key: &str) -> (r: Option<String>)
    ensures
        text::opt_text(r) == field(front@, key@),
{
    let lines = text::lines(front);
    let ghost all = text::texts(lines@);
    let mut i: usize = 0;
    assert(all.subrange(0, all.len() as int) =~= all);
    while i < lines.len()
        invariant
            i <= lines@.len(),
            all == text::texts(lines@),
            first_value(all, key@) == first_value(
                all.subrange(i as int, all.len() as int),
                key@,
            ),
            all == text::lines_of(front@),
        decreases lines@.len() - i,
    {
        assert(all.subrange(i as int, all.len() as int)[0] == lines@[i as int]@);
        assert(all.subrange(i as int, all.len() as int).drop_first() =~= all.subrange(
            i + 1,
            all.len() as int,
        ));
        if let Some((k, v)) = text::split_once(lines[i].as_str(), CharSet::One(':')) {
            if text::same(text::trim(k), key) {
                let value = text::trim(text::trim_set(text::trim(v), CharSet::Either('"', '\'')));
                if value.is_empty() {
                    return None;
                }
                return Some(value.to_owned());
            }
        }
        i = i + 1;
    }
    None
}

/// A skill file's description and arguments. A file without frontmatter is
/// described by its first line.
pub fn parse_skill_md(text: &str) -> (r: (Option<String>, Option<String>))
    ensures
        (text::opt_text(r.0), text::opt_text(r.1)) == skill_meta(text@),
{
    if let Some(front) = frontmatter(text) {
        let description = fm_field(front, "description");
        let args = fm_field(front, "args");
        if description.is_some() || args.is_some() {
            return (description, args);
        }
    }
    let lines = text::lines(text);
    let ghost all = text::texts(lines@);
    let mut i: usize = 0;
    assert(all.subrange(0, all.len() as int) =~= all);
    while i < lines.len()
        invariant
            i <= lines@.len(),
            all == text::texts(lines@),
            headline(all) == headline(all.subrange(i as int, all.len() as int)),
            skill_meta(text@) == (headline(all), None::<Seq<char>>),
        decreases lines@.len() - i,
    {
        assert(all.subrange(i as int, all.len() as int)[0] == lines@[i as int]@);
        assert(all.subrange(i as int, all.len() as int).drop_first() =~= all.subrange(
            i + 1,
            all.len() as int,
        ));
        let line = lines[i].as_str();
        if !text::trim(line).is_empty() {
            let title = text::trim(text::trim_start_set(line, CharSet::One('#')));
            if title.is_empty() {
                return (None, None);
            }
            return (Some(title.to_owned()), None);
        }
        i = i + 1;
    }
    (None, None)
}

/// What a directory of skills holds under one name: the raw file name, which
/// entries are ordered by, the name as text, whether it is a directory, and the
/// text of the `SKILL.md` in it, if that can be read.
#[derive(Debug)]
pub struct SkillEntry {
    pub key: Vec<u8>,
    pub name: String,
    pub is_dir: bool,
    pub skill_md: Option<String>,
}

/// The mathematical form of a [`SkillEntry`].
pub struct EntryView {
    pub key: Seq<u8>,
    pub name: Seq<char>,
    pub is_dir: bool,
    pub skill_md: Option<Seq<char>>,
}

impl View for SkillEntry {
    type V = EntryView;

    open spec fn view(&self) -> EntryView {
        EntryView {
            key: self.key@,
            name: self.name@,
            is_dir: self.is_dir,
            skill_md: text::opt_text(self.skill_md),
        }
    }
}

/// The entries of a directory.
pub open spec fn entries_view(v: Seq<SkillEntry>) -> Seq<EntryView> {
    v.map_values(|e: SkillEntry| e@)
}

/// Whether `a` comes before `b`, byte by byte.
pub open spec fn precedes(a: Seq<u8>, b: Seq<u8>) -> bool
    decreases b.len(),
{
    if b.len() == 0 {
        false
    } else if a.len() == 0 {
        true
    } else if a[0] != b[0] {
        a[0] < b[0]
    } else {
        precedes(a.drop_first(), b.drop_first())
    }
}

/// The entries with `e` put in after those that do not come after it.
pub open spec fn placed(v: Seq<EntryView>, e: EntryView) -> Seq<EntryView>
    decreases v.len(),
{
    if v.len() == 0 || !precedes(e.key, v.last().key) {
        v.push(e)
    } else {
        placed(v.drop_last(), e).push(v.last())
    }
}

/// The entries in the order of their file names.
pub open spec fn ordered(v: Seq<EntryView>) -> Seq<EntryView>
    decreases v.len(),
{
    if v.len() == 0 {
        v
    } else {
        placed(ordered(v.drop_last()), v.last())
    }
}

/// The skill that a directory entry stands for.
pub open spec fn skill_of(e: EntryView) -> SkillView {
    let meta = match e.skill_md {
        Some(text) => skill_meta(text),
        None => (None, None),
    };
    SkillView { name: e.name, description: meta.0, args: meta.1 }
}

/// The skills among the entries: the directories.
pub open spec fn skills_among(v: Seq<EntryView>) -> Seq<SkillView>
    decreases v.len(),
{
    if v.len() == 0 {
        seq![]
    } else if v.last().is_dir {
        skills_among(v.drop_last()).push(skill_of(v.last()))
    } else {
        skills_among(v.drop_last())
    }
}

fn before(a: &Vec<u8>, b: &Vec<u8>) -> (r: bool)
    ensures
        r == precedes(a@, b@),
{
    let n: usize = a.len();
    let m: usize = b.len();
    let mut i: usize = 0;
    assert(a@.subrange(0, n as int) =~= a@);
    assert(b@.subrange(0, m as int) =~= b@);
    while i < n && i < m
        invariant
            n == a@.len(),
            m == b@.len(),
            i <= n,
            i <= m,
            precedes(a@, b@) == precedes(
                a@.subrange(i as int, n as int),
                b@.subrange(i as int, m as int),
            ),
        decreases n - i,
    {
        assert(a@.subrange(i as int, n as int).drop_first() =~= a@.subrange(i + 1, n as int));
        assert(b@.subrange(i as int, m as int).drop_first() =~= b@.subrange(i + 1, m as int));
        if a[i] != b[i] {
            return a[i] < b[i];
        }
        i = i + 1;
    }
    i < m
}

/// Where an entry goes, counted from the front.
proof fn lemma_placed(v: Seq<EntryView>, e: EntryView, at: int)
    requires
        0 <= at <= v.len(),
        at > 0 ==> !precedes(e.key, v[at - 1].key),
        forall|k: int| at <= k < v.len() ==> precedes(e.key, (#[trigger] v[k]).key),
    ensures
        placed(v, e) == v.insert(at, e),
    decreases v.len(),
{
    if at < v.len() {
        assert(precedes(e.key, v[v.len() - 1].key));
        let head = v.drop_last();
        assert forall|k: int| at <= k < head.len() implies precedes(
            e.key,
            (#[trigger] head[k]).key,
        ) by {
            assert(v[k] == head[k]);
        }
        lemma_placed(head, e, at);
        assert(head.insert(at, e).push(v.last()) =~= v.insert(at, e));
    } else {
        assert(v.push(e) =~= v.insert(at, e));
    }
}

/// Put an entry in after those that do not come after it.
fn place(v: &mut Vec<SkillEntry>, e: SkillEntry)
    ensures
        entries_view(final(v)@) == placed(entries_view(old(v)@), e@),
{
    let ghost had = entries_view(v@);
    let mut at: usize = v.len();
    while at > 0 && before(&e.key, &v[at - 1].key)
        invariant
            at <= v@.len(),
            had == entries_view(v@),
            forall|k: int| at <= k < had.len() ==> precedes(e.key@, (#[trigger] had[k]).key),
        decreases at,
    {
        at = at - 1;
    }
    proof {
        lemma_placed(had, e@, at as int);
    }
    let ghost view = e@;
    v.insert(at, e);
    assert(entries_view(v@) =~= had.insert(at as int, view));
}

/// The skill that an entry stands for.
fn read_skill(e: &SkillEntry) -> (r: Skill)
    ensures
        r@ == skill_of(e@),
{
    let (description, args) = match &e.skill_md {
        Some(text) => parse_skill_md(text.as_str()),
        None => (None, None),
    };
    Skill { name: e.name.clone(), description, args }
}

/// The skills among the entries of a directory, in the order of their file
/// names, each with what its `SKILL.md` says of it.
pub fn skills(entries: Vec<SkillEntry>) -> (r: Vec<Skill>)
    ensures
        skills_view(r@) == skills_among(ordered(entries_view(entries@))),
{
    let ghost all = entries_view(entries@);
    let mut sorted: Vec<SkillEntry> = Vec::new();
    assert(entries_view(sorted@) =~= ordered(all.take(0)));
    for e in it: entries
        invariant
            all == entries_view(it.seq()),
            entries_view(sorted@) == ordered(all.take(it.index() as int)),
    {
        let ghost n = it.index() as int;
        assert(all.take(n + 1).drop_last() =~= all.take(n));
        place(&mut sorted, e);
    }
    assert(all.take(all.len() as int) =~= all);
    let mut out: Vec<Skill> = Vec::new();
    let ghost view = entries_view(sorted@);
    assert(skills_view(out@) =~= skills_among(view.take(0)));
    let mut i: usize = 0;
    while i < sorted.len()
        invariant
            i <= sorted@.len(),
            view == entries_view(sorted@),
            skills_view(out@) == skills_among(view.take(i as int)),
        decreases sorted@.len() - i,
    {
        assert(view.take(i + 1).drop_last() =~= view.take(i as int));
        let ghost had = skills_view(out@);
        if sorted[i].is_dir {
            let skill = read_skill(&sorted[i]);
            out.push(skill);
            assert(skills_view(out@) =~= had.push(skill@));
        }
        i = i + 1;
    }
    assert(view.take(i as int) =~= view);
    out
}

/// A skill's line in the notice.
pub open spec fn notice_item(s: SkillView) -> Seq<char> {
    match s.description {
        Some(description) => "- `"@ + s.name + "`: "@ + description,
        None => "- `"@ + s.name + "`"@,
    }
}

/// The notice that lists the skills by name, so that the model reaches for a
/// matching one. Nothing without skills.
pub open spec fn notice(skills: Seq<SkillView>) -> Option<Seq<char>> {
    if skills.len() == 0 {
        None
    } else {
        Some(
            "You're in a workspace and can run tools. These skills are available — read `skills/<name>/SKILL.md` for how to use one and run its scripts with bash. Prefer a matching skill over ad-hoc commands:\n"@
                + text::joined(skills.map_values(|s: SkillView| notice_item(s)), "\n"@),
        )
    }
}

/// The skills notice for a tool-aware prompt; `None` when there are no skills.
pub fn skills_notice(skills: &[Skill]) -> (r: Option<String>)
    ensures
        text::opt_text(r) == notice(skills_view(skills@)),
{
    if skills.len() == 0 {
        return None;
    }
    let mut items: Vec<String> = Vec::new();
    let mut i: usize = 0;
    while i < skills.len()
        invariant
            i <= skills@.len(),
            items@.len() == i,
            forall|k: int| 0 <= k < i ==> (#[trigger] items@[k])@ == notice_item(skills@[k]@),
        decreases skills@.len() - i,
    {
        let mut item: String = "- `".to_owned();
        item.append(skills[i].name.as_str());
        match &skills[i].description {
            Some(description) => {
                item.append("`: ");
                item.append(description.as_str());
            },
            None => {
                item.append("`");
            },
        }
        items.push(item);
        i = i + 1;
    }
    assert(text::texts(items@) =~= skills_view(skills@).map_values(|s: SkillView| notice_item(s)));
    let mut out: String =
        "You're in a workspace and can run tools. These skills are available — read `skills/<name>/SKILL.md` for how to use one and run its scripts with bash. Prefer a matching skill over ad-hoc commands:\n".to_owned();
    out.append(text::join(&items, "\n").as_str());
    Some(out)
}

/// The skill trees to provision, in order.
pub open spec fn sources_of<T>(repo: Option<T>, channel: Option<T>) -> Seq<T> {
    match (repo, channel) {
        (Some(a), Some(b)) => seq![a, b],
        (Some(a), None) => seq![a],
        (None, Some(b)) => seq![b],
        (None, None) => seq![],
    }
}

/// The skill trees to provision, in order: the repository's first, then the
/// channel's overrides on top, so that the channel's files win. A tree that is
/// absent (`None`) is skipped.
pub fn skill_sources<T>(repo: Option<T>, channel: Option<T>) -> (r: Vec<T>)
    ensures
        r@ == sources_of(repo, channel),
        r@ == match (repo, channel) {
            (Some(a), Some(b)) => seq![a, b],
            (Some(a), None) => seq![a],
            (None, Some(b)) => seq![b],
            (None, None) => seq![],
        },
{
    let mut out: Vec<T> = Vec::new();
    if let Some(dir) = repo {
        out.push(dir);
    }
    if let Some(dir) = channel {
        out.push(dir);
    }
    out
}

/// A number for each channel, given out on first use: the turns of a channel
/// are serialized by the lock that its number stands for.
pub struct ChannelSlots {
    slots: StringHashMap<usize>,
}

impl View for ChannelSlots {
    type V = Map<Seq<char>, usize>;

    closed spec fn view(&self) -> Map<Seq<char>, usize> {
        self.slots@
    }
}

/// Whether the numbers given out are the first ones, each to one channel only.
pub open spec fn one_each(slots: Map<Seq<char>, usize>) -> bool {
    &&& slots.dom().finite()
    &&& forall|c: Seq<char>| #[trigger] slots.dom().contains(c) ==> slots[c] < slots.len()
    &&& forall|c: Seq<char>, d: Seq<char>|
        #![trigger slots[c], slots[d]]
        slots.dom().contains(c) && slots.dom().contains(d) && c != d ==> slots[c] != slots[d]
}

impl ChannelSlots {
    #[verifier::type_invariant]
    spec fn well_formed(self) -> bool {
        one_each(self.slots@)
    }

    /// No channel has a number yet.
    pub fn new() -> (r: ChannelSlots)
        ensures
            r@ == Map::<Seq<char>, usize>::empty(),
    {
        ChannelSlots { slots: StringHashMap::new() }
    }

    /// The channel's number: the one it has, or else the next one. No two
    /// channels share one.
    pub fn slot(&mut self, channel: &str) -> (r: usize)
        ensures
            one_each(final(self)@),
            final(self)@.dom().contains(channel@) && final(self)@[channel@] == r,
            if old(self)@.dom().contains(channel@) {
                final(self)@ == old(self)@
            } else {
                r == old(self)@.len() && final(self)@ == old(self)@.insert(channel@, r)
            },
    {
        proof {
            use_type_invariant(&*self);
        }
        if let Some(n) = self.slots.get(channel) {
            return *n;
        }
        let n: usize = self.slots.len();
        let mut slots: StringHashMap<usize> = StringHashMap::new();
        std::mem::swap(&mut slots, &mut self.slots);
        slots.insert(channel.to_owned(), n);
        self.slots = slots;
        n
    }
}

/// What a channel's container is made with.
#[derive(Debug, PartialEq, Eq)]
pub struct SandboxSettings {
    pub image: String,
    pub memory: String,
    pub cpus: String,
    pub pids_limit: u32,
    pub network: Option<String>,
    /// The host user, as `uid:gid`, so that the files it writes are host-owned.
    pub user: String,
    /// The environment passed in, by name and value.
    pub env: Vec<(String, String)>,
    /// How long a sandbox may go without a turn.
    pub idle_seconds: u64,
}

/// The variables that have a value, with it.
pub open spec fn env_set(names: Seq<Seq<char>>, values: Seq<Option<Seq<char>>>) -> Seq<
    (Seq<char>, Seq<char>),
>
    decreases names.len(),
{
    if names.len() == 0 || names.len() != values.len() {
        seq![]
    } else {
        let rest = env_set(names.drop_last(), values.drop_last());
        match values.last() {
            Some(value) => rest.push((names.last(), value)),
            None => rest,
        }
    }
}

/// The pairs of an environment.
pub open spec fn env_view(v: Seq<(String, String)>) -> Seq<(Seq<char>, Seq<char>)> {
    v.map_values(|p: (String, String)| (p.0@, p.1@))
}

/// The values of an environment.
pub open spec fn values_view(v: Seq<Option<String>>) -> Seq<Option<Seq<char>>> {
    v.map_values(|s: Option<String>| text::opt_text(s))
}

/// The mathematical form of [`SandboxSettings`].
pub struct SettingsView {
    pub image: Seq<char>,
    pub memory: Seq<char>,
    pub cpus: Seq<char>,
    pub pids_limit: u32,
    pub network: Option<Seq<char>>,
    pub user: Seq<char>,
    pub env: Seq<(Seq<char>, Seq<char>)>,
    pub idle_seconds: int,
}

impl View for SandboxSettings {
    type V = SettingsView;

    open spec fn view(&self) -> SettingsView {
        SettingsView {
            image: self.image@,
            memory: self.memory@,
            cpus: self.cpus@,
            pids_limit: self.pids_limit,
            network: text::opt_text(self.network),
            user: self.user@,
            env: env_view(self.env@),
            idle_seconds: self.idle_seconds as int,
        }
    }
}

/// The settings of a channel's container.
pub open spec fn settings_of(
    config: Sandbox,
    uid: u32,
    gid: u32,
    values: Seq<Option<Seq<char>>>,
) -> SettingsView {
    SettingsView {
        image: config.image@,
        memory: config.memory@,
        cpus: config.cpus@,
        pids_limit: config.pids,
        network: text::opt_text(config.network),
        user: text::digits(uid as nat) + ":"@ + text::digits(gid as nat),
        env: env_set(text::texts(config.env@), values),
        idle_seconds: config.idle_minutes * 60,
    }
}

/// The settings of a channel's container: the config's, run as the host user,
/// with the configured variables that `values` holds a value for.
pub fn sandbox_settings(
    config: &Sandbox,
    uid: u32,
    gid: u32,
    values: &Vec<Option<String>>,
) -> (r: SandboxSettings)
    requires
        values@.len() == config.env@.len(),
        config.idle_minutes * 60 <= u64::MAX,
    ensures
        r@ == settings_of(*config, uid, gid, values_view(values@)),
        r.image@ == config.image@,
        r.memory@ == config.memory@,
        r.cpus@ == config.cpus@,
        r.pids_limit == config.pids,
        text::opt_text(r.network) == text::opt_text(config.network),
        r.user@ == text::digits(uid as nat) + ":"@ + text::digits(gid as nat),
        env_view(r.env@) == env_set(text::texts(config.env@), values_view(values@)),
        r.idle_seconds == config.idle_minutes * 60,
{
    let mut user: String = text::decimal(uid);
    user.append(":");
    user.append(text::decimal(gid).as_str());
    let mut env: Vec<(String, String)> = Vec::new();
    let ghost names = text::texts(config.env@);
    let ghost all = values_view(values@);
    let mut i: usize = 0;
    assert(env_view(env@) =~= env_set(names.take(0), all.take(0)));
    while i < config.env.len()
        invariant
            i <= config.env@.len(),
            values@.len() == config.env@.len(),
            names == text::texts(config.env@),
            all == values_view(values@),
            env_view(env@) == env_set(names.take(i as int), all.take(i as int)),
        decreases config.env@.len() - i,
    {
        assert(names.take(i + 1).drop_last() =~= names.take(i as int));
        assert(all.take(i + 1).drop_last() =~= all.take(i as int));
        let ghost had = env_view(env@);
        if let Some(value) = &values[i] {
            env.push((config.env[i].clone(), value.clone()));
            assert(env_view(env@) =~= had.push((names[i as int], value@)));
        }
        i = i + 1;
    }
    assert(names.take(i as int) =~= names);
    assert(all.take(i as int) =~= all);
    SandboxSettings {
        image: config.image.clone(),
        memory: config.memory.clone(),
        cpus: config.cpus.clone(),
        pids_limit: config.pids,
        network: text::copy_text(&config.network),
        user,
        env,
        idle_seconds: config.idle_minutes * 60,
    }
}

proof fn lemma_precedes(a: Seq<u8>, b: Seq<u8>)
    ensures
        !precedes(a, a),
        precedes(a, b) ==> !precedes(b, a),
        !precedes(a, b) && !precedes(b, a) ==> a == b,
    decreases a.len(),
{
    if a.len() > 0 {
        lemma_precedes(a.drop_first(), if b.len() > 0 {
            b.drop_first()
        } else {
            b
        });
        if b.len() > 0 && a[0] == b[0] && a.drop_first() == b.drop_first() {
            assert(a =~= seq![a[0]] + a.drop_first());
            assert(b =~= seq![b[0]] + b.drop_first());
        }
    }
    if a.len() == 0 && b.len() == 0 {
        assert(a =~= b);
    }
}

proof fn lemma_precedes_follows(a: Seq<u8>, b: Seq<u8>, c: Seq<u8>)
    requires
        !precedes(b, a),
        !precedes(c, b),
    ensures
        !precedes(c, a),
    decreases a.len(),
{
    if a.len() > 0 && b.len() > 0 && c.len() > 0 && a[0] == b[0] && b[0] == c[0] {
        lemma_precedes_follows(a.drop_first(), b.drop_first(), c.drop_first());
    }
}

/// Whether no entry comes before one that stands ahead of it.
pub open spec fn in_order(v: Seq<EntryView>) -> bool {
    forall|i: int, j: int|
        0 <= i <= j < v.len() ==> !precedes((#[trigger] v[j]).key, (#[trigger] v[i]).key)
}

proof fn lemma_placed_in_order(v: Seq<EntryView>, e: EntryView)
    requires
        in_order(v),
    ensures
        in_order(placed(v, e)),
        placed(v, e).to_multiset() == v.to_multiset().insert(e),
        placed(v, e).len() == v.len() + 1,
        forall|k: int|
            0 <= k < placed(v, e).len() ==> (#[trigger] placed(v, e)[k]) == e || v.contains(
                placed(v, e)[k],
            ),
    decreases v.len(),
{
    broadcast use vstd::seq_lib::group_to_multiset_ensures;

    let p = placed(v, e);
    if v.len() == 0 || !precedes(e.key, v.last().key) {
        assert forall|i: int, j: int| 0 <= i <= j < p.len() implies !precedes(
            (#[trigger] p[j]).key,
            (#[trigger] p[i]).key,
        ) by {
            lemma_precedes(e.key, e.key);
            if j == v.len() && i < j {
                assert(!precedes(v[v.len() - 1].key, v[i].key));
                lemma_precedes_follows(v[i].key, v.last().key, e.key);
            }
        }
        assert forall|k: int| 0 <= k < p.len() implies (#[trigger] p[k]) == e || v.contains(p[k]) by {
            if k < v.len() {
                assert(v[k] == p[k]);
            }
        }
    } else {
        let head = v.drop_last();
        let last = v.last();
        assert(in_order(head)) by {
            assert forall|i: int, j: int| 0 <= i <= j < head.len() implies !precedes(
                (#[trigger] head[j]).key,
                (#[trigger] head[i]).key,
            ) by {
                assert(v[i] == head[i] && v[j] == head[j]);
            }
        }
        lemma_placed_in_order(head, e);
        let q = placed(head, e);
        assert(v =~= head.push(last));
        assert(p.to_multiset() =~= v.to_multiset().insert(e));
        lemma_precedes(e.key, last.key);
        assert forall|k: int| 0 <= k < q.len() implies !precedes(last.key, (#[trigger] q[k]).key) by {
            if q[k] != e {
                let at = choose|at: int| 0 <= at < head.len() && head[at] == q[k];
                assert(v[at] == q[k]);
                assert(!precedes(v[v.len() - 1].key, v[at].key));
            }
        }
        assert forall|i: int, j: int| 0 <= i <= j < p.len() implies !precedes(
            (#[trigger] p[j]).key,
            (#[trigger] p[i]).key,
        ) by {
            if j < q.len() {
                assert(q[i] == p[i] && q[j] == p[j]);
            } else if i < q.len() {
                assert(q[i] == p[i]);
            } else {
                lemma_precedes(last.key, last.key);
            }
        }
        assert forall|k: int| 0 <= k < p.len() implies (#[trigger] p[k]) == e || v.contains(p[k]) by {
            if k < q.len() {
                assert(q[k] == p[k]);
                if q[k] != e {
                    let at = choose|at: int| 0 <= at < head.len() && head[at] == q[k];
                    assert(v[at] == p[k]);
                }
            } else {
                assert(v[v.len() - 1] == p[k]);
            }
        }
    }
}

/// The listing is in the order of the file names, and holds every entry of the
/// directory exactly as often as the directory does.
pub proof fn law_the_listing_is_sorted(entries: Seq<EntryView>)
    ensures
        in_order(ordered(entries)),
        ordered(entries).to_multiset() == entries.to_multiset(),
    decreases entries.len(),
{
    broadcast use vstd::seq_lib::group_to_multiset_ensures;

    if entries.len() > 0 {
        law_the_listing_is_sorted(entries.drop_last());
        lemma_placed_in_order(ordered(entries.drop_last()), entries.last());
        assert(entries =~= entries.drop_last().push(entries.last()));
    }
}

proof fn lemma_first_value(lines: Seq<Seq<char>>, key: Seq<char>)
    ensures
        first_value(lines, key) matches Some(v) ==> text::is_trim(v),
    decreases lines.len(),
{
    if lines.len() > 0 {
        if let Some(parts) = text::divided(lines[0], CharSet::One(':')) {
            text::lemma_trimmed(
                text::strip(text::trimmed(parts.1), CharSet::Either('"', '\'')),
            );
        }
        lemma_first_value(lines.drop_first(), key);
    }
}

proof fn lemma_headline(lines: Seq<Seq<char>>)
    ensures
        headline(lines) matches Some(v) ==> v.len() > 0 && text::is_trim(v),
    decreases lines.len(),
{
    if lines.len() > 0 {
        text::lemma_trimmed(text::strip_start(lines[0], CharSet::One('#')));
        lemma_headline(lines.drop_first());
    }
}

/// What a skill file says of a skill is never blank and has no white space
/// around it, and a file without frontmatter gives no arguments.
pub proof fn law_skill_metadata_is_never_blank(text: Seq<char>)
    ensures
        skill_meta(text).0 matches Some(v) ==> v.len() > 0 && text::is_trim(v),
        skill_meta(text).1 matches Some(v) ==> v.len() > 0 && text::is_trim(v),
        fenced(text) is None ==> skill_meta(text).1 is None,
{
    lemma_headline(text::lines_of(text));
    if let Some(front) = fenced(text) {
        lemma_first_value(text::lines_of(front), "description"@);
        lemma_first_value(text::lines_of(front), "args"@);
    }
}

} // verus!
