//! The access policy and the decision it drives: who may make the bot take a
//! turn, where. The policy is generic over opaque channel and user ids, so any
//! backend can embed an [`Access`] in its own config and call [`allows`]. The
//! decision is pure; the per-thread bot loop cap ([`LoopGuard`]) is stateful
//! and lives in the backend's read loop.
use vstd::hash_map::StringHashMap;
use vstd::prelude::*;

use crate::event::{Inbound, InboundView};
use crate::text;
use crate::text::same;

verus! {

/// The access policy. Deny-by-default: only what is listed here triggers.
/// Bots are gated by `allow_bots` plus a per-thread turn cap.
#[derive(Debug)]
pub struct Access {
    /// Whether bot-authored messages may trigger turns at all. Off by default.
    pub allow_bots: bool,
    /// The cap on bot-triggered turns per thread, breaking bot-to-bot loops.
    pub bot_turn_limit: u32,
    /// Who may send the bot direct messages.
    pub dm: DmAccess,
    /// The listed channels. One that is not listed is ignored entirely.
    pub channels: Channels,
}

/// The mathematical form of an [`Access`]: the channels map to their users.
pub struct AccessView {
    pub allow_bots: bool,
    pub bot_turn_limit: u32,
    pub dm_users: Seq<Seq<char>>,
    pub channels: Map<Seq<char>, Seq<Seq<char>>>,
}

impl View for Access {
    type V = AccessView;

    open spec fn view(&self) -> AccessView {
        AccessView {
            allow_bots: self.allow_bots,
            bot_turn_limit: self.bot_turn_limit,
            dm_users: text::texts(self.dm.users@),
            channels: self.channels@,
        }
    }
}

/// The policy that denies everyone.
pub open spec fn deny_all() -> AccessView {
    AccessView {
        allow_bots: false,
        bot_turn_limit: 3,
        dm_users: seq![],
        channels: Map::empty(),
    }
}

impl Default for Access {
    /// Nothing is listed, so nothing triggers.
    fn default() -> (r: Access)
        ensures
            r@ == deny_all(),
    {
        let r = Access {
            allow_bots: false,
            bot_turn_limit: 3,
            dm: DmAccess::default(),
            channels: Channels::new(),
        };
        assert(r@.channels =~= deny_all().channels);
        r
    }
}

impl Clone for Access {
    fn clone(&self) -> (r: Access)
        ensures
            r@ == self@,
    {
        Access {
            allow_bots: self.allow_bots,
            bot_turn_limit: self.bot_turn_limit,
            dm: self.dm.clone(),
            channels: self.channels.clone(),
        }
    }
}

/// The policy for direct messages: the user allowlist. Empty means no one.
#[derive(Debug)]
pub struct DmAccess {
    /// Stable user ids allowed to send the bot direct messages.
    pub users: Vec<String>,
}

impl Default for DmAccess {
    fn default() -> (r: DmAccess)
        ensures
            text::texts(r.users@) == Seq::<Seq<char>>::empty(),
    {
        let r = DmAccess { users: Vec::new() };
        assert(text::texts(r.users@) =~= seq![]);
        r
    }
}

impl Clone for DmAccess {
    fn clone(&self) -> (r: DmAccess)
        ensures
            text::texts(r.users@) == text::texts(self.users@),
    {
        DmAccess { users: text::copy_texts(&self.users) }
    }
}

/// One listed channel's rule: everyone may mention the bot, or only the listed
/// users when there are any.
#[derive(Debug)]
pub struct ChannelAccess {
    /// When non-empty, only these user ids may trigger turns in this channel.
    pub users: Vec<String>,
}

impl Default for ChannelAccess {
    fn default() -> (r: ChannelAccess)
        ensures
            text::texts(r.users@) == Seq::<Seq<char>>::empty(),
    {
        let r = ChannelAccess { users: Vec::new() };
        assert(text::texts(r.users@) =~= seq![]);
        r
    }
}

impl Clone for ChannelAccess {
    fn clone(&self) -> (r: ChannelAccess)
        ensures
            text::texts(r.users@) == text::texts(self.users@),
    {
        ChannelAccess { users: text::copy_texts(&self.users) }
    }
}

/// The listed channels, each with its rule. No channel is listed twice.
#[derive(Debug)]
pub struct Channels {
    list: Vec<(String, ChannelAccess)>,
}

/// The rules by channel.
spec fn rules(list: Seq<(String, ChannelAccess)>) -> Map<Seq<char>, Seq<Seq<char>>>
    decreases list.len(),
{
    if list.len() == 0 {
        Map::empty()
    } else {
        rules(list.drop_last()).insert(list.last().0@, text::texts(list.last().1.users@))
    }
}

/// Whether no channel is listed twice.
spec fn listed_once(list: Seq<(String, ChannelAccess)>) -> bool {
    forall|i: int, j: int| 0 <= i < j < list.len() ==> (#[trigger] list[i]).0@ != (#[trigger] list[j]).0@
}

proof fn lemma_rules(list: Seq<(String, ChannelAccess)>)
    requires
        listed_once(list),
    ensures
        forall|k: int|
            0 <= k < list.len() ==> rules(list).dom().contains((#[trigger] list[k]).0@)
                && rules(list)[list[k].0@] == text::texts(list[k].1.users@),
        forall|key: Seq<char>| #[trigger]
            rules(list).dom().contains(key) ==> exists|k: int|
                0 <= k < list.len() && (#[trigger] list[k]).0@ == key,
    decreases list.len(),
{
    if list.len() > 0 {
        let head = list.drop_last();
        assert(listed_once(head));
        lemma_rules(head);
        assert forall|k: int| 0 <= k < list.len() implies rules(list).dom().contains(
            (#[trigger] list[k]).0@,
        ) && rules(list)[list[k].0@] == text::texts(list[k].1.users@) by {
            if k < list.len() - 1 {
                assert(head[k] == list[k]);
                assert(list[k].0@ != list[list.len() - 1].0@);
            }
        }
        assert forall|key: Seq<char>| #[trigger] rules(list).dom().contains(key) implies exists|k: int|
            0 <= k < list.len() && (#[trigger] list[k]).0@ == key by {
            if key == list.last().0@ {
                assert(list[list.len() - 1].0@ == key);
            } else {
                assert(rules(head).dom().contains(key));
                let k = choose|k: int| 0 <= k < head.len() && (#[trigger] head[k]).0@ == key;
                assert(list[k].0@ == key);
            }
        }
    }
}

impl View for Channels {
    type V = Map<Seq<char>, Seq<Seq<char>>>;

    closed spec fn view(&self) -> Map<Seq<char>, Seq<Seq<char>>> {
        rules(self.list@)
    }
}

impl Channels {
    #[verifier::type_invariant]
    spec fn well_formed(self) -> bool {
        listed_once(self.list@)
    }

    /// No channel is listed.
    pub fn new() -> (r: Channels)
        ensures
            r@ == Map::<Seq<char>, Seq<Seq<char>>>::empty(),
    {
        Channels { list: Vec::new() }
    }

    /// Where `channel` is listed.
    fn position(&self, channel: &str) -> (r: Option<usize>)
        ensures
            match r {
                Some(i) => i < self.list@.len() && self.list@[i as int].0@ == channel@
                    && self@.dom().contains(channel@) && self@[channel@] == text::texts(
                    self.list@[i as int].1.users@,
                ),
                None => !self@.dom().contains(channel@) && forall|k: int|
                    0 <= k < self.list@.len() ==> (#[trigger] self.list@[k]).0@ != channel@,
            },
    {
        proof {
            use_type_invariant(self);
            lemma_rules(self.list@);
        }
        let mut i: usize = 0;
        while i < self.list.len()
            invariant
                i <= self.list@.len(),
                forall|k: int| 0 <= k < i ==> (#[trigger] self.list@[k]).0@ != channel@,
                forall|k: int|
                    0 <= k < self.list@.len() ==> rules(self.list@).dom().contains(
                        (#[trigger] self.list@[k]).0@,
                    ) && rules(self.list@)[self.list@[k].0@] == text::texts(self.list@[k].1.users@),
            decreases self.list@.len() - i,
        {
            if same(self.list[i].0.as_str(), channel) {
                return Some(i);
            }
            i = i + 1;
        }
        None
    }

    /// The rule of a listed channel.
    pub fn get(&self, channel: &str) -> (r: Option<&ChannelAccess>)
        ensures
            match r {
                Some(rule) => self@.dom().contains(channel@) && self@[channel@] == text::texts(
                    rule.users@,
                ),
                None => !self@.dom().contains(channel@),
            },
    {
        match self.position(channel) {
            Some(i) => Some(&self.list[i].1),
            None => None,
        }
    }

    /// Whether the channel is listed.
    pub fn contains_key(&self, channel: &str) -> (r: bool)
        ensures
            r == self@.dom().contains(channel@),
    {
        self.position(channel).is_some()
    }

    /// Whether no channel is listed.
    pub fn is_empty(&self) -> (r: bool)
        ensures
            r == (self@ == Map::<Seq<char>, Seq<Seq<char>>>::empty()),
    {
        proof {
            use_type_invariant(self);
            lemma_rules(self.list@);
        }
        if self.list.len() > 0 {
            assert(self@.dom().contains(self.list@[0].0@));
            return false;
        }
        true
    }

    /// List a channel; the rule it had, if it was listed already.
    pub fn insert(&mut self, channel: String, rule: ChannelAccess) -> (r: Option<ChannelAccess>)
        ensures
            final(self)@ == old(self)@.insert(channel@, text::texts(rule.users@)),
            match r {
                Some(had) => old(self)@.dom().contains(channel@) && old(self)@[channel@]
                    == text::texts(had.users@),
                None => !old(self)@.dom().contains(channel@),
            },
    {
        let ghost before = self.list@;
        let at = self.position(channel.as_str());
        proof {
            use_type_invariant(&*self);
            lemma_rules(before);
        }
        let mut list: Vec<(String, ChannelAccess)> = Vec::new();
        std::mem::swap(&mut list, &mut self.list);
        let mut had: Option<ChannelAccess> = None;
        let ghost key = channel@;
        let ghost users = text::texts(rule.users@);
        match at {
            Some(i) => {
                let mut entry = (channel, rule);
                std::mem::swap(&mut list[i], &mut entry);
                had = Some(entry.1);
                assert(before[i as int].0@ == key);
                assert(list@ =~= before.update(i as int, list@[i as int]));
            },
            None => {
                list.push((channel, rule));
                assert(list@.drop_last() =~= before);
            },
        }
        proof {
            lemma_inserted(before, list@, key, users);
        }
        self.list = list;
        had
    }
}

/// A list with one rule changed, or one added, has the rules with that one
/// inserted.
proof fn lemma_inserted(
    before: Seq<(String, ChannelAccess)>,
    after: Seq<(String, ChannelAccess)>,
    key: Seq<char>,
    users: Seq<Seq<char>>,
)
    requires
        listed_once(before),
        ({
            ||| after.len() == before.len() + 1 && after.drop_last() == before
                && after.last().0@ == key && text::texts(after.last().1.users@) == users
                && forall|k: int| 0 <= k < before.len() ==> (#[trigger] before[k]).0@ != key
            ||| exists|i: int|
                0 <= i < before.len() && (#[trigger] before[i]).0@ == key && after == before.update(
                    i,
                    after[i],
                ) && after[i].0@ == key && text::texts(after[i].1.users@) == users
        }),
    ensures
        listed_once(after),
        rules(after) == rules(before).insert(key, users),
{
    if after.len() == before.len() + 1 {
        assert forall|i: int, j: int| 0 <= i < j < after.len() implies (#[trigger] after[i]).0@ != (
        #[trigger] after[j]).0@ by {
            assert(after.drop_last()[i] == after[i]);
            if j < before.len() {
                assert(after.drop_last()[j] == after[j]);
            }
        }
    } else {
        let i = choose|i: int|
            0 <= i < before.len() && (#[trigger] before[i]).0@ == key && after == before.update(
                i,
                after[i],
            ) && after[i].0@ == key && text::texts(after[i].1.users@) == users;
        assert forall|a: int, b: int| 0 <= a < b < after.len() implies (#[trigger] after[a]).0@ != (
        #[trigger] after[b]).0@ by {
            assert(before[a].0@ != before[b].0@);
        }
        lemma_rules(before);
        lemma_rules(after);
        let grown = rules(before).insert(key, users);
        assert forall|k: Seq<char>| #[trigger]
            rules(after).dom().contains(k) <==> grown.dom().contains(k) by {
            if rules(after).dom().contains(k) {
                let at = choose|at: int| 0 <= at < after.len() && (#[trigger] after[at]).0@ == k;
                if at != i {
                    assert(before[at].0@ == k);
                }
            }
            if rules(before).dom().contains(k) {
                let at = choose|at: int| 0 <= at < before.len() && (#[trigger] before[at]).0@ == k;
                assert(after[at].0@ == k);
            }
            if k == key {
                assert(after[i].0@ == key);
            }
        }
        assert forall|k: Seq<char>| #[trigger] rules(after).dom().contains(k) implies rules(after)[k]
            == grown[k] by {
            let at = choose|at: int| 0 <= at < after.len() && (#[trigger] after[at]).0@ == k;
            if at != i {
                assert(before[at].0@ == k);
                assert(before[at].0@ != before[i].0@);
            }
        }
        assert(rules(after) =~= grown);
    }
}

impl Clone for Channels {
    fn clone(&self) -> (r: Channels)
        ensures
            r@ == self@,
    {
        let mut out: Vec<(String, ChannelAccess)> = Vec::new();
        proof {
            use_type_invariant(self);
        }
        let mut i: usize = 0;
        while i < self.list.len()
            invariant
                i <= self.list@.len(),
                out@.len() == i,
                listed_once(self.list@),
                forall|k: int| 0 <= k < i ==> (#[trigger] out@[k]).0@ == self.list@[k].0@,
                rules(out@) == rules(self.list@.take(i as int)),
            decreases self.list@.len() - i,
        {
            let ghost before = out@;
            out.push((self.list[i].0.clone(), self.list[i].1.clone()));
            assert(out@.drop_last() =~= before);
            assert(self.list@.take(i + 1).drop_last() =~= self.list@.take(i as int));
            i = i + 1;
        }
        assert(self.list@.take(i as int) =~= self.list@);
        Channels { list: out }
    }
}

/// Whether the message may trigger a turn under the policy:
///
/// - a bot's only when `allow_bots`, and then in a direct message or a listed
///   channel;
/// - a direct message only from a listed user;
/// - a channel message only in a listed channel, from anyone when the channel
///   lists no users, else from a listed one.
pub open spec fn permits(access: AccessView, m: InboundView) -> bool {
    if m.is_bot {
        access.allow_bots && (m.is_dm || access.channels.dom().contains(m.channel))
    } else if m.is_dm {
        access.dm_users.contains(m.user)
    } else {
        access.channels.dom().contains(m.channel) && (access.channels[m.channel].len() == 0
            || access.channels[m.channel].contains(m.user))
    }
}

/// Whether `inbound` may trigger a turn under `access`. Deny-by-default; the
/// per-thread cap on bots is enforced separately.
pub fn allows(access: &Access, inbound: &Inbound) -> (r: bool)
    ensures
        r == permits(access@, inbound@),
{
    if inbound.is_bot && !access.allow_bots {
        return false;
    }
    if inbound.is_dm {
        return inbound.is_bot || text::any_same(&access.dm.users, inbound.user.as_str());
    }
    match access.channels.get(inbound.channel.as_str()) {
        Some(channel) => inbound.is_bot || channel.users.len() == 0 || text::any_same(
            &channel.users,
            inbound.user.as_str(),
        ),
        None => false,
    }
}

/// Whether the policy lists nothing.
pub open spec fn lists_nothing(access: AccessView) -> bool {
    access.channels == Map::<Seq<char>, Seq<Seq<char>>>::empty() && access.dm_users.len() == 0
        && !access.allow_bots
}

/// Whether the policy lists nothing, so that no message triggers.
pub fn answers_nothing(access: &Access) -> (r: bool)
    ensures
        r == lists_nothing(access@),
        r == (access@.channels == Map::<Seq<char>, Seq<Seq<char>>>::empty()
            && access@.dm_users.len() == 0 && !access@.allow_bots),
{
    access.channels.is_empty() && access.dm.users.len() == 0 && !access.allow_bots
}

/// How many threads the loop guard tracks at once, so a long-running bot does
/// not grow the table without bound.
pub const MAX_TRACKED_THREADS: usize = 4096;

/// Per-thread cap on bot-triggered turns, breaking bot-to-bot loops. In memory
/// and per process; loops are short-lived, so a coarse size bound is enough.
pub struct LoopGuard {
    limit: u32,
    counts: StringHashMap<u32>,
}

/// The mathematical form of a [`LoopGuard`]: the cap, and the turns counted in
/// each tracked thread.
pub struct LoopView {
    pub limit: u32,
    pub counts: Map<Seq<char>, u32>,
}

impl View for LoopGuard {
    type V = LoopView;

    closed spec fn view(&self) -> LoopView {
        LoopView { limit: self.limit, counts: self.counts@ }
    }
}

/// The table that a turn in `thread` is counted in: a full one is reset before
/// a thread that it does not track.
pub open spec fn table_for(v: LoopView, thread: Seq<char>) -> Map<Seq<char>, u32> {
    if v.counts.len() >= MAX_TRACKED_THREADS && !v.counts.dom().contains(thread) {
        Map::empty()
    } else {
        v.counts
    }
}

/// The turns counted in `thread` so far.
pub open spec fn counted(counts: Map<Seq<char>, u32>, thread: Seq<char>) -> u32 {
    if counts.dom().contains(thread) {
        counts[thread]
    } else {
        0
    }
}

/// Whether a bot turn in `thread` is within the limit.
pub open spec fn within_limit(v: LoopView, thread: Seq<char>) -> bool {
    counted(table_for(v, thread), thread) < v.limit
}

/// The guard after a bot turn in `thread` was recorded.
pub open spec fn recorded(v: LoopView, thread: Seq<char>) -> LoopView {
    let had = counted(table_for(v, thread), thread);
    LoopView {
        limit: v.limit,
        counts: table_for(v, thread).insert(
            thread,
            if had < v.limit {
                (had + 1) as u32
            } else {
                had
            },
        ),
    }
}

impl LoopGuard {
    /// A guard that allows `limit` bot turns per thread.
    pub fn new(limit: u32) -> (r: LoopGuard)
        ensures
            r@ == (LoopView { limit, counts: Map::empty() }),
    {
        LoopGuard { limit, counts: StringHashMap::new() }
    }

    /// Record a bot-triggered turn in `thread` and report whether it is within
    /// the limit: the first `limit` bot turns in a thread are, further ones are
    /// not (cutting the loop).
    pub fn allow_bot_turn(&mut self, thread: &str) -> (r: bool)
        ensures
            r == within_limit(old(self)@, thread@),
            final(self)@ == recorded(old(self)@, thread@),
    {
        if self.counts.len() >= MAX_TRACKED_THREADS && !self.counts.contains_key(thread) {
            self.counts.clear();
        }
        let count: u32 = match self.counts.get(thread) {
            Some(n) => *n,
            None => 0,
        };
        let within: bool = count < self.limit;
        let next: u32 = if within {
            count + 1
        } else {
            count
        };
        self.counts.insert(thread.to_owned(), next);
        within
    }
}

/// Deny-by-default: a policy that lists nothing admits no message.
pub proof fn law_nothing_listed_admits_nothing(m: InboundView)
    ensures
        !permits(deny_all(), m),
{
}

/// A channel that is not listed is ignored entirely, whoever writes in it.
pub proof fn law_an_unlisted_channel_is_ignored(access: AccessView, m: InboundView)
    requires
        !m.is_dm,
        !access.channels.dom().contains(m.channel),
    ensures
        !permits(access, m),
{
}

/// A bot rides `allow_bots`, never the user lists: without it no bot is
/// admitted, and who the lists name makes no difference to one.
pub proof fn law_bots_ride_allow_bots(access: AccessView, other: AccessView, m: InboundView)
    requires
        m.is_bot,
        access.allow_bots == other.allow_bots,
        access.channels.dom() == other.channels.dom(),
    ensures
        !access.allow_bots ==> !permits(access, m),
        permits(access, m) == permits(other, m),
{
}

/// Whether `wide` lists at least what `access` lists: the same channels and
/// more, each open to at least the same users.
pub open spec fn lists_more(access: AccessView, wide: AccessView) -> bool {
    &&& access.allow_bots ==> wide.allow_bots
    &&& forall|u: Seq<char>| access.dm_users.contains(u) ==> wide.dm_users.contains(u)
    &&& forall|c: Seq<char>| #[trigger]
        access.channels.dom().contains(c) ==> {
            &&& wide.channels.dom().contains(c)
            &&& wide.channels[c].len() == 0 || (access.channels[c].len() > 0 && forall|u: Seq<char>|
                access.channels[c].contains(u) ==> wide.channels[c].contains(u))
        }
}

/// Listing more never shuts out a message that was admitted.
pub proof fn law_listing_more_admits_more(access: AccessView, wide: AccessView, m: InboundView)
    requires
        lists_more(access, wide),
        permits(access, m),
    ensures
        permits(wide, m),
{
}

/// The guard after bot turns in these threads, one after the other.
pub open spec fn after_turns(v: LoopView, threads: Seq<Seq<char>>) -> LoopView
    decreases threads.len(),
{
    if threads.len() == 0 {
        v
    } else {
        recorded(after_turns(v, threads.drop_last()), threads.last())
    }
}

/// How many of the turns were in `thread`.
pub open spec fn turns_in(threads: Seq<Seq<char>>, thread: Seq<char>) -> nat
    decreases threads.len(),
{
    if threads.len() == 0 {
        0
    } else {
        turns_in(threads.drop_last(), thread) + if threads.last() == thread {
            1nat
        } else {
            0nat
        }
    }
}

/// What a fresh guard's table holds after the turns, while it tracks all of
/// their threads.
proof fn lemma_after_turns(limit: u32, threads: Seq<Seq<char>>)
    requires
        threads.to_set().len() <= MAX_TRACKED_THREADS,
    ensures
        ({
            let v = after_turns(LoopView { limit, counts: Map::empty() }, threads);
            &&& v.limit == limit
            &&& v.counts.dom() == threads.to_set()
            &&& forall|t: Seq<char>|
                #![trigger counted(v.counts, t)]
                counted(v.counts, t) == if turns_in(threads, t) < limit {
                    turns_in(threads, t)
                } else {
                    limit as nat
                }
        }),
    decreases threads.len(),
{
    let fresh = LoopView { limit, counts: Map::<Seq<char>, u32>::empty() };
    if threads.len() == 0 {
        assert(fresh.counts.dom() =~= threads.to_set());
    } else {
        let head = threads.drop_last();
        let last = threads.last();
        assert(threads =~= head.push(last));
        assert(threads.to_set() =~= head.to_set().insert(last)) by {
            assert forall|t: Seq<char>| threads.contains(t) implies head.contains(t) || t == last by {
                let k = choose|k: int| 0 <= k < threads.len() && threads[k] == t;
                if k < head.len() {
                    assert(head[k] == t);
                }
            }
            assert forall|t: Seq<char>| head.contains(t) implies threads.contains(t) by {
                let k = choose|k: int| 0 <= k < head.len() && head[k] == t;
                assert(threads[k] == t);
            }
            assert(threads[threads.len() - 1] == last);
        }
        vstd::seq_lib::seq_to_set_is_finite(head);
        lemma_after_turns(limit, head);
        let before = after_turns(fresh, head);
        let v = after_turns(fresh, threads);
        assert(before.counts.len() == head.to_set().len());
        assert(table_for(before, last) == before.counts);
        assert(v.counts.dom() =~= threads.to_set());
        assert forall|t: Seq<char>|
            #![trigger counted(v.counts, t)]
            counted(v.counts, t) == if turns_in(threads, t) < limit {
                turns_in(threads, t)
            } else {
                limit as nat
            } by {
            assert(counted(before.counts, t) == if turns_in(head, t) < limit {
                turns_in(head, t)
            } else {
                limit as nat
            });
        }
    }
}

/// The loop cap: as long as the table tracks every thread, a fresh guard lets a
/// bot turn through exactly when fewer than `limit` earlier ones were in its
/// thread. The turns of other threads, before or between, make no difference.
pub proof fn law_the_first_turns_of_a_thread_pass(
    limit: u32,
    earlier: Seq<Seq<char>>,
    thread: Seq<char>,
)
    requires
        earlier.push(thread).to_set().len() <= MAX_TRACKED_THREADS,
    ensures
        within_limit(
            after_turns(LoopView { limit, counts: Map::empty() }, earlier),
            thread,
        ) <==> turns_in(earlier, thread) < limit,
{
    let all = earlier.push(thread);
    let v = after_turns(LoopView { limit, counts: Map::empty() }, earlier);
    vstd::seq_lib::seq_to_set_is_finite(earlier);
    assert(all.to_set() =~= earlier.to_set().insert(thread)) by {
        assert forall|t: Seq<char>| all.contains(t) implies earlier.contains(t) || t == thread by {
            let k = choose|k: int| 0 <= k < all.len() && all[k] == t;
            if k < earlier.len() {
                assert(earlier[k] == t);
            }
        }
        assert forall|t: Seq<char>| earlier.contains(t) implies all.contains(t) by {
            let k = choose|k: int| 0 <= k < earlier.len() && earlier[k] == t;
            assert(all[k] == t);
        }
        assert(all[earlier.len() as int] == thread);
    }
    lemma_after_turns(limit, earlier);
    assert(table_for(v, thread) == v.counts);
    assert(counted(v.counts, thread) == if turns_in(earlier, thread) < limit {
        turns_in(earlier, thread)
    } else {
        limit as nat
    });
}

/// The table never outgrows its bound.
pub proof fn law_the_table_stays_bounded(v: LoopView, thread: Seq<char>)
    requires
        v.counts.dom().finite(),
        v.counts.len() <= MAX_TRACKED_THREADS,
    ensures
        recorded(v, thread).counts.dom().finite(),
        recorded(v, thread).counts.len() <= MAX_TRACKED_THREADS,
{
    let table = table_for(v, thread);
    assert(recorded(v, thread).counts.dom() =~= table.dom().insert(thread));
    if table.dom().contains(thread) {
        assert(table.dom().insert(thread) =~= table.dom());
    }
}

/// Who is admitted. A person's direct message is, exactly when its author is
/// among the users listed for direct messages; a person's channel message,
/// exactly when the channel is listed and either names no users or names its
/// author; a bot's message, exactly when bots are allowed and it is direct or
/// in a listed channel.
pub proof fn law_who_is_admitted(access: AccessView, m: InboundView)
    ensures
        !m.is_bot && m.is_dm ==> (permits(access, m) <==> exists|k: int|
            0 <= k < access.dm_users.len() && #[trigger] access.dm_users[k] == m.user),
        !m.is_bot && !m.is_dm ==> (permits(access, m) <==> {
            &&& access.channels.contains_key(m.channel)
            &&& access.channels[m.channel] == Seq::<Seq<char>>::empty() || exists|k: int|
                0 <= k < access.channels[m.channel].len() && #[trigger] access.channels[m.channel][k]
                    == m.user
        }),
        m.is_bot ==> (permits(access, m) <==> access.allow_bots && (m.is_dm
            || access.channels.contains_key(m.channel))),
{
    if access.channels[m.channel].len() == 0 {
        assert(access.channels[m.channel] =~= seq![]);
    }
}

/// Nothing of a message decides whether it is admitted but whether a bot wrote
/// it, whether it is direct, its channel and its author: not what it says, nor
/// when or in which thread it says it.
pub proof fn law_nothing_else_admits(access: AccessView, a: InboundView, b: InboundView)
    requires
        a.is_bot == b.is_bot,
        a.is_dm == b.is_dm,
        a.channel == b.channel,
        a.user == b.user,
    ensures
        permits(access, a) == permits(access, b),
{
}

/// Of the policy only what concerns the message decides: the list for direct
/// messages decides nothing in a channel, nor does one channel's rule decide
/// anything in another or in a direct message.
pub proof fn law_only_the_rule_of_its_place_decides(
    access: AccessView,
    other: AccessView,
    m: InboundView,
)
    requires
        access.allow_bots == other.allow_bots,
        m.is_dm ==> access.dm_users == other.dm_users,
        !m.is_dm ==> access.channels.contains_key(m.channel) == other.channels.contains_key(
            m.channel,
        ) && access.channels[m.channel] == other.channels[m.channel],
    ensures
        permits(access, m) == permits(other, m),
{
}

/// A bot turn counts in its own thread only: as long as the table has room, or
/// tracks the thread already, the turns that other threads have left stay what
/// they were, and its own go down by one until none is left. The cap never
/// changes.
pub proof fn law_a_turn_counts_in_its_thread(v: LoopView, thread: Seq<char>, other: Seq<char>)
    requires
        v.counts.len() < MAX_TRACKED_THREADS || v.counts.contains_key(thread),
    ensures
        recorded(v, thread).limit == v.limit,
        recorded(v, thread).counts.contains_key(thread),
        recorded(v, thread).counts[thread] == if !v.counts.contains_key(thread) {
            if v.limit == 0 {
                0int
            } else {
                1int
            }
        } else if v.counts[thread] < v.limit {
            v.counts[thread] + 1
        } else {
            v.counts[thread] as int
        },
        other != thread ==> {
            &&& recorded(v, thread).counts.contains_key(other) == v.counts.contains_key(other)
            &&& v.counts.contains_key(other) ==> recorded(v, thread).counts[other]
                == v.counts[other]
        },
        within_limit(v, thread) <==> if v.counts.contains_key(thread) {
            v.counts[thread] < v.limit
        } else {
            0 < v.limit
        },
{
}

/// A thread that a full table does not track starts over, and with it every
/// other one: its turn passes unless no turn does, and then it alone is counted.
pub proof fn law_a_full_table_starts_over(v: LoopView, thread: Seq<char>, other: Seq<char>)
    requires
        v.counts.len() >= MAX_TRACKED_THREADS,
        !v.counts.contains_key(thread),
    ensures
        within_limit(v, thread) <==> v.limit > 0,
        recorded(v, thread).limit == v.limit,
        recorded(v, thread).counts.contains_key(other) <==> other == thread,
        recorded(v, thread).counts[thread] == if v.limit > 0 {
            1int
        } else {
            0int
        },
{
}

/// A policy lists nothing exactly when it admits no message whatever: whatever
/// it lists, there is someone that it admits.
pub proof fn law_a_policy_that_lists_something_admits_someone(access: AccessView)
    ensures
        lists_nothing(access) <==> forall|m: InboundView| !permits(access, m),
{
    let none = Seq::<char>::empty();
    let any = InboundView {
        channel: none,
        ts: none,
        thread: none,
        user: none,
        text: none,
        is_bot: false,
        is_dm: true,
        continuation: false,
    };
    if access.allow_bots {
        assert(permits(access, InboundView { is_bot: true, ..any }));
    } else if access.dm_users.len() > 0 {
        assert(access.dm_users.contains(access.dm_users[0]));
        assert(permits(access, InboundView { user: access.dm_users[0], ..any }));
    } else if !lists_nothing(access) {
        assert(exists|c: Seq<char>| access.channels.contains_key(c)) by {
            if forall|c: Seq<char>| !access.channels.contains_key(c) {
                assert(access.channels =~= Map::empty());
            }
        }
        let c = choose|c: Seq<char>| access.channels.contains_key(c);
        let users = access.channels[c];
        let user = if users.len() == 0 {
            none
        } else {
            users[0]
        };
        if users.len() > 0 {
            assert(users.contains(users[0]));
        }
        assert(permits(access, InboundView { channel: c, user, is_dm: false, ..any }));
    }
}

} // verus!
