use tapir_bot::access::{
    allows, answers_nothing, Access, ChannelAccess, Channels, DmAccess, LoopGuard,
    MAX_TRACKED_THREADS,
};
use tapir_bot::event::Inbound;

fn msg(channel: &str, user: &str, is_bot: bool, is_dm: bool) -> Inbound {
    Inbound {
        channel: channel.into(),
        ts: "1.1".into(),
        thread: "1.1".into(),
        user: user.into(),
        text: "hi".into(),
        is_bot,
        is_dm,
        continuation: false,
    }
}

fn access_with_channel(id: &str, users: Vec<&str>) -> Access {
    let mut access = Access::default();
    access.channels.insert(
        id.into(),
        ChannelAccess { users: users.into_iter().map(String::from).collect() },
    );
    access
}

#[test]
fn an_unlisted_channel_is_denied() {
    let access = access_with_channel("C1", vec![]);
    assert!(!allows(&access, &msg("C2", "U1", false, false)));
}

#[test]
fn a_listed_channel_allows_any_member() {
    let access = access_with_channel("C1", vec![]);
    assert!(allows(&access, &msg("C1", "U-anyone", false, false)));
}

#[test]
fn a_channel_user_restriction_is_enforced() {
    let access = access_with_channel("C1", vec!["U1"]);
    assert!(allows(&access, &msg("C1", "U1", false, false)));
    assert!(!allows(&access, &msg("C1", "U2", false, false)));
}

#[test]
fn a_dm_is_allowed_only_for_listed_users() {
    let access = Access { dm: DmAccess { users: vec!["U1".into()] }, ..Access::default() };
    assert!(allows(&access, &msg("D1", "U1", false, true)));
    assert!(!allows(&access, &msg("D1", "U2", false, true)));
}

#[test]
fn bots_are_denied_unless_allow_bots() {
    let mut access = access_with_channel("C1", vec![]);
    assert!(!allows(&access, &msg("C1", "U-bot", true, false)), "off by default");
    access.allow_bots = true;
    assert!(allows(&access, &msg("C1", "U-bot", true, false)), "on when allowed");
}

#[test]
fn a_bot_in_an_unlisted_channel_is_still_denied() {
    let mut access = access_with_channel("C1", vec![]);
    access.allow_bots = true;
    assert!(!allows(&access, &msg("C2", "U-bot", true, false)));
}

#[test]
fn a_bot_dm_rides_allow_bots_not_the_user_list() {
    let mut access = Access::default(); // no dm users
    assert!(!allows(&access, &msg("D1", "U-bot", true, true)), "off by default");
    access.allow_bots = true;
    assert!(allows(&access, &msg("D1", "U-bot", true, true)), "on when allowed");
}

#[test]
fn the_loop_guard_caps_bot_turns_per_thread() {
    let mut guard = LoopGuard::new(2);
    assert!(guard.allow_bot_turn("T1"), "1st bot turn");
    assert!(guard.allow_bot_turn("T1"), "2nd bot turn");
    assert!(!guard.allow_bot_turn("T1"), "3rd is over the cap");
    assert!(!guard.allow_bot_turn("T1"), "stays capped");
}

#[test]
fn the_loop_guard_counts_threads_independently() {
    let mut guard = LoopGuard::new(1);
    assert!(guard.allow_bot_turn("T1"));
    assert!(!guard.allow_bot_turn("T1"), "T1 capped");
    assert!(guard.allow_bot_turn("T2"), "T2 has its own budget");
}

#[test]
fn a_zero_limit_lets_no_bot_through() {
    let mut guard = LoopGuard::new(0);
    assert!(!guard.allow_bot_turn("T1"));
    assert!(!guard.allow_bot_turn("T1"));
}

#[test]
fn a_full_guard_table_is_reset_by_a_new_thread() {
    let mut guard = LoopGuard::new(1);
    for i in 0..MAX_TRACKED_THREADS {
        assert!(guard.allow_bot_turn(&format!("T{i}")));
    }
    // A tracked thread does not reset the table.
    assert!(!guard.allow_bot_turn("T0"));
    // A new one does, and every thread gets a fresh budget.
    assert!(guard.allow_bot_turn("fresh"));
    assert!(guard.allow_bot_turn("T0"));
    assert!(!guard.allow_bot_turn("fresh"));
}

#[test]
fn the_default_policy_lists_nothing() {
    let access = Access::default();
    assert!(!access.allow_bots);
    assert_eq!(access.bot_turn_limit, 3);
    assert!(access.dm.users.is_empty());
    assert!(access.channels.is_empty());
    assert!(answers_nothing(&access));
    assert!(!answers_nothing(&access_with_channel("C1", vec![])));
    assert!(!answers_nothing(&Access { allow_bots: true, ..Access::default() }));
}

#[test]
fn channels_are_listed_once() {
    let mut channels = Channels::new();
    assert!(channels.is_empty());
    assert!(channels.insert("C1".into(), ChannelAccess::default()).is_none());
    assert!(channels.insert("C2".into(), ChannelAccess { users: vec!["U2".into()] }).is_none());
    let had = channels.insert("C1".into(), ChannelAccess { users: vec!["U1".into()] });
    assert!(had.expect("C1 was listed").users.is_empty());
    assert_eq!(channels.get("C1").unwrap().users, vec!["U1"]);
    assert_eq!(channels.get("C2").unwrap().users, vec!["U2"]);
    assert!(channels.contains_key("C2"));
    assert!(channels.get("C3").is_none());
    assert!(!channels.is_empty());
}

#[test]
fn a_cloned_policy_decides_the_same() {
    let mut access = access_with_channel("C1", vec!["U1"]);
    access.dm.users.push("U9".into());
    let copy = access.clone();
    for m in [
        msg("C1", "U1", false, false),
        msg("C1", "U2", false, false),
        msg("D1", "U9", false, true),
        msg("C1", "B", true, false),
    ] {
        assert_eq!(allows(&access, &m), allows(&copy, &m));
    }
}

#[test]
fn listing_more_keeps_who_was_admitted() {
    let narrow = access_with_channel("C1", vec!["U1"]);
    let mut wide = access_with_channel("C1", vec!["U1", "U2"]);
    wide.channels.insert("C2".into(), ChannelAccess::default());
    let m = msg("C1", "U1", false, false);
    assert!(allows(&narrow, &m) && allows(&wide, &m));
    assert!(allows(&wide, &msg("C2", "U3", false, false)));
}
