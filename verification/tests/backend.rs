use std::sync::atomic::{AtomicUsize, Ordering};

use tapir_bot::backend::{BackendObserver, TURN_FAILED_MESSAGE};
use tapir_bot::bot::Bot;
use tapir_bot::config::{Config, HelpRow, ToolMode};
use tapir_bot::event::{Inbound, ReactionEvent};

#[derive(Default)]
struct Counter {
    received: AtomicUsize,
    denied: AtomicUsize,
    turns_ok: AtomicUsize,
    reactions: AtomicUsize,
}

impl BackendObserver for Counter {
    fn received(&self, _inbound: &Inbound, _admitted: bool) {
        self.received.fetch_add(1, Ordering::Relaxed);
    }
    fn denied(&self, _inbound: &Inbound) {
        self.denied.fetch_add(1, Ordering::Relaxed);
    }
    fn turn_finished(&self, _inbound: &Inbound, ok: bool) {
        if ok {
            self.turns_ok.fetch_add(1, Ordering::Relaxed);
        }
    }
    fn reaction(&self, _reaction: &ReactionEvent) {
        self.reactions.fetch_add(1, Ordering::Relaxed);
    }
    // connected / reconnecting are left as the default no-ops.
}

fn inbound() -> Inbound {
    Inbound {
        channel: "C".into(),
        ts: "1".into(),
        thread: "1".into(),
        user: "U".into(),
        text: "hi".into(),
        is_bot: false,
        is_dm: false,
        continuation: false,
    }
}

fn reaction() -> ReactionEvent {
    ReactionEvent {
        channel: "C".into(),
        ts: "1".into(),
        user: "U".into(),
        reaction: "thumbsup".into(),
    }
}

#[test]
fn overrides_fire_and_defaults_are_callable_no_ops() {
    let counter = Counter::default();
    let observer: &dyn BackendObserver = &counter;
    // Defaults must be callable without panicking.
    observer.connected();
    observer.reconnecting(true);
    // Overridden methods record.
    observer.received(&inbound(), true);
    observer.denied(&inbound());
    observer.turn_finished(&inbound(), true);
    observer.turn_finished(&inbound(), false);
    observer.reaction(&reaction());
    assert_eq!(counter.received.load(Ordering::Relaxed), 1);
    assert_eq!(counter.denied.load(Ordering::Relaxed), 1);
    assert_eq!(counter.turns_ok.load(Ordering::Relaxed), 1, "only the ok turn counts");
    assert_eq!(counter.reactions.load(Ordering::Relaxed), 1);
}

#[test]
fn events_are_cloned_as_they_are() {
    assert_eq!(inbound().clone(), inbound());
    assert_eq!(reaction().clone(), reaction());
}

#[test]
fn the_failure_note_is_visible() {
    assert_eq!(TURN_FAILED_MESSAGE, "⚠️ Sorry — that turn failed. Please try again.");
}

#[test]
fn a_bot_is_built_with_or_without_skills() {
    let bot = Bot::new(Config::default(), Some("skills"));
    assert_eq!(bot.skills_dir, Some("skills"));
    let bot = bot.skills_dir("elsewhere");
    assert_eq!(bot.skills_dir, Some("elsewhere"));
    let bot = bot.no_skills();
    assert_eq!(bot.skills_dir, None);
    assert_eq!(bot.config.agent.provider, "anthropic");
}

#[test]
fn the_config_defaults_to_a_text_only_bot() {
    let config = Config::default();
    assert_eq!(config.agent.provider, "anthropic");
    assert!(config.agent.model.is_none());
    assert!(config.agent.system_prompt.is_none());
    assert_eq!(config.agent.tools, ToolMode::TextOnly);
    assert_eq!(config.storage.dir, "tapir-bot-data");
    assert!(config.storage.memory_dir.is_none());
    assert_eq!(config.sandbox.image, "alpine:3.20");
    assert_eq!(config.sandbox.memory, "1g");
    assert_eq!(config.sandbox.cpus, "2");
    assert_eq!(config.sandbox.pids, 256);
    assert_eq!(config.sandbox.idle_minutes, 30);
    assert!(config.sandbox.network.is_none());
    assert!(config.sandbox.env.is_empty());
    assert!(config.help.hide.is_empty() && config.help.extra.is_empty());
    assert_eq!(ToolMode::default(), ToolMode::TextOnly);
}

#[test]
fn tool_modes_have_the_names_of_the_config() {
    assert_eq!(ToolMode::TextOnly.name(), "none");
    assert_eq!(ToolMode::Host.name(), "host");
    assert_eq!(ToolMode::Sandbox.name(), "sandbox");
}

#[test]
fn a_copied_config_says_the_same() {
    let mut config = Config::default();
    config.agent.model = Some("m".into());
    config.storage.memory_dir = Some("notes".into());
    config.sandbox.env = vec!["A".into(), "B".into()];
    config.help.hide = vec!["models".into()];
    config.help.extra =
        vec![HelpRow { command: "`!x`".into(), description: "does x".into() }];
    assert_eq!(format!("{:?}", config.clone()), format!("{config:?}"));
}
