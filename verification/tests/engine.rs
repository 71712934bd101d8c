use tapir_bot::access::{Access, ChannelAccess, LoopGuard};
use tapir_bot::commands::{Command, CommandOutcome, CommandSpec};
use tapir_bot::config::{Config, ToolMode};
use tapir_bot::engine::{
    after_command, list_models, list_providers, mentions_bot, owner_denied, prompt_spec_for,
    provider_active, record_owner, require_provider_key, resolve_model, set_model, strip_mention,
    turn_entries, turn_prompt, CommandStep, Engine, EngineError, ModelStep, Next, Plan, Provider,
    Role, Turn, TurnEvent, TurnStep,
};
use tapir_bot::event::Inbound;
use tapir_bot::meta::ConversationMeta;
use tapir_bot::tools::Skill;

#[test]
fn prompt_spec_is_tool_aware_when_tools_are_enabled() {
    // Tools on: append the skills notice + persona to the default prompt,
    // leaving the tool-aware body in place (no custom override).
    let spec = prompt_spec_for(true, Some("be nice"), Some("skills here"));
    let append = spec.append.expect("tool-aware prompts append");
    assert_eq!(append, vec!["skills here".to_string(), "be nice".to_string()]);
    assert!(spec.custom.is_none(), "tool-aware keeps the default body");

    // Tools off: replace the body with the persona (text-only).
    let spec = prompt_spec_for(false, Some("be nice"), Some("skills here"));
    assert_eq!(spec.custom.as_deref(), Some("be nice"));
    assert!(spec.append.is_none(), "text-only does not append the skills notice");
}

#[test]
fn a_prompt_spec_with_nothing_to_say_is_empty() {
    let spec = prompt_spec_for(true, None, None);
    assert!(spec.custom.is_none() && spec.append.is_none());
    let spec = prompt_spec_for(false, None, Some("skills"));
    assert!(spec.custom.is_none() && spec.append.is_none());
}

#[test]
fn mentions_bot_detects_the_mention_anywhere() {
    assert!(mentions_bot("<@U0BOT> hi", "U0BOT"));
    assert!(mentions_bot("hey <@U0BOT> there", "U0BOT"), "mid-text counts");
    assert!(!mentions_bot("just talking", "U0BOT"));
    assert!(!mentions_bot("<@U0OTHER> hi", "U0BOT"), "another user's mention");
}

#[test]
fn a_leading_mention_is_stripped() {
    assert_eq!(strip_mention("<@U0BOT> hello world", "U0BOT"), "hello world");
}

#[test]
fn surrounding_whitespace_is_trimmed() {
    assert_eq!(strip_mention("   <@U0BOT>    hi  ", "U0BOT"), "hi");
}

#[test]
fn a_bare_mention_strips_to_empty() {
    assert_eq!(strip_mention("<@U0BOT>", "U0BOT"), "");
}

#[test]
fn text_without_a_leading_mention_is_left_intact() {
    assert_eq!(strip_mention("just talking", "U0BOT"), "just talking");
    // A mention in the middle is not the bot being addressed up front.
    assert_eq!(strip_mention("hey <@U0BOT> there", "U0BOT"), "hey <@U0BOT> there");
}

#[test]
fn only_one_mention_is_stripped() {
    assert_eq!(strip_mention("<@B> <@B> hi", "B"), "<@B> hi");
}

#[test]
fn the_configured_model_wins_over_the_catalog_default() {
    assert_eq!(
        resolve_model(Some("model-x"), Some("model-default"), "anthropic").unwrap(),
        "model-x"
    );
    assert_eq!(
        resolve_model(None, Some("model-default"), "anthropic").unwrap(),
        "model-default"
    );
}

#[test]
fn no_model_anywhere_is_a_clear_error() {
    let err = resolve_model(None, None, "weird").expect_err("no model is an error");
    assert!(err.message().contains("weird"), "{}", err.message());
}

#[test]
fn a_missing_provider_key_names_the_variable() {
    let err = require_provider_key(Some("ANTHROPIC_API_KEY"), None, "anthropic")
        .expect_err("missing key is an error");
    assert!(err.message().contains("ANTHROPIC_API_KEY"), "{}", err.message());

    let err = require_provider_key(Some("ANTHROPIC_API_KEY"), Some("  ".into()), "anthropic")
        .expect_err("blank key is an error");
    assert!(err.message().contains("ANTHROPIC_API_KEY"), "{}", err.message());
}

#[test]
fn error_messages_are_exact() {
    let message = |e: EngineError| e.message();
    assert_eq!(
        message(EngineError::NoModel { provider: "we\"ird".into() }),
        "no model for provider \"we\\\"ird\": set [agent].model"
    );
    assert_eq!(
        message(EngineError::UnknownProvider { provider: "x".into() }),
        "unknown provider \"x\""
    );
    assert_eq!(
        message(EngineError::MissingKey { var: "K".into(), provider: "p".into() }),
        "K must be set for provider \"p\" (export it from your secret store)"
    );
    assert_eq!(
        message(EngineError::NoSandbox),
        "[agent].tools = \"sandbox\" needs the `sandbox` feature; \
         rebuild tapir-bot with --features sandbox"
    );
    assert_eq!(
        message(EngineError::TurnFailed { message: "boom".into() }),
        "model turn failed: boom"
    );
}

#[test]
fn a_provider_is_active_with_a_key() {
    assert!(provider_active(&Some("k".into())));
    assert!(!provider_active(&Some(" \n".into())));
    assert!(!provider_active(&None));
    assert!(require_provider_key(Some("K"), Some("k".into()), "p").is_ok());
    assert_eq!(
        require_provider_key(None, Some("k".into()), "p").unwrap_err(),
        EngineError::UnknownProvider { provider: "p".into() }
    );
}

fn engine_with(tools: ToolMode, has_sandbox: bool) -> Result<Engine, EngineError> {
    let mut config = Config::default();
    config.agent.tools = tools;
    config.agent.system_prompt = Some("persona".into());
    let skills =
        vec![Skill { name: "s".into(), description: Some("does s".into()), args: None }];
    let registered = vec![CommandSpec {
        name: "deploy".into(),
        args: Some("<env>".into()),
        description: "ship it".into(),
    }];
    Engine::from_config(
        config,
        skills,
        registered,
        Some("model-default"),
        Some("ANTHROPIC_API_KEY"),
        Some("key".into()),
        has_sandbox,
    )
}

fn engine() -> Engine {
    engine_with(ToolMode::Host, false).unwrap()
}

#[test]
fn the_engine_starts_from_a_config() {
    let e = engine();
    assert_eq!(e.settings.provider, "anthropic");
    assert_eq!(e.settings.model, "model-default");
    assert_eq!(e.settings.system_prompt.as_deref(), Some("persona"));
    assert_eq!(e.data_dir, "tapir-bot-data");
    assert_eq!(e.memory_dir, "tapir-bot-data", "facts live with the data by default");
    assert_eq!(e.tools, ToolMode::Host);
    assert!(e.skills_notice.unwrap().contains("- `s`: does s"));

    let mut config = Config::default();
    config.storage.memory_dir = Some("/notes".into());
    config.agent.model = Some("m".into());
    let e = Engine::from_config(config, vec![], vec![], None, Some("K"), Some("k".into()), false)
        .unwrap();
    assert_eq!(e.memory_dir, "/notes");
    assert_eq!(e.settings.model, "m");
    assert!(e.skills_notice.is_none());
}

#[test]
fn a_misconfigured_engine_does_not_start() {
    let start = |var: Option<&str>, value: Option<&str>, default: Option<&str>| {
        Engine::from_config(
            Config::default(),
            vec![],
            vec![],
            default,
            var,
            value.map(String::from),
            false,
        )
    };
    let provider = || "anthropic".to_string();
    assert_eq!(
        start(None, None, None).unwrap_err(),
        EngineError::NoModel { provider: provider() },
        "the model comes first"
    );
    assert_eq!(
        start(None, None, Some("m")).unwrap_err(),
        EngineError::UnknownProvider { provider: provider() }
    );
    assert_eq!(
        start(Some("K"), Some(""), Some("m")).unwrap_err(),
        EngineError::MissingKey { var: "K".into(), provider: provider() }
    );
    assert_eq!(engine_with(ToolMode::Sandbox, false).unwrap_err(), EngineError::NoSandbox);
    assert!(engine_with(ToolMode::Sandbox, true).is_ok());
}

fn msg(user: &str, text: &str, is_bot: bool, continuation: bool) -> Inbound {
    Inbound {
        channel: "C1".into(),
        ts: "1.1".into(),
        thread: "T1".into(),
        user: user.into(),
        text: text.into(),
        is_bot,
        is_dm: false,
        continuation,
    }
}

fn open_access() -> Access {
    let mut access = Access { allow_bots: true, ..Access::default() };
    access.channels.insert("C1".into(), ChannelAccess::default());
    access
}

#[test]
fn the_bot_never_answers_itself() {
    let mut guard = LoopGuard::new(3);
    let m = msg("BOT", "<@BOT> hi", false, false);
    assert!(!engine().should_handle(&open_access(), &mut guard, "BOT", &m, true));
}

#[test]
fn the_policy_gates_every_message() {
    let mut guard = LoopGuard::new(3);
    let m = msg("U1", "<@BOT> hi", false, false);
    assert!(engine().should_handle(&open_access(), &mut guard, "BOT", &m, false));
    assert!(!engine().should_handle(&Access::default(), &mut guard, "BOT", &m, true));
}

#[test]
fn a_continuation_needs_a_known_thread() {
    let e = engine();
    let access = open_access();
    let mut guard = LoopGuard::new(3);
    let chatter = msg("U1", "and another thing", false, true);
    assert_eq!(e.needs_history(&access, "BOT", &chatter).as_deref(), Some("ch:C1:T1"));
    assert!(!e.should_handle(&access, &mut guard, "BOT", &chatter, false));
    assert!(e.should_handle(&access, &mut guard, "BOT", &chatter, true));

    let command = msg("U1", "!help", false, true);
    assert_eq!(e.needs_history(&access, "BOT", &command).as_deref(), Some("ch:C1:T1"));
    assert!(!e.should_handle(&access, &mut guard, "BOT", &command, false));
    assert!(e.should_handle(&access, &mut guard, "BOT", &command, true));

    let echo = msg("U1", "hey <@BOT>", false, true);
    assert_eq!(e.needs_history(&access, "BOT", &echo), None);
    assert!(!e.should_handle(&access, &mut guard, "BOT", &echo, true), "the mention path's job");

    let mention = msg("U1", "<@BOT> hey", false, false);
    assert_eq!(e.needs_history(&access, "BOT", &mention), None);
    assert_eq!(e.needs_history(&Access::default(), "BOT", &chatter), None);
    assert_eq!(e.needs_history(&access, "U1", &chatter), None);
}

#[test]
fn bot_loops_are_cut_and_people_are_not() {
    let e = engine();
    let access = open_access();
    let mut guard = LoopGuard::new(2);
    let bot = msg("B1", "<@BOT> ping", true, false);
    let person = msg("U1", "<@BOT> ping", false, false);
    assert!(e.should_handle(&access, &mut guard, "BOT", &bot, false));
    assert!(e.should_handle(&access, &mut guard, "BOT", &person, false));
    assert!(e.should_handle(&access, &mut guard, "BOT", &bot, false));
    assert!(!e.should_handle(&access, &mut guard, "BOT", &bot, false));
    assert!(e.should_handle(&access, &mut guard, "BOT", &person, false));
}

#[test]
fn a_dropped_bot_message_is_not_counted() {
    let e = engine();
    let access = open_access();
    let mut guard = LoopGuard::new(1);
    let chatter = msg("B1", "noise", true, true);
    assert!(!e.should_handle(&access, &mut guard, "BOT", &chatter, false));
    assert!(e.should_handle(&access, &mut guard, "BOT", &chatter, true), "the budget is intact");
    assert!(!e.should_handle(&access, &mut guard, "BOT", &chatter, true));
}

#[test]
fn a_message_is_planned() {
    let e = engine();
    assert_eq!(
        e.handle("BOT", &msg("U1", "<@BOT> what is new?", false, false)),
        Plan::Turn { id: "ch:C1:T1".into(), prompt: "what is new?".into() }
    );
    assert_eq!(
        e.handle("BOT", &msg("U1", "<@BOT>", false, false)),
        Plan::Turn {
            id: "ch:C1:T1".into(),
            prompt: "Greet the user briefly and offer to help.".into()
        }
    );
    assert_eq!(
        e.handle("BOT", &msg("U1", "<@BOT> !model a/b", false, false)),
        Plan::Command(Command::Model(Some("a/b".into())))
    );
    assert_eq!(
        e.handle("BOT", &msg("U1", "!deploy prod", false, false)),
        Plan::Command(Command::Registered { index: 0, arg: "prod".into() })
    );
    assert_eq!(
        e.handle("BOT", &msg("U1", "!nope", false, false)),
        Plan::Command(Command::Unknown("nope".into()))
    );
}

#[test]
fn a_registered_command_replies_or_prompts() {
    assert_eq!(after_command(CommandOutcome::Reply("ok".into())), Next::Post("ok".into()));
    assert_eq!(after_command(CommandOutcome::Prompt("do it".into())), Next::Turn("do it".into()));
    assert_eq!(turn_prompt("x".into()), "x");
}

fn providers() -> Vec<Provider> {
    vec![
        Provider { id: "a".into(), key: Some("k".into()), models: vec!["m1".into(), "m2".into()] },
        Provider { id: "b".into(), key: Some(" ".into()), models: vec!["m3".into()] },
        Provider { id: "c".into(), key: Some("k".into()), models: vec!["m4".into()] },
        Provider { id: "d".into(), key: None, models: vec![] },
    ]
}

#[test]
fn listings_cover_the_active_providers() {
    assert_eq!(list_providers(&providers()), "**Active providers:**\n- a\n- c");
    assert_eq!(list_models(&providers()), "**Available models:**\n- a/m1\n- a/m2\n- c/m4");
    assert!(list_providers(&vec![]).contains("No active providers"));
    assert!(list_models(&vec![]).contains("No models"));
}

#[test]
fn commands_are_answered_or_named() {
    let e = engine();
    let run = |c: Command| e.run_command(c, &providers());
    assert_eq!(
        run(Command::Providers),
        CommandStep::Reply("**Active providers:**\n- a\n- c".into())
    );
    assert!(matches!(run(Command::Models), CommandStep::Reply(t) if t.contains("- c/m4")));
    assert!(matches!(run(Command::Skills), CommandStep::Reply(t) if t.contains("| `s` | does s |")));
    assert!(
        matches!(run(Command::Help), CommandStep::Reply(t) if t.contains("- `!deploy <env>` — ship it"))
    );
    assert_eq!(run(Command::Model(None)), CommandStep::Model(None));
    assert_eq!(run(Command::Forget), CommandStep::Forget);
    assert_eq!(
        run(Command::Registered { index: 0, arg: "x".into() }),
        CommandStep::Run { index: 0, arg: "x".into() }
    );
    assert_eq!(
        run(Command::Unknown("z".into())),
        CommandStep::Reply("Unknown command: `!z`. Try `!help`.".into())
    );
}

#[test]
fn the_first_user_owns_the_conversation() {
    let mut meta = ConversationMeta::default();
    assert_eq!(owner_denied(&meta, "U1"), None);
    assert!(record_owner(&mut meta, "U1"));
    assert!(!record_owner(&mut meta, "U2"), "the first one stays");
    assert_eq!(meta.owner.as_deref(), Some("U1"));
    assert_eq!(owner_denied(&meta, "U1"), None);
    assert_eq!(
        owner_denied(&meta, "U2").unwrap(),
        "Only <@U1>, who started this conversation, can do that."
    );
}

#[test]
fn only_the_owner_changes_the_model_or_forgets() {
    let e = engine();
    let meta = ConversationMeta { owner: Some("U1".into()), model: None };
    let denied = "Only <@U1>, who started this conversation, can do that.".to_string();
    assert_eq!(
        e.handle_model(&meta, "U2", Some("a/b".into())),
        ModelStep::Reply(denied.clone())
    );
    assert_eq!(e.handle_forget(&meta, "U2"), (denied, false));
    assert_eq!(
        e.handle_forget(&meta, "U1"),
        ("Done — this conversation's history and model override were reset.".to_string(), true)
    );
}

#[test]
fn the_model_is_shown_and_set() {
    let e = engine();
    let mut meta = ConversationMeta::default();
    assert_eq!(
        e.handle_model(&meta, "U1", None),
        ModelStep::Reply(
            "Model for this conversation: `anthropic/model-default (default)`.\n\
             Set it with `!model provider/model`."
                .into()
        )
    );
    assert_eq!(e.turn_model(&meta), ("anthropic".into(), "model-default".into()));
    assert_eq!(
        e.handle_model(&meta, "U1", Some("model-y".into())),
        ModelStep::LookUp { provider: "anthropic".into(), model: "model-y".into() }
    );
    assert_eq!(
        set_model(&mut meta, "openai", "nope", false),
        "Unknown model `openai/nope` — see `!models`."
    );
    assert_eq!(meta.model, None, "an unknown model changes nothing");
    assert_eq!(
        set_model(&mut meta, "openai", "gpt-x", true),
        "Model set to `openai/gpt-x` for this conversation."
    );
    assert_eq!(e.turn_model(&meta), ("openai".into(), "gpt-x".into()));
    assert_eq!(
        e.handle_model(&meta, "U1", None),
        ModelStep::Reply(
            "Model for this conversation: `openai/gpt-x`.\nSet it with `!model provider/model`."
                .into()
        )
    );
}

#[test]
fn a_turn_accumulates_its_text() {
    let mut turn = Turn::new();
    assert_eq!(turn.step(TurnEvent::Other), TurnStep::Continue);
    assert_eq!(turn.step(TurnEvent::Text("Hel".into())), TurnStep::Show);
    assert_eq!(turn.text(), "Hel");
    assert_eq!(turn.step(TurnEvent::Text("lo".into())), TurnStep::Show);
    assert_eq!(turn.step(TurnEvent::Done), TurnStep::Finish);
    assert_eq!(turn.reply(), "Hello");
    assert_eq!(
        turn.step(TurnEvent::Error("boom".into())),
        TurnStep::Fail(EngineError::TurnFailed { message: "boom".into() })
    );
}

#[test]
fn a_turn_without_text_still_replies() {
    let mut turn = Turn::new();
    assert_eq!(turn.reply(), "(the model returned no text)");
    turn.step(TurnEvent::Text(" \n ".into()));
    assert_eq!(turn.reply(), "(the model returned no text)");
}

#[test]
fn a_turn_is_stored_as_prompt_and_reply() {
    let entries = turn_entries("question", "answer");
    assert_eq!(entries.len(), 2);
    assert_eq!((entries[0].role, entries[0].text.as_str()), (Role::User, "question"));
    assert_eq!((entries[1].role, entries[1].text.as_str()), (Role::Assistant, "answer"));
}

#[test]
fn a_session_works_where_its_tools_run() {
    let session = |tools: ToolMode, workspace: Option<&'static str>| {
        engine_with(tools, true).unwrap().session(Some("system"), workspace, ".", "/workspace")
    };
    let s = session(ToolMode::TextOnly, None);
    assert_eq!(s.cwd, ".");
    assert!(!s.tools_enabled);
    assert_eq!(s.prompt.custom.as_deref(), Some("system"));
    assert!(s.prompt.append.is_none());

    let s = session(ToolMode::Host, Some("/data/workspaces/C1"));
    assert_eq!(s.cwd, "/data/workspaces/C1");
    assert!(s.tools_enabled);
    let append = s.prompt.append.expect("tool-aware");
    assert_eq!(append.len(), 2);
    assert!(append[0].contains("- `s`: does s"));
    assert_eq!(append[1], "system");

    assert_eq!(session(ToolMode::Sandbox, None).cwd, "/workspace");
}
