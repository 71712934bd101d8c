use tapir_bot::commands::{
    dispatch, parse_invocation, render_help, render_models, render_providers, render_skills,
    render_unknown, Command, CommandSpec,
};
use tapir_bot::config::{Help, HelpRow};
use tapir_bot::tools::Skill;

fn inv(text: &str) -> Option<(String, String)> {
    parse_invocation(text)
}

#[test]
fn parse_invocation_splits_name_and_arg() {
    assert_eq!(inv("!providers"), Some(("providers".into(), String::new())));
    assert_eq!(inv("   !providers  "), Some(("providers".into(), String::new())));
    assert_eq!(
        inv("!model anthropic/model-x"),
        Some(("model".into(), "anthropic/model-x".into()))
    );
    // The name is the first word; the rest (trimmed) is the arg.
    assert_eq!(inv("!skills extra"), Some(("skills".into(), "extra".into())));
    // An unknown name still parses — the engine dispatches it (custom/unknown).
    assert_eq!(inv("!frobnicate"), Some(("frobnicate".into(), String::new())));
}

#[test]
fn parse_invocation_is_none_for_ordinary_text() {
    assert_eq!(inv("hello there"), None);
    assert_eq!(inv("what about !providers"), None, "mid-prose is not a command");
    assert_eq!(inv("!"), None, "a bare bang is not a command");
    assert_eq!(inv("   "), None);
}

#[test]
fn parse_invocation_keeps_the_inside_of_the_argument() {
    assert_eq!(inv("!a   b   c  "), Some(("a".into(), "b   c".into())));
    assert_eq!(inv("!a\tb\nc"), Some(("a".into(), "b\nc".into())));
    assert_eq!(inv("! a"), None, "white space right after the bang leaves no name");
    assert_eq!(inv("!!x"), Some(("!x".into(), String::new())));
    assert_eq!(inv("\u{3000}!a\u{a0}b"), Some(("a".into(), "b".into())));
}

#[test]
fn a_written_command_is_read_back() {
    for (name, arg) in [("model", "anthropic/model-x"), ("deploy", "prod  now"), ("é", "ü")] {
        assert_eq!(inv(&format!("!{name} {arg}")), Some((name.to_string(), arg.to_string())));
    }
}

#[test]
fn render_providers_lists_or_explains_empty() {
    let out = render_providers(&["anthropic", "openai"]);
    assert!(out.contains("anthropic") && out.contains("openai"), "{out}");
    assert!(out.contains("- anthropic"), "standard-markdown bullets: {out}");
    assert!(out.starts_with("**Active providers:**"), "standard-markdown bold: {out}");
    assert!(render_providers(&[]).contains("No active providers"));
}

#[test]
fn render_models_lists_provider_slash_model_or_explains_empty() {
    let out = render_models(&[("anthropic", "opus-4-8")]);
    assert!(out.contains("- anthropic/opus-4-8"), "{out}");
    assert!(render_models(&[]).contains("No models"));
}

#[test]
fn listings_are_exact() {
    assert_eq!(
        render_providers(&["anthropic", "openai"]),
        "**Active providers:**\n- anthropic\n- openai"
    );
    assert_eq!(
        render_providers(&[]),
        "No active providers — set a provider API key (e.g. ANTHROPIC_API_KEY)."
    );
    assert_eq!(
        render_models(&[("a", "m1"), ("b", "m2")]),
        "**Available models:**\n- a/m1\n- b/m2"
    );
    assert_eq!(render_models(&[]), "No models available — no active providers.");
    assert_eq!(render_unknown("foo"), "Unknown command: `!foo`. Try `!help`.");
}

#[test]
fn render_help_lists_the_builtins_by_default() {
    let out = render_help(&Help::default(), &[]);
    assert!(out.contains("!providers") && out.contains("!models") && out.contains("!help"));
    assert!(out.contains("!model") && out.contains("!forget") && out.contains("!skills"));
    assert!(out.contains("- `!providers`"), "standard-markdown list + inline code: {out}");
}

#[test]
fn render_help_hides_built_ins_and_appends_extra_rows() {
    let help = Help {
        hide: vec!["model".into(), "forget".into()],
        extra: vec![HelpRow {
            command: "!version".into(),
            description: "show the build version".into(),
        }],
    };
    let out = render_help(&help, &[]);
    // `!model` shares a prefix with `!models`, so match its unique row text.
    assert!(!out.contains("[provider/model]"), "hidden !model is gone: {out}");
    assert!(!out.contains("!forget"), "hidden !forget is gone: {out}");
    assert!(out.contains("!providers") && out.contains("!models"), "kept built-ins: {out}");
    assert!(out.contains("- `!version` — show the build version"), "extra row appended: {out}");
}

#[test]
fn render_help_lists_registered_commands() {
    let registered = [
        CommandSpec { name: "version".into(), args: None, description: "build version".into() },
        CommandSpec {
            name: "deploy".into(),
            args: Some("<env>".into()),
            description: "deploy".into(),
        },
    ];
    let out = render_help(&Help::default(), &registered);
    assert!(out.contains("- `!version` — build version"), "{out}");
    assert!(out.contains("- `!deploy <env>` — deploy"), "args shown: {out}");
}

#[test]
fn render_help_is_exact() {
    let help = Help {
        hide: vec!["providers".into(), "models".into(), "skills".into()],
        extra: vec![HelpRow { command: "!x".into(), description: "y".into() }],
    };
    let registered =
        [CommandSpec { name: "v".into(), args: None, description: "the version".into() }];
    assert_eq!(
        render_help(&help, &registered),
        "**Commands:**\
         \n- `!model [provider/model]` — show or set this conversation's model (creator only)\
         \n- `!forget` — reset this conversation (creator only)\
         \n- `!help` — this list\
         \n- `!v` — the version\
         \n- `!x` — y"
    );
}

#[test]
fn render_skills_is_a_table_with_optional_args() {
    let skills = [
        Skill {
            name: "shortcut".into(),
            description: Some("board".into()),
            args: Some("<comando>".into()),
        },
        Skill { name: "plain".into(), description: Some("does a thing".into()), args: None },
    ];
    let out = render_skills(&skills);
    assert!(out.starts_with("| Skill | Description |\n| --- | --- |"), "{out}");
    assert!(out.contains("| `shortcut <comando>` | board |"), "name with args: {out}");
    assert!(out.contains("| `plain` | does a thing |"), "name without args: {out}");
    assert_eq!(render_skills(&[]), "No skills available.");
}

#[test]
fn a_skill_without_a_description_has_an_empty_cell() {
    let skills = [Skill { name: "s".into(), description: None, args: None }];
    assert_eq!(render_skills(&skills), "| Skill | Description |\n| --- | --- |\n| `s` |  |");
}

fn spec(name: &str) -> CommandSpec {
    CommandSpec { name: name.into(), args: None, description: "d".into() }
}

#[test]
fn dispatch_prefers_built_ins_then_registered_commands() {
    let registered = [spec("model"), spec("deploy"), spec("deploy")];
    let go = |name: &str, arg: &str| dispatch(name.into(), arg.into(), &registered);
    assert_eq!(go("providers", ""), Command::Providers);
    assert_eq!(go("models", ""), Command::Models);
    assert_eq!(go("skills", "x"), Command::Skills);
    assert_eq!(go("model", ""), Command::Model(None));
    assert_eq!(go("model", "a/b"), Command::Model(Some("a/b".into())));
    assert_eq!(go("forget", ""), Command::Forget);
    assert_eq!(go("help", ""), Command::Help);
    assert_eq!(go("deploy", "prod"), Command::Registered { index: 1, arg: "prod".into() });
    assert_eq!(go("nope", "x"), Command::Unknown("nope".into()));
}

#[test]
fn a_command_spec_is_cloned_as_it_is() {
    let spec = CommandSpec {
        name: "n".into(),
        args: Some("<a>".into()),
        description: "d".into(),
    };
    let copy = spec.clone();
    assert_eq!(copy.name, "n");
    assert_eq!(copy.args.as_deref(), Some("<a>"));
    assert_eq!(copy.description, "d");
}
