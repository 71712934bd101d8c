use tapir_bot::event::Inbound;
use tapir_bot::memory::{assemble_prompt, conversation_id, facts_file};
use tapir_bot::meta::{
    is_transcript, join_model_spec, meta_file, split_model_spec, ConversationMeta,
};

fn msg(channel: &str, thread: &str, is_dm: bool) -> Inbound {
    Inbound {
        channel: channel.into(),
        ts: "9.9".into(),
        thread: thread.into(),
        user: "U1".into(),
        text: "hi".into(),
        is_bot: false,
        is_dm,
        continuation: false,
    }
}

#[test]
fn a_dm_is_keyed_by_channel_so_messages_share_one_conversation() {
    // Two DM messages with different ts (DMs aren't threaded) → same id.
    let a = conversation_id(&msg("D1", "100.1", true));
    let b = conversation_id(&msg("D1", "200.2", true));
    assert_eq!(a, b);
    assert_eq!(a, "dm:D1");
}

#[test]
fn a_channel_is_keyed_per_thread() {
    let t1 = conversation_id(&msg("C1", "100.1", false));
    let t1_again = conversation_id(&msg("C1", "100.1", false));
    let t2 = conversation_id(&msg("C1", "200.2", false));
    assert_eq!(t1, t1_again, "same thread → same conversation");
    assert_ne!(t1, t2, "different threads → different conversations");
    assert_eq!(t1, "ch:C1:100.1");
}

#[test]
fn direct_and_channel_conversations_differ() {
    assert_ne!(conversation_id(&msg("X", "1", true)), conversation_id(&msg("X", "1", false)));
    assert_ne!(conversation_id(&msg("C1", "1", false)), conversation_id(&msg("C2", "1", false)));
}

#[test]
fn assemble_uses_the_persona_alone_when_there_are_no_facts() {
    assert_eq!(assemble_prompt(Some("You are Tapir."), "", ""), Some("You are Tapir.".into()));
}

#[test]
fn assemble_includes_a_memory_section_with_the_facts() {
    let out = assemble_prompt(Some("Persona."), "Global fact.", "Channel fact.").unwrap();
    assert!(out.starts_with("Persona."), "{out}");
    assert!(out.contains("# Memory"), "{out}");
    assert!(out.contains("Global fact."), "{out}");
    assert!(out.contains("Channel fact."), "{out}");
}

#[test]
fn assemble_omits_empty_parts() {
    // No persona, only a channel fact: a Memory section, no leading blank.
    let out = assemble_prompt(None, "   ", "Only channel.").unwrap();
    assert!(out.starts_with("# Memory"), "{out}");
    assert!(out.contains("Only channel."));
    assert!(!out.contains("Global"), "{out}");
}

#[test]
fn assemble_is_none_when_everything_is_empty() {
    assert_eq!(assemble_prompt(None, "", "  \n "), None);
    assert_eq!(assemble_prompt(Some("   "), "", ""), None);
}

#[test]
fn the_prompt_is_exact() {
    assert_eq!(
        assemble_prompt(Some(" Persona. "), " g ", "c\n"),
        Some(
            "Persona.\n\n# Memory\n\nDurable facts — treat as context:\n\ng\n\nc".to_string()
        )
    );
    assert_eq!(
        assemble_prompt(None, "g", ""),
        Some("# Memory\n\nDurable facts — treat as context:\n\ng".to_string())
    );
}

#[test]
fn split_uses_the_given_provider_or_the_default() {
    assert_eq!(
        split_model_spec("anthropic/model-x", "openai"),
        ("anthropic".into(), "model-x".into())
    );
    assert_eq!(
        split_model_spec("model-x", "anthropic"),
        ("anthropic".into(), "model-x".into()),
        "bare model uses the default provider"
    );
}

#[test]
fn split_trims_and_divides_at_the_first_slash() {
    assert_eq!(split_model_spec(" a / b/c ", "d"), ("a".into(), "b/c".into()));
    assert_eq!(split_model_spec("  m  ", "d"), ("d".into(), "m".into()));
    assert_eq!(split_model_spec("/m", "d"), ("".into(), "m".into()));
}

#[test]
fn a_stored_model_is_read_back() {
    for spec in ["anthropic/model-x", " a / b/c ", "bare", "/m", "p/"] {
        let (provider, model) = split_model_spec(spec, "openai");
        let stored = join_model_spec(&provider, &model);
        assert_eq!(split_model_spec(&stored, "other"), (provider, model), "{spec:?}");
    }
}

#[test]
fn a_named_provider_is_read_back_whatever_the_default() {
    for default in ["a/b", " padded "] {
        let (provider, model) = split_model_spec(" p / m/n ", default);
        let stored = join_model_spec(&provider, &model);
        assert_eq!(stored, "p/m/n");
        assert_eq!(split_model_spec(&stored, default), (provider, model));
    }
}

#[test]
fn files_are_named_after_their_conversation() {
    assert_eq!(facts_file("C1"), "C1.md");
    assert_eq!(meta_file("dm:D1"), "dm:D1.toml");
    assert!(is_transcript("2024_dm:D1.jsonl", "dm:D1"));
    assert!(!is_transcript("2024_dm:D2.jsonl", "dm:D1"));
    assert!(!is_transcript("dm:D1.jsonl", "dm:D1"), "the suffix includes the underscore");
}

#[test]
fn fresh_metadata_is_empty() {
    let meta = ConversationMeta::default();
    assert_eq!(meta, ConversationMeta { owner: None, model: None });
    let set = ConversationMeta { owner: Some("U1".into()), model: Some("a/b".into()) };
    assert_eq!(set.clone(), set);
}

#[test]
fn forgetting_spares_other_conversations() {
    for owner in ["dm:D1", "dm:XD1", "ch:C1:1.1"] {
        for id in ["dm:D1", "dm:XD1", "ch:C1:1.1"] {
            assert_eq!(is_transcript(&format!("t_{owner}.jsonl"), id), owner == id);
        }
    }
}
