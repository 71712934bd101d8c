use tapir_bot::config::Sandbox;
use tapir_bot::tools::{
    fm_field, frontmatter, parse_skill_md, sandbox_settings, skill_sources, skills, skills_notice,
    ChannelSlots, Skill, SkillEntry,
};

fn entry(name: &str, is_dir: bool, skill_md: Option<&str>) -> SkillEntry {
    SkillEntry {
        key: name.as_bytes().to_vec(),
        name: name.into(),
        is_dir,
        skill_md: skill_md.map(String::from),
    }
}

#[test]
fn skills_notice_enumerates_the_skills_by_name() {
    let found = skills(vec![entry("sample", true, Some("# sample — does a thing\n\nbody"))]);
    let notice = skills_notice(&found).expect("a skills dir with entries");
    assert!(notice.contains("`sample`"), "lists the skill name: {notice}");
    assert!(notice.contains("does a thing"), "includes the description: {notice}");
    assert!(skills_notice(&skills(vec![])).is_none());
}

#[test]
fn skills_reads_frontmatter_and_falls_back_to_the_first_line() {
    // Frontmatter skill: description + args.
    let fm =
        "---\nname: shortcut\ndescription: gerenciar o board\nargs: \"<comando>\"\n---\n\n# body\n";
    // Plain skill: first non-empty line is the description, no args.
    let plain = "# Plain — does a thing\n\nbody";
    let found =
        skills(vec![entry("shortcut", true, Some(fm)), entry("plain", true, Some(plain))]);
    assert_eq!(found.len(), 2);
    // Sorted by name: "plain" then "shortcut".
    let plain = &found[0];
    assert_eq!(plain.name, "plain");
    assert_eq!(plain.description.as_deref(), Some("Plain — does a thing"));
    assert_eq!(plain.args, None);
    let sc = &found[1];
    assert_eq!(sc.name, "shortcut");
    assert_eq!(sc.description.as_deref(), Some("gerenciar o board"));
    assert_eq!(sc.args.as_deref(), Some("<comando>"));

    assert!(skills(vec![]).is_empty());
}

#[test]
fn only_directories_are_skills_and_they_are_sorted_by_bytes() {
    let found = skills(vec![
        entry("b", true, None),
        entry("README.md", false, None),
        entry("a", true, None),
        entry("B", true, None),
        entry("ab", true, None),
        entry("é", true, None),
    ]);
    let names: Vec<&str> = found.iter().map(|s| s.name.as_str()).collect();
    assert_eq!(names, vec!["B", "a", "ab", "b", "é"]);
    assert_eq!(found[0].description, None, "no SKILL.md, no description");
}

#[test]
fn frontmatter_is_fenced() {
    assert_eq!(frontmatter("---\na: b\n---\nrest"), Some("a: b"));
    assert_eq!(frontmatter("---\r\na: b\r\n---\r\n"), Some("a: b\r"));
    assert_eq!(frontmatter("---\nno end"), None);
    assert_eq!(frontmatter("text\n---\na: b\n---\n"), None, "the fence leads");
    assert_eq!(frontmatter(""), None);
}

#[test]
fn a_fence_is_a_whole_line() {
    assert_eq!(
        frontmatter("---\na: 1\n---x\nb: 2\n---\nbody"),
        Some("a: 1\n---x\nb: 2"),
        "a line that only starts with the dashes is content"
    );
    assert_eq!(frontmatter("---\na: 1\n----\n"), None);
    assert_eq!(frontmatter("---\na: 1\n --- \n"), None);
    assert_eq!(frontmatter("---\na: 1\n--- \nbody"), Some("a: 1"), "blanks may follow it");
    assert_eq!(frontmatter("---\na: 1\n---\t \r\nbody"), Some("a: 1"));
    assert_eq!(frontmatter("---\na: 1\n--- x\nb: 2\n---"), Some("a: 1\n--- x\nb: 2"));
    assert_eq!(
        parse_skill_md("---\ndescription: d\nargs: <x>\n---  \n# T"),
        (Some("d".into()), Some("<x>".into()))
    );
    assert_eq!(frontmatter("---\na: 1\n---"), Some("a: 1"), "the end of the text ends the line");
    assert_eq!(frontmatter("---\na: 1\n---\r\nbody"), Some("a: 1"));
    assert_eq!(frontmatter("---\n---\nbody"), Some(""), "a block may be empty");
    assert_eq!(frontmatter("---\n\n---\nbody"), Some(""));
    assert_eq!(frontmatter("---\n---"), Some(""));
    assert_eq!(frontmatter("---\né\n---\n---\n"), Some("é"), "the first one closes the block");
    assert_eq!(
        parse_skill_md("---\nname: x\n---x\ndescription: later\n---\n# T"),
        (Some("later".into()), None)
    );
}

#[test]
fn fields_are_read_unquoted() {
    let front = "name: x\n description : 'a: b' \nargs: \"\"\nargs: later";
    assert_eq!(fm_field(front, "name").as_deref(), Some("x"));
    assert_eq!(fm_field(front, "description").as_deref(), Some("a: b"));
    assert_eq!(fm_field(front, "args"), None, "the first line for a key decides");
    assert_eq!(fm_field(front, "other"), None);
}

#[test]
fn a_skill_file_is_described_by_its_headline() {
    assert_eq!(parse_skill_md("\n\n## Title \nmore"), (Some("Title".into()), None));
    assert_eq!(parse_skill_md("###\nnext"), (None, None), "a bare heading says nothing");
    assert_eq!(parse_skill_md("  # x"), (Some("# x".into()), None));
    assert_eq!(parse_skill_md(""), (None, None));
    assert_eq!(
        parse_skill_md("---\nargs: <x>\n---\n# T"),
        (None, Some("<x>".into())),
        "frontmatter that gives either field is all there is"
    );
    assert_eq!(
        parse_skill_md("---\nname: y\n---\n# T"),
        (Some("---".into()), None),
        "frontmatter that gives neither falls back to the first line"
    );
}

#[test]
fn the_notice_is_exact() {
    let found = [
        Skill { name: "a".into(), description: Some("does a".into()), args: None },
        Skill { name: "b".into(), description: None, args: None },
    ];
    assert_eq!(
        skills_notice(&found).unwrap(),
        "You're in a workspace and can run tools. These skills are available — read \
         `skills/<name>/SKILL.md` for how to use one and run its scripts with bash. Prefer a \
         matching skill over ad-hoc commands:\n- `a`: does a\n- `b`"
    );
}

#[test]
fn channel_skills_come_after_the_repository() {
    let s = |x: &str| Some(x.to_string());
    assert_eq!(skill_sources(s("repo"), s("ch")), vec!["repo", "ch"]);
    assert_eq!(skill_sources(s("repo"), None), vec!["repo"]);
    assert_eq!(skill_sources(None, s("ch")), vec!["ch"]);
    assert!(skill_sources::<String>(None, None).is_empty());
    let (repo, ch) = (std::path::Path::new("repo"), std::path::Path::new("ch"));
    assert_eq!(skill_sources(Some(repo), Some(ch)), vec![repo, ch], "paths stay paths");
}

#[test]
fn host_tools_lock_is_per_channel_and_stable() {
    let mut slots = ChannelSlots::new();
    let a1 = slots.slot("C1");
    let a2 = slots.slot("C1");
    let b = slots.slot("C2");
    assert_eq!(a1, a2, "same channel reuses its lock");
    assert_ne!(a1, b, "different channels get different locks");
    assert_eq!((a1, b), (0, 1), "slots are given out in order");
}

#[test]
fn sandbox_settings_come_from_the_config() {
    let config = Sandbox {
        network: Some("none".into()),
        env: vec!["A".into(), "B".into(), "C".into()],
        ..Sandbox::default()
    };
    let values = vec![Some("1".into()), None, Some("3".into())];
    let s = sandbox_settings(&config, 1000, 0, &values);
    assert_eq!(s.image, "alpine:3.20");
    assert_eq!(s.memory, "1g");
    assert_eq!(s.cpus, "2");
    assert_eq!(s.pids_limit, 256);
    assert_eq!(s.network.as_deref(), Some("none"));
    assert_eq!(s.user, "1000:0");
    assert_eq!(s.env, vec![("A".to_string(), "1".to_string()), ("C".into(), "3".into())]);
    assert_eq!(s.idle_seconds, 1800);
}

#[test]
fn a_copied_skill_is_the_same() {
    let skill = Skill { name: "a".into(), description: Some("d".into()), args: None };
    assert_eq!(skill.clone(), skill);
}
