use serde_json::Value;
use tapir_bot::json::Json;
use tapir_bot::slack::blocks::{column_setting, Block, Cell, Element, RichText, Style};
use tapir_bot::slack::markdown::{read_document, read_marks, Align, Event, Kind, Mark, EXTENSIONS};
use tapir_bot::slack::message::{
    has_slack_controls, message_of_events, render_message, MAX_BLOCKS,
};
use tapir_bot::slack::render;
use tapir_bot::slack::render::{blocks_of, fallback_text, to_blocks_within_indent};

fn value(j: &Json) -> Value {
    match j {
        Json::Bool(b) => Value::Bool(*b),
        Json::Number(n) => Value::from(*n),
        Json::Text(s) => Value::String(s.clone()),
        Json::Array(v) => Value::Array(v.iter().map(value).collect()),
        Json::Object(m) => {
            Value::Object(m.iter().map(|(k, v)| (k.clone(), value(v))).collect::<serde_json::Map<_, _>>())
        }
    }
}

fn values(blocks: &[Block]) -> Vec<Value> {
    blocks.iter().map(|b| value(&b.to_json())).collect()
}

fn to_blocks(markdown: &str) -> Vec<Value> {
    values(&render::to_blocks(markdown))
}

fn raw(text: &str) -> Value {
    Value::from_iter([("type", "raw_text"), ("text", text)])
}

#[test]
fn a_heading_becomes_a_header_block_truncated() {
    let long = format!("# {}", "x".repeat(200));
    let blocks = to_blocks(&long);
    assert_eq!(blocks[0]["type"], "header");
    assert_eq!(blocks[0]["text"]["type"], "plain_text");
    let text = blocks[0]["text"]["text"].as_str().unwrap();
    assert_eq!(text.chars().count(), 150, "truncated to 150");
}

#[test]
fn a_paragraph_carries_inline_styles_and_links() {
    let blocks = to_blocks("a **b** _i_ `c` and [lnk](https://x.test).");
    assert_eq!(blocks.len(), 1);
    assert_eq!(blocks[0]["type"], "rich_text");
    let els = &blocks[0]["elements"][0]["elements"];
    // Find the bold, italic, code, and link elements.
    let has = |pred: &dyn Fn(&Value) -> bool| els.as_array().unwrap().iter().any(pred);
    assert!(has(&|e| e["text"] == "b" && e["style"]["bold"] == true), "bold: {els}");
    assert!(has(&|e| e["text"] == "i" && e["style"]["italic"] == true), "italic: {els}");
    assert!(has(&|e| e["text"] == "c" && e["style"]["code"] == true), "code: {els}");
    assert!(
        has(&|e| e["type"] == "link" && e["url"] == "https://x.test" && e["text"] == "lnk"),
        "link: {els}"
    );
}

#[test]
fn plain_text_carries_no_style_object() {
    let blocks = to_blocks("just words");
    let el = &blocks[0]["elements"][0]["elements"][0];
    assert_eq!(el["text"], "just words");
    assert!(el.get("style").is_none(), "no empty style: {el}");
}

#[test]
fn a_nested_list_splits_into_indented_rich_text_lists() {
    let md = "- a\n  - a1\n- b";
    let blocks = to_blocks(md);
    assert_eq!(blocks.len(), 1);
    let els = blocks[0]["elements"].as_array().unwrap();
    // Three list runs: [a] @0, [a1] @1, [b] @0.
    assert_eq!(els.len(), 3, "{els:#?}");
    assert_eq!(els[0]["type"], "rich_text_list");
    assert_eq!(els[0]["style"], "bullet");
    assert_eq!(els[0]["indent"], 0);
    assert_eq!(els[1]["indent"], 1);
    assert_eq!(els[2]["indent"], 0);
    // The first run holds item "a".
    assert_eq!(els[0]["elements"][0]["elements"][0]["text"], "a");
    assert_eq!(els[1]["elements"][0]["elements"][0]["text"], "a1");
}

#[test]
fn an_ordered_list_uses_the_ordered_style() {
    let blocks = to_blocks("1. one\n2. two");
    assert_eq!(blocks[0]["elements"][0]["style"], "ordered");
}

#[test]
fn a_blockquote_becomes_a_rich_text_quote() {
    let blocks = to_blocks("> quoted line");
    assert_eq!(blocks[0]["type"], "rich_text");
    assert_eq!(blocks[0]["elements"][0]["type"], "rich_text_quote");
    assert_eq!(blocks[0]["elements"][0]["elements"][0]["text"], "quoted line");
}

#[test]
fn a_fenced_code_block_becomes_preformatted_without_trailing_newline() {
    let blocks = to_blocks("```\nlet x = 1;\n```");
    assert_eq!(blocks[0]["elements"][0]["type"], "rich_text_preformatted");
    assert_eq!(blocks[0]["elements"][0]["elements"][0]["text"], "let x = 1;");
}

#[test]
fn a_thematic_break_becomes_a_divider() {
    let blocks = to_blocks("a\n\n---\n\nb");
    assert!(blocks.iter().any(|b| b["type"] == "divider"), "{blocks:#?}");
}

#[test]
fn a_mixed_document_keeps_block_order() {
    let md = "# Title\n\nIntro para.\n\n- one\n- two\n\n```\ncode\n```";
    let blocks = to_blocks(md);
    let kinds: Vec<&str> = blocks.iter().map(|b| b["type"].as_str().unwrap()).collect();
    assert_eq!(kinds, vec!["header", "rich_text", "rich_text", "rich_text"]);
    // Second rich_text is the list, third is the code.
    assert_eq!(blocks[2]["elements"][0]["type"], "rich_text_list");
    assert_eq!(blocks[3]["elements"][0]["type"], "rich_text_preformatted");
}

#[test]
fn a_gfm_table_becomes_a_table_block_with_alignment() {
    let md = "\
| Name | Age |
|:-----|----:|
| Ann  | 30  |
| Bob  | 25  |";
    let blocks = to_blocks(md);
    assert_eq!(blocks.len(), 1);
    assert_eq!(blocks[0]["type"], "table");
    // Alignment from :--- and ---:
    let settings = blocks[0]["column_settings"].as_array().unwrap();
    assert_eq!(settings.len(), 2);
    assert_eq!(settings[0]["align"], "left");
    assert_eq!(settings[1]["align"], "right");
    assert_eq!(settings[0]["is_wrapped"], true);
    // Header + two body rows, each two cells.
    let rows = blocks[0]["rows"].as_array().unwrap();
    assert_eq!(rows.len(), 3);
    assert_eq!(rows[0][0], raw("Name"));
    assert_eq!(rows[1][0], raw("Ann"));
}

#[test]
fn a_table_cell_with_a_link_becomes_a_rich_text_cell() {
    let md = "\
| Site |
|------|
| [x](https://x.test) |";
    let blocks = to_blocks(md);
    let link_cell = &blocks[0]["rows"][1][0];
    assert_eq!(link_cell["type"], "rich_text");
    let el = &link_cell["elements"][0]["elements"][0];
    assert_eq!(el["type"], "link");
    assert_eq!(el["url"], "https://x.test");
}

#[test]
fn a_table_interleaves_with_surrounding_prose() {
    let md = "Before.\n\n| A | B |\n|---|---|\n| 1 | 2 |\n\nAfter.";
    let blocks = to_blocks(md);
    let kinds: Vec<&str> = blocks.iter().map(|b| b["type"].as_str().unwrap()).collect();
    assert_eq!(kinds, vec!["rich_text", "table", "rich_text"]);
}

#[test]
fn empty_input_yields_no_blocks() {
    assert!(to_blocks("").is_empty());
    assert!(to_blocks("   \n  \n").is_empty());
}

#[test]
fn fallback_text_is_the_trimmed_markdown() {
    assert_eq!(fallback_text("  # Hi\n\n"), "# Hi");
}

#[test]
fn render_message_emits_blocks_for_markdown() {
    let (fallback, blocks) = render_message("# Title\n\nbody");
    assert_eq!(fallback, "# Title\n\nbody");
    let blocks = values(&blocks.expect("markdown renders to blocks"));
    assert_eq!(blocks[0]["type"], "header");
}

#[test]
fn render_message_falls_back_to_text_for_slack_mentions() {
    let (fallback, blocks) = render_message("Only <@U123> can do that.");
    assert_eq!(fallback, "Only <@U123> can do that.");
    assert!(blocks.is_none(), "mentions only resolve in the text field");
    assert!(has_slack_controls("<#C1>") && has_slack_controls("<!here>"));
    assert!(!has_slack_controls("plain text"));
}

fn plain(text: &str) -> Element {
    Element::Text { text: text.into(), style: Style::default() }
}

fn section(v: Vec<Element>) -> Block {
    Block::RichText(vec![RichText::Section(v)])
}

#[test]
fn styles_nest() {
    assert_eq!(
        render::to_blocks("**a *b* ~~c~~ `d`**"),
        vec![section(vec![
            Element::Text { text: "a ".into(), style: Style::default().with_bold() },
            Element::Text {
                text: "b".into(),
                style: Style::default().with_bold().with_italic()
            },
            Element::Text { text: " ".into(), style: Style::default().with_bold() },
            Element::Text {
                text: "c".into(),
                style: Style::default().with_bold().with_strike()
            },
            Element::Text { text: " ".into(), style: Style::default().with_bold() },
            Element::Text { text: "d".into(), style: Style::default().with_bold().with_code() },
        ])]
    );
}

#[test]
fn links_and_images_have_labels() {
    let link = |url: &str, label: &str| Element::Link {
        url: url.into(),
        label: label.into(),
        style: Style::default(),
    };
    assert_eq!(
        render::to_blocks("[](https://x.test)"),
        vec![section(vec![link("https://x.test", "https://x.test")])]
    );
    assert_eq!(
        render::to_blocks("![alt *text*](https://x.test/i.png)"),
        vec![section(vec![link("https://x.test/i.png", "alt text")])]
    );
    assert_eq!(
        render::to_blocks("![](https://x.test/i.png)"),
        vec![section(vec![link("https://x.test/i.png", "https://x.test/i.png")])]
    );
}

#[test]
fn line_breaks_become_newlines() {
    assert_eq!(
        render::to_blocks("a\nb"),
        vec![section(vec![plain("a"), plain("\n"), plain("b")])]
    );
    assert_eq!(
        render::to_blocks("# a `b`"),
        vec![Block::Header("a b".into())],
        "headings are flattened"
    );
}

#[test]
fn quotes_join_their_paragraphs() {
    assert_eq!(
        render::to_blocks("> a\n>\n> b"),
        vec![Block::RichText(vec![RichText::Quote(vec![plain("a"), plain("\n"), plain("b")])])]
    );
}

#[test]
fn lists_hold_paragraphs_and_code() {
    let code = |text: &str| Element::Text { text: text.into(), style: Style::default().with_code() };
    assert_eq!(
        render::to_blocks("- a\n\n  b\n\n  ```\n  x\n  ```\n- c"),
        vec![Block::RichText(vec![RichText::List {
            ordered: false,
            indent: 0,
            sections: vec![vec![plain("a"), plain("b"), code("x")], vec![plain("c")]],
        }])]
    );
    assert_eq!(
        render::to_blocks("1. a\n   - b"),
        vec![Block::RichText(vec![
            RichText::List { ordered: true, indent: 0, sections: vec![vec![plain("a")]] },
            RichText::List { ordered: false, indent: 1, sections: vec![vec![plain("b")]] },
        ])]
    );
}

#[test]
fn blank_blocks_are_dropped() {
    assert!(render::to_blocks("#").is_empty(), "a blank heading");
    assert!(render::to_blocks("```\n```").is_empty(), "an empty code block");
    assert!(render::to_blocks(">").is_empty(), "an empty quote");
    assert!(render::to_blocks("-").is_empty(), "an empty item");
}

#[test]
fn one_trailing_newline_of_code_is_dropped() {
    assert_eq!(
        render::to_blocks("```\nx\n\n\n```"),
        vec![Block::RichText(vec![RichText::Preformatted("x\n\n".into())])]
    );
    let mut i = 0;
    let events = vec![Event::Text("a\n\n".into()), Event::End(Kind::CodeBlock)];
    assert_eq!((render::collect_code(&events, &mut i), i), ("a\n".into(), 2));
    let mut i = 0;
    let events = vec![Event::Text("a".into()), Event::Text("b".into())];
    assert_eq!((render::collect_code(&events, &mut i), i), ("ab".into(), 2));
}

#[test]
fn oversized_tables_are_dropped() {
    let columns = |n: usize| format!("{}|\n{}|\n", "|a".repeat(n), "|-".repeat(n));
    assert_eq!(render::to_blocks(&columns(10)).len(), 1);
    assert!(render::to_blocks(&columns(11)).is_empty());
    let rows = |n: usize| format!("|a|\n|-|\n{}", "|x|\n".repeat(n));
    assert_eq!(render::to_blocks(&rows(99)).len(), 1, "the head counts as a row");
    assert!(render::to_blocks(&rows(100)).is_empty());
}

#[test]
fn cells_are_raw_unless_styled() {
    assert_eq!(
        render::to_blocks("| a | **b** |\n|:-:|---|\n|  | c |"),
        vec![Block::Table {
            columns: vec![Align::Center, Align::Unset],
            rows: vec![
                vec![
                    Cell::Raw("a".into()),
                    Cell::Rich(vec![Element::Text {
                        text: "b".into(),
                        style: Style::default().with_bold()
                    }])
                ],
                vec![Cell::Raw("".into()), Cell::Raw("c".into())],
            ],
        }]
    );
}

#[test]
fn columns_carry_their_alignment() {
    let setting = |a: Align| value(&column_setting(a));
    assert_eq!(setting(Align::Unset), Value::from_iter([("is_wrapped", true)]));
    assert_eq!(setting(Align::Left)["align"], "left");
    assert_eq!(setting(Align::Center)["align"], "center");
    assert_eq!(setting(Align::Right)["align"], "right");
    assert_eq!(setting(Align::Right)["is_wrapped"], true);
}

#[test]
fn a_style_is_sent_only_when_it_has_a_flag() {
    assert!(Style::default().to_json().is_none());
    let all = Style::default().with_bold().with_italic().with_strike().with_code();
    let json = value(&all.to_json().unwrap());
    for flag in ["bold", "italic", "strike", "code"] {
        assert_eq!(json[flag], true);
    }
}

#[test]
fn a_message_stays_within_the_block_cap() {
    let dividers = |n: usize| "---\n\n".repeat(n);
    let (_, blocks) = render_message(&dividers(MAX_BLOCKS));
    assert_eq!(blocks.unwrap().len(), MAX_BLOCKS);
    let (text, blocks) = render_message(&dividers(MAX_BLOCKS + 1));
    assert!(blocks.is_none());
    assert!(text.starts_with("---"), "the text is still sent");
    let (text, blocks) = render_message("  ");
    assert!(blocks.is_none());
    assert_eq!(text, "");
}

#[test]
fn lists_that_nest_too_deep_are_sent_as_text() {
    let nested = |n: usize| format!("{}x", "- ".repeat(n));
    let blocks = to_blocks_within_indent(&nested(256)).expect("an indent of 255 fits");
    assert_eq!(
        blocks,
        vec![Block::RichText(vec![RichText::List {
            ordered: false,
            indent: 255,
            sections: vec![vec![plain("x")]],
        }])]
    );
    assert!(to_blocks_within_indent(&nested(257)).is_none());
    assert_eq!(render_message(&nested(257)), (nested(257), None));
    assert!(render_message(&nested(256)).1.is_some());
}

#[test]
fn markdown_is_read_as_events() {
    assert_eq!(
        read_document("*a* b\n"),
        vec![
            Event::Start(Kind::Paragraph),
            Event::Start(Kind::Emphasis),
            Event::Text("a".into()),
            Event::End(Kind::Emphasis),
            Event::Text(" b".into()),
            Event::End(Kind::Paragraph),
        ]
    );
    assert_eq!(
        read_document("| a |\n|:-|\n"),
        vec![
            Event::Table(vec![Align::Left]),
            Event::Start(Kind::TableHead),
            Event::Start(Kind::TableCell),
            Event::Text("a".into()),
            Event::End(Kind::TableCell),
            Event::End(Kind::TableHead),
            Event::End(Kind::Table),
        ]
    );
}

#[test]
fn marks_are_named_after_the_parser() {
    let open = |name: &str| Mark::Open(name.into());
    let kinds = [
        ("Heading(H3)", Kind::Heading),
        ("BlockQuote(None)", Kind::BlockQuote),
        ("List(true)", Kind::List(true)),
        ("List(false)", Kind::List(false)),
        ("Item", Kind::Item),
        ("CodeBlock", Kind::CodeBlock),
        ("Strong", Kind::Strong),
        ("Strikethrough", Kind::Strikethrough),
        ("TableRow", Kind::TableRow),
        ("HtmlBlock", Kind::Other),
    ];
    for (name, kind) in kinds {
        assert_eq!(read_marks(vec![open(name)]), vec![Event::Start(kind)], "{name}");
    }
    let leaf = |name: &str| Mark::Leaf(name.into());
    assert_eq!(
        read_marks(vec![leaf("SoftBreak"), leaf("HardBreak"), leaf("Rule"), leaf("Html(x)")]),
        vec![Event::Break, Event::Break, Event::Rule, Event::Other]
    );
    assert_eq!(
        read_document("a  \nb\n\n***\n\n<b>"),
        vec![
            Event::Start(Kind::Paragraph),
            Event::Text("a".into()),
            Event::Break,
            Event::Text("b".into()),
            Event::End(Kind::Paragraph),
            Event::Rule,
            Event::Start(Kind::Other),
            Event::Other,
            Event::End(Kind::Other),
        ]
    );
}

#[test]
fn stray_events_never_stall_the_renderer() {
    let events = vec![
        Event::End(Kind::Paragraph),
        Event::Start(Kind::List(false)),
        Event::Start(Kind::Item),
        Event::End(Kind::Paragraph),
        Event::Start(Kind::Table),
        Event::Text("x".into()),
    ];
    assert_eq!(
        blocks_of(&events).unwrap(),
        vec![Block::RichText(vec![RichText::List {
            ordered: false,
            indent: 0,
            sections: vec![vec![plain("x")]],
        }])]
    );
    let (text, blocks) = message_of_events(" t ", &vec![Event::Rule]);
    assert_eq!((text.as_str(), blocks), ("t", Some(vec![Block::Divider])));
}

#[test]
fn documents_are_read_with_tables_and_strikethrough() {
    let options =
        pulldown_cmark::Options::ENABLE_TABLES | pulldown_cmark::Options::ENABLE_STRIKETHROUGH;
    assert_eq!(EXTENSIONS, options.bits());
}

#[test]
fn reading_past_the_end_gives_nothing() {
    let events = vec![Event::Text("a".into())];
    let mut i = 3;
    assert_eq!(render::collect_text(&events, &mut i, Kind::Heading), "");
    assert_eq!(render::collect_code(&events, &mut i), "");
    let mut out = vec![plain("kept")];
    render::push_inline(&events, &mut i, None, Style::default(), &mut out);
    assert_eq!(out, vec![plain("kept")]);
    assert_eq!(render::render_list(&events, &mut i, false, 0), Some(vec![]));
    assert!(render::render_quote(&events, &mut i).is_empty());
    assert!(render::read_row(&events, &mut i, Kind::TableRow).is_empty());
    assert_eq!(render::table(&events, &mut i, &vec![Align::Left]), None);
    assert_eq!(i, 3);
}
