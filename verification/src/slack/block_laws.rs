//! What the JSON of a block is for: Slack reads it by the names that Block Kit
//! documents, and what it reads there is the block.
use vstd::prelude::*;

use crate::json;
use crate::json::JsonView;
use crate::slack::blocks;
use crate::slack::blocks::{BlockView, CellView, ElementView, RichTextView, Style};
use crate::slack::markdown::Align;

verus! {

/// The text that an object has under `key`.
pub open spec fn text_at(j: JsonView, key: Seq<char>) -> Seq<char> {
    match json::member(j, key) {
        Some(JsonView::Text(t)) => t,
        _ => seq![],
    }
}

/// The values that an object has under `key`.
pub open spec fn values_at(j: JsonView, key: Seq<char>) -> Seq<JsonView> {
    match json::member(j, key) {
        Some(JsonView::Array(v)) => v,
        _ => seq![],
    }
}

/// Whether an object says yes under `key`.
pub open spec fn flag_at(j: JsonView, key: Seq<char>) -> bool {
    json::member(j, key) == Some(JsonView::Bool(true))
}

/// The style that Slack reads on an element.
pub open spec fn read_style(j: JsonView) -> Style {
    match json::member(j, "style"@) {
        Some(s) => Style {
            bold: flag_at(s, "bold"@),
            italic: flag_at(s, "italic"@),
            strike: flag_at(s, "strike"@),
            code: flag_at(s, "code"@),
        },
        None => Style { bold: false, italic: false, strike: false, code: false },
    }
}

/// The element that Slack reads.
pub open spec fn read_element(j: JsonView) -> Option<ElementView> {
    if text_at(j, "type"@) == "text"@ {
        Some(ElementView::Text { text: text_at(j, "text"@), style: read_style(j) })
    } else if text_at(j, "type"@) == "link"@ {
        Some(
            ElementView::Link {
                url: text_at(j, "url"@),
                label: text_at(j, "text"@),
                style: read_style(j),
            },
        )
    } else {
        None
    }
}

/// Whether the values are these elements, one for one.
pub open spec fn are_elements(values: Seq<JsonView>, v: Seq<ElementView>) -> bool {
    values.len() == v.len() && forall|k: int|
        0 <= k < v.len() ==> read_element(#[trigger] values[k]) == Some(v[k])
}

/// Whether the object is a section of these elements.
pub open spec fn is_section(j: JsonView, v: Seq<ElementView>) -> bool {
    text_at(j, "type"@) == "rich_text_section"@ && are_elements(values_at(j, "elements"@), v)
}

/// Whether the object is this part of a rich text.
pub open spec fn is_rich(j: JsonView, r: RichTextView) -> bool {
    match r {
        RichTextView::Section(v) => is_section(j, v),
        RichTextView::Quote(v) => text_at(j, "type"@) == "rich_text_quote"@ && are_elements(
            values_at(j, "elements"@),
            v,
        ),
        RichTextView::Preformatted(code) => text_at(j, "type"@) == "rich_text_preformatted"@
            && are_elements(
            values_at(j, "elements"@),
            seq![
                ElementView::Text {
                    text: code,
                    style: Style { bold: false, italic: false, strike: false, code: false },
                },
            ],
        ),
        RichTextView::List { ordered, indent, sections } => {
            let items = values_at(j, "elements"@);
            &&& text_at(j, "type"@) == "rich_text_list"@
            &&& text_at(j, "style"@) == if ordered {
                "ordered"@
            } else {
                "bullet"@
            }
            &&& json::member(j, "indent"@) == Some(JsonView::Number(indent))
            &&& items.len() == sections.len()
            &&& forall|k: int|
                0 <= k < sections.len() ==> is_section(#[trigger] items[k], sections[k])
        },
    }
}

/// Whether the object is this cell.
pub open spec fn is_cell(j: JsonView, c: CellView) -> bool {
    match c {
        CellView::Raw(t) => text_at(j, "type"@) == "raw_text"@ && text_at(j, "text"@) == t,
        CellView::Rich(v) => text_at(j, "type"@) == "rich_text"@ && values_at(
            j,
            "elements"@,
        ).len() == 1 && is_section(values_at(j, "elements"@)[0], v),
    }
}

/// Whether the value is this row.
pub open spec fn is_row(j: JsonView, r: Seq<CellView>) -> bool {
    j matches JsonView::Array(cells) && cells.len() == r.len() && forall|k: int|
        0 <= k < r.len() ==> is_cell(#[trigger] cells[k], r[k])
}

/// Whether the object sets a column up like this: wrapped, and aligned unless
/// nothing is said of that.
pub open spec fn is_column(j: JsonView, a: Align) -> bool {
    flag_at(j, "is_wrapped"@) && json::member(j, "align"@) == match a {
        Align::Unset => None,
        Align::Left => Some(JsonView::Text("left"@)),
        Align::Center => Some(JsonView::Text("center"@)),
        Align::Right => Some(JsonView::Text("right"@)),
    }
}

/// Whether the object is this block.
pub open spec fn is_block(j: JsonView, b: BlockView) -> bool {
    match b {
        BlockView::Header(t) => text_at(j, "type"@) == "header"@ && (json::member(
            j,
            "text"@,
        ) matches Some(title) && text_at(title, "type"@) == "plain_text"@ && text_at(
            title,
            "text"@,
        ) == t),
        BlockView::RichText(parts) => {
            let v = values_at(j, "elements"@);
            &&& text_at(j, "type"@) == "rich_text"@
            &&& v.len() == parts.len()
            &&& forall|k: int| 0 <= k < parts.len() ==> is_rich(#[trigger] v[k], parts[k])
        },
        BlockView::Table { columns, rows } => {
            let settings = values_at(j, "column_settings"@);
            let v = values_at(j, "rows"@);
            &&& text_at(j, "type"@) == "table"@
            &&& settings.len() == columns.len()
            &&& forall|k: int|
                0 <= k < columns.len() ==> is_column(#[trigger] settings[k], columns[k])
            &&& v.len() == rows.len()
            &&& forall|k: int| 0 <= k < rows.len() ==> is_row(#[trigger] v[k], rows[k])
        },
        BlockView::Divider => text_at(j, "type"@) == "divider"@,
    }
}

/// One more member says what it says, unless an earlier one has its name.
proof fn lemma_member_push(
    m: Seq<(Seq<char>, JsonView)>,
    key: Seq<char>,
    value: JsonView,
    other: Seq<char>,
)
    ensures
        json::member_in(m.push((key, value)), other) == match json::member_in(m, other) {
            Some(v) => Some(v),
            None => if other == key {
                Some(value)
            } else {
                None
            },
        },
    decreases m.len(),
{
    reveal_with_fuel(json::member_in, 2);
    let all = m.push((key, value));
    if m.len() > 0 {
        assert(all.drop_first() =~= m.drop_first().push((key, value)));
        lemma_member_push(m.drop_first(), key, value, other);
    } else {
        assert(all.drop_first() =~= seq![]);
    }
}

/// The names of members that stand side by side are different ones.
proof fn lemma_names_differ()
    ensures
        "type"@ != "text"@,
        "type"@ != "url"@,
        "text"@ != "url"@,
        "type"@ != "style"@,
        "text"@ != "style"@,
        "url"@ != "style"@,
        "text"@ != "link"@,
        "type"@ != "elements"@,
        "style"@ != "elements"@,
        "type"@ != "indent"@,
        "style"@ != "indent"@,
        "indent"@ != "elements"@,
        "type"@ != "emoji"@,
        "text"@ != "emoji"@,
        "type"@ != "rows"@,
        "type"@ != "column_settings"@,
        "rows"@ != "column_settings"@,
        "is_wrapped"@ != "align"@,
        "bold"@ != "italic"@,
        "bold"@ != "strike"@,
        "bold"@ != "code"@,
        "italic"@ != "strike"@,
        "italic"@ != "code"@,
        "strike"@ != "code"@,
{
    reveal_strlit("type");
    reveal_strlit("text");
    reveal_strlit("url");
    reveal_strlit("style");
    reveal_strlit("link");
    reveal_strlit("elements");
    reveal_strlit("indent");
    reveal_strlit("emoji");
    reveal_strlit("rows");
    reveal_strlit("column_settings");
    reveal_strlit("is_wrapped");
    reveal_strlit("align");
    reveal_strlit("bold");
    reveal_strlit("italic");
    reveal_strlit("strike");
    reveal_strlit("code");
    assert("type"@[1] != "text"@[1]);
    assert("text"@[0] != "link"@[0]);
    assert("type"@[0] != "rows"@[0]);
    assert("bold"@[0] != "code"@[0]);
    assert("italic"@[0] != "strike"@[0]);
    assert("type"@.len() == 4 && "text"@.len() == 4 && "url"@.len() == 3 && "style"@.len() == 5
        && "elements"@.len() == 8 && "indent"@.len() == 6 && "emoji"@.len() == 5 && "rows"@.len()
        == 4 && "column_settings"@.len() == 15 && "is_wrapped"@.len() == 10 && "align"@.len() == 5
        && "bold"@.len() == 4 && "italic"@.len() == 6 && "strike"@.len() == 6 && "code"@.len()
        == 4);
}

/// What the flags of a style say.
proof fn lemma_style(style: Style)
    ensures
        ({
            let s = JsonView::Object(blocks::style_members(style));
            &&& flag_at(s, "bold"@) == style.bold
            &&& flag_at(s, "italic"@) == style.italic
            &&& flag_at(s, "strike"@) == style.strike
            &&& flag_at(s, "code"@) == style.code
        }),
{
    lemma_names_differ();
    let yes = JsonView::Bool(true);
    let none = Seq::<(Seq<char>, JsonView)>::empty();
    let a = if style.bold {
        none.push(("bold"@, yes))
    } else {
        none
    };
    let b = if style.italic {
        a.push(("italic"@, yes))
    } else {
        a
    };
    let c = if style.strike {
        b.push(("strike"@, yes))
    } else {
        b
    };
    assert forall|key: Seq<char>|
        key == "bold"@ || key == "italic"@ || key == "strike"@ || key
            == "code"@ implies #[trigger] json::member_in(blocks::style_members(style), key)
        == if (key == "bold"@ && style.bold) || (key == "italic"@ && style.italic) || (key
        == "strike"@ && style.strike) || (key == "code"@ && style.code) {
        Some(yes)
    } else {
        None
    } by {
        lemma_member_push(none, "bold"@, yes, key);
        lemma_member_push(a, "italic"@, yes, key);
        lemma_member_push(b, "strike"@, yes, key);
        lemma_member_push(c, "code"@, yes, key);
    }
    let all = blocks::style_members(style);
    assert(flag_at(JsonView::Object(all), "bold"@) == (json::member_in(all, "bold"@) == Some(
        yes,
    )));
    assert(flag_at(JsonView::Object(all), "italic"@) == (json::member_in(all, "italic"@) == Some(
        yes,
    )));
    assert(flag_at(JsonView::Object(all), "strike"@) == (json::member_in(all, "strike"@) == Some(
        yes,
    )));
    assert(flag_at(JsonView::Object(all), "code"@) == (json::member_in(all, "code"@) == Some(
        yes,
    )));
}

/// Members with a style say what they said, and the style.
proof fn lemma_styled(m: Seq<(Seq<char>, JsonView)>, style: Style, key: Seq<char>)
    requires
        json::member_in(m, "style"@) is None,
    ensures
        key != "style"@ ==> json::member_in(blocks::styled(m, style), key) == json::member_in(
            m,
            key,
        ),
        read_style(JsonView::Object(blocks::styled(m, style))) == style,
{
    let s = JsonView::Object(blocks::style_members(style));
    lemma_member_push(m, "style"@, s, key);
    lemma_member_push(m, "style"@, s, "style"@);
    lemma_style(style);
}

/// What two members say.
proof fn lemma_two(m: Seq<(Seq<char>, JsonView)>)
    requires
        m.len() == 2,
        m[0].0 != m[1].0,
    ensures
        json::member_in(m, m[0].0) == Some(m[0].1),
        json::member_in(m, m[1].0) == Some(m[1].1),
        forall|key: Seq<char>|
            key != m[0].0 && key != m[1].0 ==> (#[trigger] json::member_in(m, key)) is None,
{
    reveal_with_fuel(json::member_in, 3);
    let a = m.drop_first();
    assert(a[0] == m[1]);
    assert(a.drop_first().len() == 0);
}

/// An inline element is read as it is: its text, its destination, and every
/// flag of its style.
pub proof fn law_an_element_is_read_as_it_is(e: ElementView)
    ensures
        read_element(blocks::element_json(e)) == Some(e),
{
    lemma_names_differ();
    match e {
        ElementView::Text { text, style } => {
            let m = seq![
                ("type"@, JsonView::Text("text"@)),
                ("text"@, JsonView::Text(text)),
            ];
            lemma_two(m);
            lemma_styled(m, style, "type"@);
            lemma_styled(m, style, "text"@);
        },
        ElementView::Link { url, label, style } => {
            let m = seq![
                ("type"@, JsonView::Text("link"@)),
                ("url"@, JsonView::Text(url)),
                ("text"@, JsonView::Text(label)),
            ];
            json::lemma_three_members(m);
            lemma_styled(m, style, "type"@);
            lemma_styled(m, style, "url"@);
            lemma_styled(m, style, "text"@);
        },
    }
}

proof fn lemma_elements(v: Seq<ElementView>)
    ensures
        blocks::elements_json(v) matches JsonView::Array(values) && are_elements(values, v),
{
    let values = v.map_values(|e: ElementView| blocks::element_json(e));
    assert forall|k: int| 0 <= k < v.len() implies read_element(#[trigger] values[k]) == Some(
        v[k],
    ) by {
        law_an_element_is_read_as_it_is(v[k]);
    }
}

proof fn lemma_with_elements(kind: Seq<char>, elements: Seq<JsonView>)
    ensures
        ({
            let j = blocks::with_elements(kind, JsonView::Array(elements));
            text_at(j, "type"@) == kind && values_at(j, "elements"@) == elements
        }),
{
    lemma_names_differ();
    lemma_two(
        seq![("type"@, JsonView::Text(kind)), ("elements"@, JsonView::Array(elements))],
    );
}

proof fn lemma_section(v: Seq<ElementView>)
    ensures
        is_section(blocks::section_json(v), v),
{
    lemma_elements(v);
    lemma_with_elements("rich_text_section"@, blocks::elements_json(v)->Array_0);
}

/// A part of a rich text is read as it is: what kind of part, all its elements
/// in order, and of a list also its style, its indent and all its items.
pub proof fn law_a_part_is_read_as_it_is(r: RichTextView)
    ensures
        is_rich(blocks::rich_json(r), r),
{
    match r {
        RichTextView::Section(v) => {
            lemma_section(v);
        },
        RichTextView::Quote(v) => {
            lemma_elements(v);
            lemma_with_elements("rich_text_quote"@, blocks::elements_json(v)->Array_0);
        },
        RichTextView::Preformatted(code) => {
            let v = seq![ElementView::Text { text: code, style: Style::plain() }];
            lemma_elements(v);
            lemma_with_elements("rich_text_preformatted"@, blocks::elements_json(v)->Array_0);
        },
        RichTextView::List { ordered, indent, sections } => {
            lemma_names_differ();
            let j = blocks::rich_json(r);
            let m = j->Object_0;
            let items = sections.map_values(|s: Seq<ElementView>| blocks::section_json(s));
            reveal_with_fuel(json::member_in, 5);
            let a = m.drop_first();
            let b = a.drop_first();
            let c = b.drop_first();
            assert(a[0] == m[1] && b[0] == m[2] && c[0] == m[3]);
            assert(values_at(j, "elements"@) == items);
            assert forall|k: int| 0 <= k < sections.len() implies is_section(
                #[trigger] items[k],
                sections[k],
            ) by {
                lemma_section(sections[k]);
            }
        },
    }
}

proof fn lemma_cell(c: CellView)
    ensures
        is_cell(blocks::cell_json(c), c),
{
    lemma_names_differ();
    match c {
        CellView::Raw(t) => {
            lemma_two(blocks::cell_json(c)->Object_0);
        },
        CellView::Rich(v) => {
            lemma_section(v);
            lemma_with_elements("rich_text"@, seq![blocks::section_json(v)]);
        },
    }
}

proof fn lemma_row(r: Seq<CellView>)
    ensures
        is_row(blocks::row_json(r), r),
{
    let cells = r.map_values(|c: CellView| blocks::cell_json(c));
    assert forall|k: int| 0 <= k < r.len() implies is_cell(#[trigger] cells[k], r[k]) by {
        lemma_cell(r[k]);
    }
}

proof fn lemma_column(a: Align)
    ensures
        is_column(blocks::column_json(a), a),
{
    lemma_names_differ();
    reveal_with_fuel(json::member_in, 3);
    let m = blocks::column_json(a)->Object_0;
    let rest = m.drop_first();
    if !(a is Unset) {
        assert(rest[0] == m[1]);
        assert(rest.drop_first().len() == 0);
    } else {
        assert(rest.len() == 0);
    }
}

/// A block is read as it is: a header's title, all the parts of a rich text, a
/// table's columns, rows and cells, each in order.
pub proof fn law_a_block_is_read_as_it_is(b: BlockView)
    ensures
        is_block(blocks::block_json(b), b),
{
    lemma_names_differ();
    let j = blocks::block_json(b);
    match b {
        BlockView::Header(t) => {
            lemma_two(j->Object_0);
            json::lemma_three_members(j->Object_0[1].1->Object_0);
        },
        BlockView::RichText(parts) => {
            let v = parts.map_values(|r: RichTextView| blocks::rich_json(r));
            lemma_with_elements("rich_text"@, v);
            assert forall|k: int| 0 <= k < parts.len() implies is_rich(#[trigger] v[k], parts[k]) by {
                law_a_part_is_read_as_it_is(parts[k]);
            }
        },
        BlockView::Table { columns, rows } => {
            json::lemma_three_members(j->Object_0);
            let settings = columns.map_values(|a: Align| blocks::column_json(a));
            let v = rows.map_values(|r: Seq<CellView>| blocks::row_json(r));
            assert(values_at(j, "column_settings"@) == settings);
            assert(values_at(j, "rows"@) == v);
            assert forall|k: int| 0 <= k < columns.len() implies is_column(
                #[trigger] settings[k],
                columns[k],
            ) by {
                lemma_column(columns[k]);
            }
            assert forall|k: int| 0 <= k < rows.len() implies is_row(#[trigger] v[k], rows[k]) by {
                lemma_row(rows[k]);
            }
        },
        BlockView::Divider => {
            reveal_with_fuel(json::member_in, 2);
        },
    }
}

} // verus!
