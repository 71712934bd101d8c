//! Slack Block Kit blocks as the renderer produces them, and the JSON each one
//! is sent as.
use vstd::prelude::*;

use crate::json;
use crate::json::{Json, JsonView, Members};
use crate::slack::markdown::Align;

verus! {

/// Inline style flags, carried down through nested emphasis.
#[derive(Debug, Clone, Copy, PartialEq, Eq, Structural)]
pub struct Style {
    pub bold: bool,
    pub italic: bool,
    pub strike: bool,
    pub code: bool,
}

impl Default for Style {
    /// No flag set.
    fn default() -> (r: Style)
        ensures
            r == Style::plain(),
    {
        Style { bold: false, italic: false, strike: false, code: false }
    }
}

impl Style {
    /// The style with no flag set.
    pub open spec fn plain() -> Style {
        Style { bold: false, italic: false, strike: false, code: false }
    }

    pub fn with_bold(self) -> (r: Style)
        ensures
            r == (Style { bold: true, ..self }),
    {
        Style { bold: true, ..self }
    }

    pub fn with_italic(self) -> (r: Style)
        ensures
            r == (Style { italic: true, ..self }),
    {
        Style { italic: true, ..self }
    }

    pub fn with_strike(self) -> (r: Style)
        ensures
            r == (Style { strike: true, ..self }),
    {
        Style { strike: true, ..self }
    }

    pub fn with_code(self) -> (r: Style)
        ensures
            r == (Style { code: true, ..self }),
    {
        Style { code: true, ..self }
    }
}

/// An inline element of a rich-text run.
#[derive(Debug, PartialEq, Eq)]
pub enum Element {
    Text { text: String, style: Style },
    Link { url: String, label: String, style: Style },
}

/// The mathematical form of an [`Element`].
pub enum ElementView {
    Text { text: Seq<char>, style: Style },
    Link { url: Seq<char>, label: Seq<char>, style: Style },
}

impl View for Element {
    type V = ElementView;

    open spec fn view(&self) -> ElementView {
        match self {
            Element::Text { text, style } => ElementView::Text { text: text@, style: *style },
            Element::Link { url, label, style } => ElementView::Link {
                url: url@,
                label: label@,
                style: *style,
            },
        }
    }
}

/// The elements of an inline run.
pub open spec fn elements_view(v: Seq<Element>) -> Seq<ElementView> {
    v.map_values(|e: Element| e@)
}

/// The sections of a list.
pub open spec fn sections_view(v: Seq<Vec<Element>>) -> Seq<Seq<ElementView>> {
    v.map_values(|s: Vec<Element>| elements_view(s@))
}

/// A part of a `rich_text` block.
#[derive(Debug, PartialEq, Eq)]
pub enum RichText {
    Section(Vec<Element>),
    Quote(Vec<Element>),
    Preformatted(String),
    /// One run of items at one indent, each item a section.
    List { ordered: bool, indent: u8, sections: Vec<Vec<Element>> },
}

/// The mathematical form of a [`RichText`].
pub enum RichTextView {
    Section(Seq<ElementView>),
    Quote(Seq<ElementView>),
    Preformatted(Seq<char>),
    List { ordered: bool, indent: nat, sections: Seq<Seq<ElementView>> },
}

impl View for RichText {
    type V = RichTextView;

    open spec fn view(&self) -> RichTextView {
        match self {
            RichText::Section(v) => RichTextView::Section(elements_view(v@)),
            RichText::Quote(v) => RichTextView::Quote(elements_view(v@)),
            RichText::Preformatted(code) => RichTextView::Preformatted(code@),
            RichText::List { ordered, indent, sections } => RichTextView::List {
                ordered: *ordered,
                indent: *indent as nat,
                sections: sections_view(sections@),
            },
        }
    }
}

/// The parts of a `rich_text` block.
pub open spec fn rich_view(v: Seq<RichText>) -> Seq<RichTextView> {
    v.map_values(|r: RichText| r@)
}

/// A table cell: plain text, or inline elements when it has links or styles.
#[derive(Debug, PartialEq, Eq)]
pub enum Cell {
    Raw(String),
    Rich(Vec<Element>),
}

/// The mathematical form of a [`Cell`].
pub enum CellView {
    Raw(Seq<char>),
    Rich(Seq<ElementView>),
}

impl View for Cell {
    type V = CellView;

    open spec fn view(&self) -> CellView {
        match self {
            Cell::Raw(text) => CellView::Raw(text@),
            Cell::Rich(v) => CellView::Rich(elements_view(v@)),
        }
    }
}

/// The cells of a row.
pub open spec fn cells_view(v: Seq<Cell>) -> Seq<CellView> {
    v.map_values(|c: Cell| c@)
}

/// The rows of a table.
pub open spec fn rows_view(v: Seq<Vec<Cell>>) -> Seq<Seq<CellView>> {
    v.map_values(|r: Vec<Cell>| cells_view(r@))
}

/// A top-level Block Kit block.
#[derive(Debug, PartialEq, Eq)]
pub enum Block {
    Header(String),
    RichText(Vec<RichText>),
    Table { columns: Vec<Align>, rows: Vec<Vec<Cell>> },
    Divider,
}

/// The mathematical form of a [`Block`].
pub enum BlockView {
    Header(Seq<char>),
    RichText(Seq<RichTextView>),
    Table { columns: Seq<Align>, rows: Seq<Seq<CellView>> },
    Divider,
}

impl View for Block {
    type V = BlockView;

    open spec fn view(&self) -> BlockView {
        match self {
            Block::Header(text) => BlockView::Header(text@),
            Block::RichText(v) => BlockView::RichText(rich_view(v@)),
            Block::Table { columns, rows } => BlockView::Table {
                columns: columns@,
                rows: rows_view(rows@),
            },
            Block::Divider => BlockView::Divider,
        }
    }
}

/// The blocks of a message.
pub open spec fn blocks_view(v: Seq<Block>) -> Seq<BlockView> {
    v.map_values(|b: Block| b@)
}

/// The members of a `style` object: one per flag that is set.
pub open spec fn style_members(style: Style) -> Seq<(Seq<char>, JsonView)> {
    let none = Seq::<(Seq<char>, JsonView)>::empty();
    let m = if style.bold {
        none.push(("bold"@, JsonView::Bool(true)))
    } else {
        none
    };
    let m = if style.italic {
        m.push(("italic"@, JsonView::Bool(true)))
    } else {
        m
    };
    let m = if style.strike {
        m.push(("strike"@, JsonView::Bool(true)))
    } else {
        m
    };
    if style.code {
        m.push(("code"@, JsonView::Bool(true)))
    } else {
        m
    }
}

/// `m` with a `style` member, when the style has a flag set.
pub open spec fn styled(m: Seq<(Seq<char>, JsonView)>, style: Style) -> Seq<
    (Seq<char>, JsonView),
> {
    if style == Style::plain() {
        m
    } else {
        m.push(("style"@, JsonView::Object(style_members(style))))
    }
}

/// The JSON of an inline element.
pub open spec fn element_json(e: ElementView) -> JsonView {
    match e {
        ElementView::Text { text, style } => JsonView::Object(
            styled(
                seq![("type"@, JsonView::Text("text"@)), ("text"@, JsonView::Text(text))],
                style,
            ),
        ),
        ElementView::Link { url, label, style } => JsonView::Object(
            styled(
                seq![
                    ("type"@, JsonView::Text("link"@)),
                    ("url"@, JsonView::Text(url)),
                    ("text"@, JsonView::Text(label)),
                ],
                style,
            ),
        ),
    }
}

/// The JSON of a run of inline elements.
pub open spec fn elements_json(v: Seq<ElementView>) -> JsonView {
    JsonView::Array(v.map_values(|e: ElementView| element_json(e)))
}

/// A typed object with an `elements` member.
pub open spec fn with_elements(kind: Seq<char>, elements: JsonView) -> JsonView {
    JsonView::Object(seq![("type"@, JsonView::Text(kind)), ("elements"@, elements)])
}

/// The JSON of a section.
pub open spec fn section_json(v: Seq<ElementView>) -> JsonView {
    with_elements("rich_text_section"@, elements_json(v))
}

/// The JSON of a part of a `rich_text` block.
pub open spec fn rich_json(r: RichTextView) -> JsonView {
    match r {
        RichTextView::Section(v) => section_json(v),
        RichTextView::Quote(v) => with_elements("rich_text_quote"@, elements_json(v)),
        RichTextView::Preformatted(code) => with_elements(
            "rich_text_preformatted"@,
            elements_json(seq![ElementView::Text { text: code, style: Style::plain() }]),
        ),
        RichTextView::List { ordered, indent, sections } => JsonView::Object(
            seq![
                ("type"@, JsonView::Text("rich_text_list"@)),
                (
                    "style"@,
                    JsonView::Text(
                        if ordered {
                            "ordered"@
                        } else {
                            "bullet"@
                        },
                    ),
                ),
                ("indent"@, JsonView::Number(indent)),
                (
                    "elements"@,
                    JsonView::Array(sections.map_values(|s: Seq<ElementView>| section_json(s))),
                ),
            ],
        ),
    }
}

/// The JSON of a table cell.
pub open spec fn cell_json(c: CellView) -> JsonView {
    match c {
        CellView::Raw(text) => JsonView::Object(
            seq![("type"@, JsonView::Text("raw_text"@)), ("text"@, JsonView::Text(text))],
        ),
        CellView::Rich(v) => with_elements("rich_text"@, JsonView::Array(seq![section_json(v)])),
    }
}

/// The JSON of a table row.
pub open spec fn row_json(r: Seq<CellView>) -> JsonView {
    JsonView::Array(r.map_values(|c: CellView| cell_json(c)))
}

/// The JSON of a column's settings.
pub open spec fn column_json(a: Align) -> JsonView {
    let wrapped = seq![("is_wrapped"@, JsonView::Bool(true))];
    JsonView::Object(
        match a {
            Align::Unset => wrapped,
            Align::Left => wrapped.push(("align"@, JsonView::Text("left"@))),
            Align::Center => wrapped.push(("align"@, JsonView::Text("center"@))),
            Align::Right => wrapped.push(("align"@, JsonView::Text("right"@))),
        },
    )
}

/// The JSON of a block.
pub open spec fn block_json(b: BlockView) -> JsonView {
    match b {
        BlockView::Header(text) => JsonView::Object(
            seq![
                ("type"@, JsonView::Text("header"@)),
                (
                    "text"@,
                    JsonView::Object(
                        seq![
                            ("type"@, JsonView::Text("plain_text"@)),
                            ("text"@, JsonView::Text(text)),
                            ("emoji"@, JsonView::Bool(true)),
                        ],
                    ),
                ),
            ],
        ),
        BlockView::RichText(v) => with_elements(
            "rich_text"@,
            JsonView::Array(v.map_values(|r: RichTextView| rich_json(r))),
        ),
        BlockView::Table { columns, rows } => JsonView::Object(
            seq![
                ("type"@, JsonView::Text("table"@)),
                (
                    "column_settings"@,
                    JsonView::Array(columns.map_values(|a: Align| column_json(a))),
                ),
                (
                    "rows"@,
                    JsonView::Array(rows.map_values(|r: Seq<CellView>| row_json(r))),
                ),
            ],
        ),
        BlockView::Divider => JsonView::Object(seq![("type"@, JsonView::Text("divider"@))]),
    }
}

impl Style {
    /// The `style` object, or `None` when no flag is set (so plain text stays
    /// free of an empty `style`).
    pub fn to_json(self) -> (r: Option<Json>)
        ensures
            r is None <==> self == Style::plain(),
            r matches Some(j) ==> j@ == JsonView::Object(style_members(self)),
    {
        if !self.bold && !self.italic && !self.strike && !self.code {
            return None;
        }
        let mut m = Members::new();
        if self.bold {
            m = m.put("bold", Json::Bool(true));
        }
        if self.italic {
            m = m.put("italic", Json::Bool(true));
        }
        if self.strike {
            m = m.put("strike", Json::Bool(true));
        }
        if self.code {
            m = m.put("code", Json::Bool(true));
        }
        Some(m.object())
    }
}

fn put_style(m: Members, style: Style) -> (r: Members)
    ensures
        r@ == styled(m@, style),
{
    match style.to_json() {
        Some(s) => m.put("style", s),
        None => m,
    }
}

fn typed(kind: &str) -> (r: Members)
    ensures
        r@ == seq![("type"@, JsonView::Text(kind@))],
{
    let m = Members::new().put_text("type", kind);
    assert(m@ =~= seq![("type"@, JsonView::Text(kind@))]);
    m
}

impl Element {
    /// The JSON this element is sent as.
    pub fn to_json(&self) -> (r: Json)
        ensures
            r@ == element_json(self@),
    {
        match self {
            Element::Text { text, style } => {
                let m = typed("text").put_text("text", text.as_str());
                assert(m@ =~= seq![
                    ("type"@, JsonView::Text("text"@)),
                    ("text"@, JsonView::Text(text@)),
                ]);
                put_style(m, *style).object()
            },
            Element::Link { url, label, style } => {
                let m = typed("link").put_text("url", url.as_str()).put_text("text", label.as_str());
                assert(m@ =~= seq![
                    ("type"@, JsonView::Text("link"@)),
                    ("url"@, JsonView::Text(url@)),
                    ("text"@, JsonView::Text(label@)),
                ]);
                put_style(m, *style).object()
            },
        }
    }
}

fn elements_to_json(v: &Vec<Element>) -> (r: Json)
    ensures
        r@ == elements_json(elements_view(v@)),
{
    let mut out: Vec<Json> = Vec::new();
    let mut i: usize = 0;
    while i < v.len()
        invariant
            i <= v@.len(),
            out@.len() == i,
            forall|k: int| 0 <= k < i ==> (#[trigger] out@[k])@ == element_json(v@[k]@),
        decreases v@.len() - i,
    {
        out.push(v[i].to_json());
        i = i + 1;
    }
    assert(json::values(out@) =~= elements_view(v@).map_values(|e: ElementView| element_json(e)));
    json::array(out)
}

fn elements_object(kind: &str, elements: Json) -> (r: Json)
    ensures
        r@ == with_elements(kind@, elements@),
{
    let m = typed(kind).put("elements", elements);
    assert(m@ =~= seq![("type"@, JsonView::Text(kind@)), ("elements"@, elements@)]);
    m.object()
}

fn section_to_json(v: &Vec<Element>) -> (r: Json)
    ensures
        r@ == section_json(elements_view(v@)),
{
    elements_object("rich_text_section", elements_to_json(v))
}

impl RichText {
    /// The JSON this part is sent as.
    pub fn to_json(&self) -> (r: Json)
        ensures
            r@ == rich_json(self@),
    {
        match self {
            RichText::Section(v) => section_to_json(v),
            RichText::Quote(v) => elements_object("rich_text_quote", elements_to_json(v)),
            RichText::Preformatted(code) => {
                let mut v: Vec<Element> = Vec::new();
                v.push(Element::Text { text: code.clone(), style: Style::default() });
                assert(elements_view(v@) =~= seq![
                    ElementView::Text { text: code@, style: Style::plain() },
                ]);
                elements_object("rich_text_preformatted", elements_to_json(&v))
            },
            RichText::List { ordered, indent, sections } => {
                let mut out: Vec<Json> = Vec::new();
                let mut i: usize = 0;
                while i < sections.len()
                    invariant
                        i <= sections@.len(),
                        out@.len() == i,
                        forall|k: int|
                            0 <= k < i ==> (#[trigger] out@[k])@ == section_json(
                                elements_view(sections@[k]@),
                            ),
                    decreases sections@.len() - i,
                {
                    out.push(section_to_json(&sections[i]));
                    i = i + 1;
                }
                assert(json::values(out@) =~= sections_view(sections@).map_values(
                    |s: Seq<ElementView>| section_json(s),
                ));
                let style: &str = if *ordered {
                    "ordered"
                } else {
                    "bullet"
                };
                let m = typed("rich_text_list").put_text("style", style).put(
                    "indent",
                    Json::Number(*indent as u64),
                ).put("elements", json::array(out));
                let r = m.object();
                assert(r@->Object_0 =~= rich_json(self@)->Object_0);
                r
            },
        }
    }
}

impl Cell {
    /// The JSON this cell is sent as.
    pub fn to_json(&self) -> (r: Json)
        ensures
            r@ == cell_json(self@),
    {
        match self {
            Cell::Raw(text) => {
                let m = typed("raw_text").put_text("text", text.as_str());
                assert(m@ =~= seq![
                    ("type"@, JsonView::Text("raw_text"@)),
                    ("text"@, JsonView::Text(text@)),
                ]);
                m.object()
            },
            Cell::Rich(v) => {
                let mut one: Vec<Json> = Vec::new();
                one.push(section_to_json(v));
                assert(json::values(one@) =~= seq![section_json(elements_view(v@))]);
                elements_object("rich_text", json::array(one))
            },
        }
    }
}

fn row_to_json(row: &Vec<Cell>) -> (r: Json)
    ensures
        r@ == row_json(cells_view(row@)),
{
    let mut out: Vec<Json> = Vec::new();
    let mut i: usize = 0;
    while i < row.len()
        invariant
            i <= row@.len(),
            out@.len() == i,
            forall|k: int| 0 <= k < i ==> (#[trigger] out@[k])@ == cell_json(row@[k]@),
        decreases row@.len() - i,
    {
        out.push(row[i].to_json());
        i = i + 1;
    }
    assert(json::values(out@) =~= cells_view(row@).map_values(|c: CellView| cell_json(c)));
    json::array(out)
}

/// A `column_settings` entry: wrap long content, and carry the alignment when
/// the column has one.
pub fn column_setting(align: Align) -> (r: Json)
    ensures
        r@ == column_json(align),
{
    let m = Members::new().put("is_wrapped", Json::Bool(true));
    assert(m@ =~= seq![("is_wrapped"@, JsonView::Bool(true))]);
    match align {
        Align::Unset => m.object(),
        Align::Left => m.put_text("align", "left").object(),
        Align::Center => m.put_text("align", "center").object(),
        Align::Right => m.put_text("align", "right").object(),
    }
}

fn columns_to_json(columns: &Vec<Align>) -> (r: Json)
    ensures
        r@ == JsonView::Array(columns@.map_values(|a: Align| column_json(a))),
{
    let mut out: Vec<Json> = Vec::new();
    let mut i: usize = 0;
    while i < columns.len()
        invariant
            i <= columns@.len(),
            out@.len() == i,
            forall|k: int| 0 <= k < i ==> (#[trigger] out@[k])@ == column_json(columns@[k]),
        decreases columns@.len() - i,
    {
        out.push(column_setting(columns[i]));
        i = i + 1;
    }
    assert(json::values(out@) =~= columns@.map_values(|a: Align| column_json(a)));
    json::array(out)
}

fn rows_to_json(rows: &Vec<Vec<Cell>>) -> (r: Json)
    ensures
        r@ == JsonView::Array(rows_view(rows@).map_values(|c: Seq<CellView>| row_json(c))),
{
    let mut out: Vec<Json> = Vec::new();
    let mut i: usize = 0;
    while i < rows.len()
        invariant
            i <= rows@.len(),
            out@.len() == i,
            forall|k: int| 0 <= k < i ==> (#[trigger] out@[k])@ == row_json(cells_view(rows@[k]@)),
        decreases rows@.len() - i,
    {
        out.push(row_to_json(&rows[i]));
        i = i + 1;
    }
    assert(json::values(out@) =~= rows_view(rows@).map_values(|c: Seq<CellView>| row_json(c)));
    json::array(out)
}

fn rich_to_json(v: &Vec<RichText>) -> (r: Json)
    ensures
        r@ == JsonView::Array(rich_view(v@).map_values(|x: RichTextView| rich_json(x))),
{
    let mut out: Vec<Json> = Vec::new();
    let mut i: usize = 0;
    while i < v.len()
        invariant
            i <= v@.len(),
            out@.len() == i,
            forall|k: int| 0 <= k < i ==> (#[trigger] out@[k])@ == rich_json(v@[k]@),
        decreases v@.len() - i,
    {
        out.push(v[i].to_json());
        i = i + 1;
    }
    assert(json::values(out@) =~= rich_view(v@).map_values(|x: RichTextView| rich_json(x)));
    json::array(out)
}

impl Block {
    /// The JSON this block is sent as.
    pub fn to_json(&self) -> (r: Json)
        ensures
            r@ == block_json(self@),
    {
        match self {
            Block::Header(text) => {
                let inner = typed("plain_text").put_text("text", text.as_str()).put(
                    "emoji",
                    Json::Bool(true),
                );
                assert(inner@ =~= seq![
                    ("type"@, JsonView::Text("plain_text"@)),
                    ("text"@, JsonView::Text(text@)),
                    ("emoji"@, JsonView::Bool(true)),
                ]);
                let r = typed("header").put("text", inner.object()).object();
                assert(r@->Object_0 =~= block_json(self@)->Object_0);
                r
            },
            Block::RichText(v) => elements_object("rich_text", rich_to_json(v)),
            Block::Table { columns, rows } => {
                let r = typed("table").put("column_settings", columns_to_json(columns)).put(
                    "rows",
                    rows_to_json(rows),
                ).object();
                assert(r@->Object_0 =~= block_json(self@)->Object_0);
                r
            },
            Block::Divider => typed("divider").object(),
        }
    }
}

/// The JSON array a message's blocks are sent as.
pub fn blocks_to_json(blocks: &Vec<Block>) -> (r: Json)
    ensures
        r@ == JsonView::Array(blocks_view(blocks@).map_values(|b: BlockView| block_json(b))),
{
    let mut out: Vec<Json> = Vec::new();
    let mut i: usize = 0;
    while i < blocks.len()
        invariant
            i <= blocks@.len(),
            out@.len() == i,
            forall|k: int| 0 <= k < i ==> (#[trigger] out@[k])@ == block_json(blocks@[k]@),
        decreases blocks@.len() - i,
    {
        out.push(blocks[i].to_json());
        i = i + 1;
    }
    assert(json::values(out@) =~= blocks_view(blocks@).map_values(|b: BlockView| block_json(b)));
    json::array(out)
}

} // verus!
