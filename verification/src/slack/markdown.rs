//! Markdown as a flat run of events: what opens, what closes, and the text
//! between. The parser itself is `pulldown-cmark`; this module holds its
//! output as plain values and gives each name its meaning.
use pulldown_cmark::Event::{Code, End, Start, Text};
use pulldown_cmark::{Options, Parser, Tag};
use vstd::prelude::*;

use crate::text;
use crate::text::{same, strip_prefix};

verus! {

/// One parser event as plain values: a tag by the name the parser prints for
/// its closing event (`Paragraph`, `Heading(H1)`, `List(true)`, ...), with the
/// data that links, images and tables carry.
#[derive(Debug, PartialEq, Eq)]
pub enum Mark {
    Open(String),
    OpenLink(String),
    OpenImage(String),
    OpenTable(Vec<String>),
    Close(String),
    Text(String),
    Code(String),
    /// Any other event, by the name the parser prints for it.
    Leaf(String),
}

/// The mathematical form of a [`Mark`].
pub enum MarkView {
    Open(Seq<char>),
    OpenLink(Seq<char>),
    OpenImage(Seq<char>),
    OpenTable(Seq<Seq<char>>),
    Close(Seq<char>),
    Text(Seq<char>),
    Code(Seq<char>),
    Leaf(Seq<char>),
}

impl View for Mark {
    type V = MarkView;

    open spec fn view(&self) -> MarkView {
        match self {
            Mark::Open(name) => MarkView::Open(name@),
            Mark::OpenLink(url) => MarkView::OpenLink(url@),
            Mark::OpenImage(url) => MarkView::OpenImage(url@),
            Mark::OpenTable(columns) => MarkView::OpenTable(text::texts(columns@)),
            Mark::Close(name) => MarkView::Close(name@),
            Mark::Text(t) => MarkView::Text(t@),
            Mark::Code(t) => MarkView::Code(t@),
            Mark::Leaf(name) => MarkView::Leaf(name@),
        }
    }
}

/// The parser events of a document.
pub open spec fn marks_view(v: Seq<Mark>) -> Seq<MarkView> {
    v.map_values(|m: Mark| m@)
}

/// The bit of `pulldown_cmark::Options::ENABLE_TABLES`: GFM tables.
pub const TABLES: u32 = 2;

/// The bit of `pulldown_cmark::Options::ENABLE_STRIKETHROUGH`.
pub const STRIKETHROUGH: u32 = 8;

/// The extensions that documents are read with.
pub const EXTENSIONS: u32 = TABLES + STRIKETHROUGH;

/// What `pulldown_cmark::Parser` yields for a document, with the extensions on
/// whose bits are set.
pub uninterp spec fn markdown_marks(markdown: Seq<char>, extensions: u32) -> Seq<MarkView>;

/// The events of `pulldown_cmark::Parser::new_ext` on `markdown`, in order. A
/// tag is kept by the `Debug` name of its `TagEnd`, a link or an image by its
/// destination, a table by the `Debug` names of its column alignments, text and
/// code by what they hold, and any other event by its own `Debug` name. The
/// contract says only that the events are a function of the document and the
/// extensions.
#[verifier::external_body]
fn parse_markdown(markdown: &str, extensions: u32) -> (r: Vec<Mark>)
    ensures
        marks_view(r@) == markdown_marks(markdown@, extensions),
{
    Parser::new_ext(markdown, Options::from_bits_truncate(extensions)).map(|event| match event {
        Start(Tag::Link { dest_url, .. }) => Mark::OpenLink(dest_url.to_string()),
        Start(Tag::Image { dest_url, .. }) => Mark::OpenImage(dest_url.to_string()),
        Start(Tag::Table(a)) => Mark::OpenTable(a.iter().map(|c| format!("{c:?}")).collect()),
        Start(tag) => Mark::Open(format!("{:?}", tag.to_end())),
        End(end) => Mark::Close(format!("{end:?}")),
        Text(t) => Mark::Text(t.to_string()),
        Code(t) => Mark::Code(t.to_string()),
        other => Mark::Leaf(format!("{other:?}")),
    }).collect()
}

/// What a tag is, as far as rendering tells tags apart.
#[derive(Debug, Clone, Copy, PartialEq, Eq, Structural)]
pub enum Kind {
    Heading,
    Paragraph,
    /// A list, `true` for an ordered one.
    List(bool),
    Item,
    BlockQuote,
    CodeBlock,
    Table,
    TableHead,
    TableRow,
    TableCell,
    Emphasis,
    Strong,
    Strikethrough,
    Link,
    Image,
    Other,
}

/// A table column's alignment.
#[derive(Debug, Clone, Copy, PartialEq, Eq, Structural)]
pub enum Align {
    Unset,
    Left,
    Center,
    Right,
}

/// The kind of the tag with this printed name.
pub open spec fn kind_named(name: Seq<char>) -> Kind {
    if text::begins(name, "Heading("@) {
        Kind::Heading
    } else if name == "Paragraph"@ {
        Kind::Paragraph
    } else if name == "List(true)"@ {
        Kind::List(true)
    } else if name == "List(false)"@ {
        Kind::List(false)
    } else if name == "Item"@ {
        Kind::Item
    } else if text::begins(name, "BlockQuote("@) {
        Kind::BlockQuote
    } else if name == "CodeBlock"@ {
        Kind::CodeBlock
    } else if name == "Table"@ {
        Kind::Table
    } else if name == "TableHead"@ {
        Kind::TableHead
    } else if name == "TableRow"@ {
        Kind::TableRow
    } else if name == "TableCell"@ {
        Kind::TableCell
    } else if name == "Emphasis"@ {
        Kind::Emphasis
    } else if name == "Strong"@ {
        Kind::Strong
    } else if name == "Strikethrough"@ {
        Kind::Strikethrough
    } else if name == "Link"@ {
        Kind::Link
    } else if name == "Image"@ {
        Kind::Image
    } else {
        Kind::Other
    }
}

/// The alignment with this printed name.
pub open spec fn align_named(name: Seq<char>) -> Align {
    if name == "Left"@ {
        Align::Left
    } else if name == "Center"@ {
        Align::Center
    } else if name == "Right"@ {
        Align::Right
    } else {
        Align::Unset
    }
}

/// One event of a document.
#[derive(Debug, PartialEq, Eq)]
pub enum Event {
    /// A tag opens; links, images and tables open with an event of their own.
    Start(Kind),
    /// A link to this destination opens.
    Link(String),
    /// An image with this source opens.
    Image(String),
    /// A table with these columns opens.
    Table(Vec<Align>),
    /// A tag closes.
    End(Kind),
    Text(String),
    /// An inline code span.
    Code(String),
    /// A line break, soft or hard.
    Break,
    /// A thematic break.
    Rule,
    Other,
}

/// The mathematical form of an [`Event`].
pub enum EventView {
    Start(Kind),
    Link(Seq<char>),
    Image(Seq<char>),
    Table(Seq<Align>),
    End(Kind),
    Text(Seq<char>),
    Code(Seq<char>),
    Break,
    Rule,
    Other,
}

impl View for Event {
    type V = EventView;

    open spec fn view(&self) -> EventView {
        match self {
            Event::Start(k) => EventView::Start(*k),
            Event::Link(url) => EventView::Link(url@),
            Event::Image(url) => EventView::Image(url@),
            Event::Table(columns) => EventView::Table(columns@),
            Event::End(k) => EventView::End(*k),
            Event::Text(t) => EventView::Text(t@),
            Event::Code(t) => EventView::Code(t@),
            Event::Break => EventView::Break,
            Event::Rule => EventView::Rule,
            Event::Other => EventView::Other,
        }
    }
}

/// The events of a document.
pub open spec fn events_view(v: Seq<Event>) -> Seq<EventView> {
    v.map_values(|e: Event| e@)
}

/// The event a parser event stands for.
pub open spec fn event_of_mark(m: MarkView) -> EventView {
    match m {
        MarkView::Open(name) => EventView::Start(kind_named(name)),
        MarkView::OpenLink(url) => EventView::Link(url),
        MarkView::OpenImage(url) => EventView::Image(url),
        MarkView::OpenTable(columns) => EventView::Table(
            columns.map_values(|c: Seq<char>| align_named(c)),
        ),
        MarkView::Close(name) => EventView::End(kind_named(name)),
        MarkView::Text(t) => EventView::Text(t),
        MarkView::Code(t) => EventView::Code(t),
        MarkView::Leaf(name) => if name == "SoftBreak"@ || name == "HardBreak"@ {
            EventView::Break
        } else if name == "Rule"@ {
            EventView::Rule
        } else {
            EventView::Other
        },
    }
}

/// The events of a document, from what the parser yields for it.
pub open spec fn events_of_marks(marks: Seq<MarkView>) -> Seq<EventView> {
    marks.map_values(|m: MarkView| event_of_mark(m))
}

/// The events of a document: CommonMark with GFM tables and strikethrough.
pub open spec fn document(markdown: Seq<char>) -> Seq<EventView> {
    events_of_marks(markdown_marks(markdown, EXTENSIONS))
}

fn kind_of(name: &str) -> (r: Kind)
    ensures
        r == kind_named(name@),
{
    if strip_prefix(name, "Heading(").is_some() {
        Kind::Heading
    } else if same(name, "Paragraph") {
        Kind::Paragraph
    } else if same(name, "List(true)") {
        Kind::List(true)
    } else if same(name, "List(false)") {
        Kind::List(false)
    } else if same(name, "Item") {
        Kind::Item
    } else if strip_prefix(name, "BlockQuote(").is_some() {
        Kind::BlockQuote
    } else if same(name, "CodeBlock") {
        Kind::CodeBlock
    } else if same(name, "Table") {
        Kind::Table
    } else if same(name, "TableHead") {
        Kind::TableHead
    } else if same(name, "TableRow") {
        Kind::TableRow
    } else if same(name, "TableCell") {
        Kind::TableCell
    } else if same(name, "Emphasis") {
        Kind::Emphasis
    } else if same(name, "Strong") {
        Kind::Strong
    } else if same(name, "Strikethrough") {
        Kind::Strikethrough
    } else if same(name, "Link") {
        Kind::Link
    } else if same(name, "Image") {
        Kind::Image
    } else {
        Kind::Other
    }
}

fn align_of(name: &str) -> (r: Align)
    ensures
        r == align_named(name@),
{
    if same(name, "Left") {
        Align::Left
    } else if same(name, "Center") {
        Align::Center
    } else if same(name, "Right") {
        Align::Right
    } else {
        Align::Unset
    }
}

fn aligns_of(names: &Vec<String>) -> (r: Vec<Align>)
    ensures
        r@ == text::texts(names@).map_values(|c: Seq<char>| align_named(c)),
{
    let mut out: Vec<Align> = Vec::new();
    let mut i: usize = 0;
    while i < names.len()
        invariant
            i <= names@.len(),
            out@.len() == i,
            forall|k: int| 0 <= k < i ==> out@[k] == align_named((#[trigger] names@[k])@),
        decreases names@.len() - i,
    {
        out.push(align_of(names[i].as_str()));
        i = i + 1;
    }
    assert(out@ =~= text::texts(names@).map_values(|c: Seq<char>| align_named(c)));
    out
}

fn event_of(mark: Mark) -> (r: Event)
    ensures
        r@ == event_of_mark(mark@),
{
    match mark {
        Mark::Open(name) => Event::Start(kind_of(name.as_str())),
        Mark::OpenLink(url) => Event::Link(url),
        Mark::OpenImage(url) => Event::Image(url),
        Mark::OpenTable(columns) => Event::Table(aligns_of(&columns)),
        Mark::Close(name) => Event::End(kind_of(name.as_str())),
        Mark::Text(t) => Event::Text(t),
        Mark::Code(t) => Event::Code(t),
        Mark::Leaf(name) => {
            let name = name.as_str();
            if same(name, "SoftBreak") || same(name, "HardBreak") {
                Event::Break
            } else if same(name, "Rule") {
                Event::Rule
            } else {
                Event::Other
            }
        },
    }
}

/// The events that the parser's events stand for, one for one.
pub fn read_marks(marks: Vec<Mark>) -> (r: Vec<Event>)
    ensures
        events_view(r@) == events_of_marks(marks_view(marks@)),
{
    let mut out: Vec<Event> = Vec::new();
    let ghost all = marks_view(marks@);
    for mark in it: marks
        invariant
            all == marks_view(it.seq()),
            events_view(out@) == events_of_marks(all.take(it.index() as int)),
    {
        let ghost before = out@;
        out.push(event_of(mark));
        assert(events_view(out@) =~= events_view(before).push(event_of_mark(mark@)));
        assert(all.take(it.index() as int + 1) =~= all.take(it.index() as int).push(mark@));
        assert(events_of_marks(all.take(it.index() as int).push(mark@)) =~= events_of_marks(
            all.take(it.index() as int),
        ).push(event_of_mark(mark@)));
    }
    assert(all.take(all.len() as int) =~= all);
    out
}

/// The events of a Markdown document.
pub fn read_document(markdown: &str) -> (r: Vec<Event>)
    ensures
        events_view(r@) == document(markdown@),
{
    read_marks(parse_markdown(markdown, EXTENSIONS))
}

/// The names that the parser prints for tags are told apart: each is the kind
/// of tag that it names, headings at every level and block quotes of every kind
/// included.
pub proof fn law_tags_are_told_apart(rest: Seq<char>)
    ensures
        kind_named("Paragraph"@) == Kind::Paragraph,
        kind_named("Heading("@ + rest) == Kind::Heading,
        kind_named("List(true)"@) == Kind::List(true),
        kind_named("List(false)"@) == Kind::List(false),
        kind_named("Item"@) == Kind::Item,
        kind_named("BlockQuote("@ + rest) == Kind::BlockQuote,
        kind_named("CodeBlock"@) == Kind::CodeBlock,
        kind_named("Table"@) == Kind::Table,
        kind_named("TableHead"@) == Kind::TableHead,
        kind_named("TableRow"@) == Kind::TableRow,
        kind_named("TableCell"@) == Kind::TableCell,
        kind_named("Emphasis"@) == Kind::Emphasis,
        kind_named("Strong"@) == Kind::Strong,
        kind_named("Strikethrough"@) == Kind::Strikethrough,
        kind_named("Link"@) == Kind::Link,
        kind_named("Image"@) == Kind::Image,
        align_named("Left"@) == Align::Left,
        align_named("Center"@) == Align::Center,
        align_named("Right"@) == Align::Right,
        align_named("None"@) == Align::Unset,
{
    reveal_strlit("Paragraph");
    reveal_strlit("Heading(");
    reveal_strlit("List(true)");
    reveal_strlit("List(false)");
    reveal_strlit("Item");
    reveal_strlit("BlockQuote(");
    reveal_strlit("CodeBlock");
    reveal_strlit("Table");
    reveal_strlit("TableHead");
    reveal_strlit("TableRow");
    reveal_strlit("TableCell");
    reveal_strlit("Emphasis");
    reveal_strlit("Strong");
    reveal_strlit("Strikethrough");
    reveal_strlit("Link");
    reveal_strlit("Image");
    reveal_strlit("Left");
    reveal_strlit("Center");
    reveal_strlit("Right");
    reveal_strlit("None");
    lemma_not_heading("Paragraph"@);
    lemma_not_heading("List(true)"@);
    lemma_not_heading("List(false)"@);
    lemma_not_heading("Item"@);
    lemma_not_heading("BlockQuote("@ + rest);
    lemma_not_heading("CodeBlock"@);
    lemma_not_heading("Table"@);
    lemma_not_heading("TableHead"@);
    lemma_not_heading("TableRow"@);
    lemma_not_heading("TableCell"@);
    lemma_not_heading("Emphasis"@);
    lemma_not_heading("Strong"@);
    lemma_not_heading("Strikethrough"@);
    lemma_not_heading("Link"@);
    lemma_not_heading("Image"@);
    let heading = "Heading("@ + rest;
    assert(heading.subrange(0, 8) =~= "Heading("@);
    let quote = "BlockQuote("@ + rest;
    assert(quote.subrange(0, 11) =~= "BlockQuote("@);
    assert(quote[0] == 'B' && quote[5] == 'Q');
    assert("Paragraph"@[0] == 'P' && "List(true)"@[0] == 'L' && "List(false)"@[0] == 'L'
        && "Item"@[0] == 'I' && "CodeBlock"@[0] == 'C' && "Table"@[0] == 'T');
    assert("List(true)"@.len() == 10 && "List(false)"@.len() == 11);
    assert("TableHead"@.len() == 9 && "TableHead"@[5] == 'H' && "TableRow"@.len() == 8
        && "TableCell"@.len() == 9 && "TableCell"@[5] == 'C' && "Table"@.len() == 5);
    assert("Emphasis"@[0] == 'E' && "Strong"@.len() == 6 && "Strikethrough"@.len() == 13
        && "Strong"@[0] == 'S' && "Strikethrough"@[0] == 'S');
    assert("Link"@.len() == 4 && "Link"@[0] == 'L' && "Image"@.len() == 5 && "Image"@[0] == 'I'
        && "Item"@.len() == 4);
    assert("Left"@[0] == 'L' && "Center"@[0] == 'C' && "Right"@[0] == 'R' && "None"@[0] == 'N');
}

proof fn lemma_not_heading(name: Seq<char>)
    requires
        name.len() > 0,
    ensures
        name[0] != 'H' ==> !text::begins(name, "Heading("@),
        name[0] != 'B' ==> !text::begins(name, "BlockQuote("@),
{
    reveal_strlit("Heading(");
    reveal_strlit("BlockQuote(");
    if text::begins(name, "Heading("@) {
        assert(name.subrange(0, 8)[0] == name[0]);
    }
    if text::begins(name, "BlockQuote("@) {
        assert(name.subrange(0, 11)[0] == name[0]);
    }
}

/// The events of a document are what the parser yields for it, one for one:
/// tags by their kind, texts, code and destinations as they are, both line
/// breaks as one, and a thematic break as such.
pub proof fn law_events_are_what_the_parser_yields(marks: Seq<MarkView>, k: int)
    requires
        0 <= k < marks.len(),
    ensures
        events_of_marks(marks).len() == marks.len(),
        match marks[k] {
            MarkView::Open(name) => events_of_marks(marks)[k] == EventView::Start(kind_named(name)),
            MarkView::Close(name) => events_of_marks(marks)[k] == EventView::End(kind_named(name)),
            MarkView::OpenLink(url) => events_of_marks(marks)[k] == EventView::Link(url),
            MarkView::OpenImage(url) => events_of_marks(marks)[k] == EventView::Image(url),
            MarkView::OpenTable(names) => events_of_marks(marks)[k] matches EventView::Table(
                columns,
            ) && columns.len() == names.len() && forall|n: int|
                0 <= n < names.len() ==> #[trigger] columns[n] == align_named(names[n]),
            MarkView::Text(t) => events_of_marks(marks)[k] == EventView::Text(t),
            MarkView::Code(t) => events_of_marks(marks)[k] == EventView::Code(t),
            MarkView::Leaf(name) => {
                &&& events_of_marks(marks)[k] == EventView::Break <==> name == "SoftBreak"@ || name
                    == "HardBreak"@
                &&& events_of_marks(marks)[k] == EventView::Rule <==> name == "Rule"@
            },
        },
{
    reveal_strlit("SoftBreak");
    reveal_strlit("HardBreak");
    reveal_strlit("Rule");
    assert("Rule"@.len() == 4 && "SoftBreak"@.len() == 9 && "HardBreak"@.len() == 9);
}

} // verus!
