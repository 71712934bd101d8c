//! What rendering is for, stated over documents as they are written: a tree of
//! headings, paragraphs, nested lists, quotes, code and tables, with inline
//! content in them. The parser hands such a document over as a flat run of
//! events; rendering that run gives, block by block, what the tree says.
use vstd::prelude::*;

use crate::slack::blocks::{BlockView, CellView, ElementView, RichTextView, Style};
use crate::slack::markdown::{Align, EventView, Kind};
use crate::slack::render;
use crate::text;

verus! {

/// A piece of inline content.
pub enum Inline {
    Text(Seq<char>),
    /// A code span.
    Code(Seq<char>),
    /// A line break.
    Break,
    /// Something that is not shown.
    Other,
    /// Content under emphasis, strong emphasis or strikethrough.
    Styled(Kind, Seq<Inline>),
    /// A link to this destination, with its label.
    Link(Seq<char>, Seq<Inline>),
    /// An image with this source, and what stands for it.
    Image(Seq<char>, Seq<Inline>),
}

/// The events of inline content, one piece after the other.
pub open spec fn written(v: Seq<Inline>) -> Seq<EventView>
    decreases v,
{
    if v.len() == 0 {
        seq![]
    } else {
        written_one(v[0]) + written(v.subrange(1, v.len() as int))
    }
}

/// The events of one piece: what it holds stands between its tags.
pub open spec fn written_one(x: Inline) -> Seq<EventView>
    decreases x,
{
    match x {
        Inline::Text(t) => seq![EventView::Text(t)],
        Inline::Code(t) => seq![EventView::Code(t)],
        Inline::Break => seq![EventView::Break],
        Inline::Other => seq![EventView::Other],
        Inline::Styled(k, v) => seq![EventView::Start(k)] + written(v) + seq![EventView::End(k)],
        Inline::Link(url, v) => seq![EventView::Link(url)] + written(v) + seq![
            EventView::End(Kind::Link),
        ],
        Inline::Image(url, v) => seq![EventView::Image(url)] + written(v) + seq![
            EventView::End(Kind::Image),
        ],
    }
}

/// What inline content says as plain text: a line break is a space.
pub open spec fn said(v: Seq<Inline>) -> Seq<char>
    decreases v,
{
    if v.len() == 0 {
        seq![]
    } else {
        said_one(v[0]) + said(v.subrange(1, v.len() as int))
    }
}

/// What one piece says as plain text.
pub open spec fn said_one(x: Inline) -> Seq<char>
    decreases x,
{
    match x {
        Inline::Text(t) => t,
        Inline::Code(t) => t,
        Inline::Break => seq![' '],
        Inline::Other => seq![],
        Inline::Styled(_, v) => said(v),
        Inline::Link(_, v) => said(v),
        Inline::Image(_, v) => said(v),
    }
}

/// What inline content means: its texts in order, each in the style of all the
/// tags around it, its links with their labels.
pub open spec fn meant(v: Seq<Inline>, style: Style) -> Seq<ElementView>
    decreases v,
{
    if v.len() == 0 {
        seq![]
    } else {
        meant_one(v[0], style) + meant(v.subrange(1, v.len() as int), style)
    }
}

/// Text in a style; Slack takes no empty text.
pub open spec fn text_in(t: Seq<char>, style: Style) -> Seq<ElementView> {
    if t.len() == 0 {
        seq![]
    } else {
        seq![ElementView::Text { text: t, style }]
    }
}

/// A link in a style: without a label its destination stands for it.
pub open spec fn link_in(url: Seq<char>, label: Seq<char>, style: Style) -> ElementView {
    if label.len() == 0 {
        ElementView::Link { url, label: url, style }
    } else {
        ElementView::Link { url, label, style }
    }
}

/// What one piece means.
pub open spec fn meant_one(x: Inline, style: Style) -> Seq<ElementView>
    decreases x,
{
    match x {
        Inline::Text(t) => text_in(t, style),
        Inline::Code(t) => text_in(
            t,
            Style { bold: style.bold, italic: style.italic, strike: style.strike, code: true },
        ),
        Inline::Break => seq![ElementView::Text { text: seq!['\n'], style }],
        Inline::Other => seq![],
        Inline::Styled(k, v) => meant(
            v,
            Style {
                bold: style.bold || k is Strong,
                italic: style.italic || k is Emphasis,
                strike: style.strike || k is Strikethrough,
                code: style.code,
            },
        ),
        Inline::Link(url, v) => seq![link_in(url, said(v), style)],
        Inline::Image(url, v) => seq![link_in(url, said(v), style)],
    }
}

/// Whether no piece, however deep, closes with this tag.
pub open spec fn free_of(v: Seq<Inline>, tag: Kind) -> bool
    decreases v,
{
    v.len() > 0 ==> free_one(v[0], tag) && free_of(v.subrange(1, v.len() as int), tag)
}

/// Whether neither the piece nor any in it closes with this tag.
pub open spec fn free_one(x: Inline, tag: Kind) -> bool
    decreases x,
{
    match x {
        Inline::Styled(k, v) => k != tag && free_of(v, tag),
        Inline::Link(_, v) => tag != Kind::Link && free_of(v, tag),
        Inline::Image(_, v) => tag != Kind::Image && free_of(v, tag),
        _ => true,
    }
}

/// Whether the content is one that Markdown has: only styling tags style, and
/// neither links nor images stand inside their own.
pub open spec fn is_inline(v: Seq<Inline>) -> bool
    decreases v,
{
    v.len() > 0 ==> is_inline_one(v[0]) && is_inline(v.subrange(1, v.len() as int))
}

/// Whether the piece is one that Markdown has.
pub open spec fn is_inline_one(x: Inline) -> bool
    decreases x,
{
    match x {
        Inline::Styled(k, v) => (k is Emphasis || k is Strong || k is Strikethrough) && is_inline(
            v,
        ),
        Inline::Link(_, v) => is_inline(v) && free_of(v, Kind::Link),
        Inline::Image(_, v) => is_inline(v) && free_of(v, Kind::Image),
        _ => true,
    }
}

/// Whether these events stand in the document at `i`.
pub open spec fn stands(ev: Seq<EventView>, i: int, part: Seq<EventView>) -> bool {
    0 <= i && i + part.len() <= ev.len() && ev.subrange(i, i + part.len()) == part
}

proof fn lemma_stands(ev: Seq<EventView>, i: int, a: Seq<EventView>, b: Seq<EventView>)
    requires
        stands(ev, i, a + b),
    ensures
        stands(ev, i, a),
        stands(ev, i + a.len(), b),
{
    let all = a + b;
    assert(ev.subrange(i, i + a.len()) =~= a) by {
        assert forall|k: int| 0 <= k < a.len() implies ev.subrange(i, i + a.len())[k] == a[k] by {
            assert(all[k] == ev.subrange(i, i + all.len())[k]);
        }
    }
    let j = i + a.len();
    assert(ev.subrange(j, j + b.len()) =~= b) by {
        assert forall|k: int| 0 <= k < b.len() implies ev.subrange(j, j + b.len())[k] == b[k] by {
            assert(all[a.len() + k] == ev.subrange(i, i + all.len())[a.len() + k]);
        }
    }
}

/// What stands between an opening and a closing event.
proof fn lemma_between(
    ev: Seq<EventView>,
    i: int,
    open: EventView,
    v: Seq<EventView>,
    close: EventView,
)
    requires
        stands(ev, i, seq![open] + v + seq![close]),
    ensures
        0 <= i,
        ev[i] == open,
        stands(ev, i + 1, v),
        ev[i + 1 + v.len()] == close,
        i + 2 + v.len() <= ev.len(),
        (seq![open] + v + seq![close]).len() == v.len() + 2,
{
    lemma_stands(ev, i, seq![open] + v, seq![close]);
    lemma_stands(ev, i, seq![open], v);
    assert(ev.subrange(i, i + 1)[0] == ev[i]);
    let j = i + 1 + v.len();
    assert(ev.subrange(j, j + 1)[0] == ev[j]);
}

/// The plain text of a run of events is what was written there, then the rest.
proof fn lemma_said(ev: Seq<EventView>, i: int, v: Seq<Inline>, end: Kind)
    requires
        stands(ev, i, written(v)),
        free_of(v, end),
    ensures
        ({
            let rest = render::text_run(ev, i + written(v).len(), end);
            render::text_run(ev, i, end) == (said(v) + rest.0, rest.1)
        }),
    decreases v,
{
    if v.len() == 0 {
        let rest = render::text_run(ev, i, end);
        assert(said(v) + rest.0 =~= rest.0);
    } else {
        let tail = v.subrange(1, v.len() as int);
        let one = written_one(v[0]);
        lemma_stands(ev, i, one, written(tail));
        lemma_said_one(ev, i, v[0], end);
        let j = i + one.len();
        lemma_said(ev, j, tail, end);
        let rest = render::text_run(ev, j + written(tail).len(), end);
        assert(said_one(v[0]) + (said(tail) + rest.0) =~= said(v) + rest.0);
    }
}

proof fn lemma_said_one(ev: Seq<EventView>, i: int, x: Inline, end: Kind)
    requires
        stands(ev, i, written_one(x)),
        free_one(x, end),
    ensures
        ({
            let rest = render::text_run(ev, i + written_one(x).len(), end);
            render::text_run(ev, i, end) == (said_one(x) + rest.0, rest.1)
        }),
    decreases x,
{
    let one = written_one(x);
    let rest = render::text_run(ev, i + one.len(), end);
    match x {
        Inline::Styled(k, v) => {
            lemma_between(ev, i, EventView::Start(k), written(v), EventView::End(k));
            lemma_said(ev, i + 1, v, end);
            assert(render::text_run(ev, i + 1 + written(v).len(), end) == rest);
        },
        Inline::Link(url, v) => {
            lemma_between(ev, i, EventView::Link(url), written(v), EventView::End(Kind::Link));
            lemma_said(ev, i + 1, v, end);
            assert(render::text_run(ev, i + 1 + written(v).len(), end) == rest);
        },
        Inline::Image(url, v) => {
            lemma_between(ev, i, EventView::Image(url), written(v), EventView::End(Kind::Image));
            lemma_said(ev, i + 1, v, end);
            assert(render::text_run(ev, i + 1 + written(v).len(), end) == rest);
        },
        _ => {
            assert(ev.subrange(i, i + 1)[0] == ev[i]);
            reveal_strlit(" ");
            assert(" "@ =~= seq![' ']);
            assert(Seq::<char>::empty() + rest.0 =~= rest.0);
        },
    }
}

/// Rendering a run of inline content gives what it means, then the rest.
proof fn lemma_meant(ev: Seq<EventView>, i: int, v: Seq<Inline>, end: Option<Kind>, style: Style)
    requires
        stands(ev, i, written(v)),
        is_inline(v),
    ensures
        ({
            let rest = render::inline_run(ev, i + written(v).len(), end, style);
            render::inline_run(ev, i, end, style) == (meant(v, style) + rest.0, rest.1)
        }),
    decreases v,
{
    if v.len() == 0 {
        let rest = render::inline_run(ev, i, end, style);
        assert(meant(v, style) + rest.0 =~= rest.0);
    } else {
        let tail = v.subrange(1, v.len() as int);
        let one = written_one(v[0]);
        lemma_stands(ev, i, one, written(tail));
        lemma_meant_one(ev, i, v[0], end, style);
        let j = i + one.len();
        lemma_meant(ev, j, tail, end, style);
        let rest = render::inline_run(ev, j + written(tail).len(), end, style);
        assert(meant_one(v[0], style) + (meant(tail, style) + rest.0) =~= meant(v, style)
            + rest.0);
    }
}

proof fn lemma_meant_one(
    ev: Seq<EventView>,
    i: int,
    x: Inline,
    end: Option<Kind>,
    style: Style,
)
    requires
        stands(ev, i, written_one(x)),
        is_inline_one(x),
    ensures
        ({
            let rest = render::inline_run(ev, i + written_one(x).len(), end, style);
            render::inline_run(ev, i, end, style) == (meant_one(x, style) + rest.0, rest.1)
        }),
    decreases x,
{
    let one = written_one(x);
    let rest = render::inline_run(ev, i + one.len(), end, style);
    match x {
        Inline::Styled(k, v) => {
            lemma_between(ev, i, EventView::Start(k), written(v), EventView::End(k));
            let inner = render::style_inside(k, style);
            lemma_meant(ev, i + 1, v, Some(k), inner);
            let j = i + 1 + written(v).len();
            assert(render::inline_run(ev, j, Some(k), inner) == (
                Seq::<ElementView>::empty(),
                j + 1,
            ));
            assert(meant(v, inner) + Seq::<ElementView>::empty() =~= meant(v, inner));
        },
        Inline::Link(url, v) => {
            lemma_between(ev, i, EventView::Link(url), written(v), EventView::End(Kind::Link));
            lemma_said(ev, i + 1, v, Kind::Link);
            let j = i + 1 + written(v).len();
            assert(render::text_run(ev, j, Kind::Link) == (Seq::<char>::empty(), j + 1));
            assert(said(v) + Seq::<char>::empty() =~= said(v));
        },
        Inline::Image(url, v) => {
            lemma_between(ev, i, EventView::Image(url), written(v), EventView::End(Kind::Image));
            lemma_said(ev, i + 1, v, Kind::Image);
            let j = i + 1 + written(v).len();
            assert(render::text_run(ev, j, Kind::Image) == (Seq::<char>::empty(), j + 1));
            assert(said(v) + Seq::<char>::empty() =~= said(v));
        },
        _ => {
            assert(ev.subrange(i, i + 1)[0] == ev[i]);
            reveal_strlit("\n");
            assert("\n"@ =~= seq!['\n']);
            assert(Seq::<ElementView>::empty() + rest.0 =~= rest.0);
        },
    }
}

/// Inline content up to its closing tag is what it means, and ends past the tag.
proof fn lemma_meant_to(ev: Seq<EventView>, i: int, v: Seq<Inline>, tag: Kind)
    requires
        stands(ev, i, written(v)),
        i + written(v).len() < ev.len(),
        ev[i + written(v).len()] == EventView::End(tag),
        is_inline(v),
    ensures
        render::inline_run(ev, i, Some(tag), Style::plain()) == (
            meant(v, Style::plain()),
            i + written(v).len() + 1,
        ),
{
    lemma_meant(ev, i, v, Some(tag), Style::plain());
    let j = i + written(v).len();
    assert(render::inline_run(ev, j, Some(tag), Style::plain()) == (
        Seq::<ElementView>::empty(),
        j + 1,
    ));
    assert(meant(v, Style::plain()) + Seq::<ElementView>::empty() =~= meant(v, Style::plain()));
}

/// A part of a list item.
pub enum Part {
    /// Inline content as a tight item has it.
    Loose(Seq<Inline>),
    Para(Seq<Inline>),
    /// A code block, as the texts that the parser hands it over in.
    Code(Seq<Seq<char>>),
    /// A list inside the item, ordered or not, of these items.
    List(bool, Seq<Seq<Part>>),
}

/// The texts of a code block as events.
pub open spec fn written_texts(v: Seq<Seq<char>>) -> Seq<EventView> {
    Seq::new(v.len(), |k: int| EventView::Text(v[k]))
}

/// The events of an item's parts.
pub open spec fn written_parts(v: Seq<Part>) -> Seq<EventView>
    decreases v,
{
    if v.len() == 0 {
        seq![]
    } else {
        written_part(v[0]) + written_parts(v.subrange(1, v.len() as int))
    }
}

/// The events of one part.
pub open spec fn written_part(p: Part) -> Seq<EventView>
    decreases p,
{
    match p {
        Part::Loose(v) => written(v),
        Part::Para(v) => seq![EventView::Start(Kind::Paragraph)] + written(v) + seq![
            EventView::End(Kind::Paragraph),
        ],
        Part::Code(v) => seq![EventView::Start(Kind::CodeBlock)] + written_texts(v) + seq![
            EventView::End(Kind::CodeBlock),
        ],
        Part::List(ordered, items) => seq![EventView::Start(Kind::List(ordered))] + written_items(
            items,
        ) + seq![EventView::End(Kind::List(ordered))],
    }
}

/// The events of a list's items.
pub open spec fn written_items(v: Seq<Seq<Part>>) -> Seq<EventView>
    decreases v,
{
    if v.len() == 0 {
        seq![]
    } else {
        seq![EventView::Start(Kind::Item)] + written_parts(v[0]) + seq![
            EventView::End(Kind::Item),
        ] + written_items(v.subrange(1, v.len() as int))
    }
}

/// What a code block holds: its texts, without the newline that ends the last
/// line.
pub open spec fn code_of(v: Seq<Seq<char>>) -> Seq<char> {
    let all = all_of(v);
    if all.len() > 0 && all[all.len() - 1] == '\n' {
        all.subrange(0, all.len() - 1)
    } else {
        all
    }
}

/// The texts one after the other.
pub open spec fn all_of(v: Seq<Seq<char>>) -> Seq<char>
    decreases v.len(),
{
    if v.len() == 0 {
        seq![]
    } else {
        v[0] + all_of(v.subrange(1, v.len() as int))
    }
}

/// What a list is made of, in the order it is written.
pub enum Piece {
    /// What an item says, up to a list inside it or to its end.
    Section(Seq<ElementView>),
    /// A list inside an item, rendered.
    Inner(Seq<RichTextView>),
}

/// A section, unless it says nothing.
pub open spec fn section(v: Seq<ElementView>) -> Seq<Piece> {
    if v.len() == 0 {
        seq![]
    } else {
        seq![Piece::Section(v)]
    }
}

/// The style of a code span.
pub open spec fn code_style() -> Style {
    Style { bold: false, italic: false, strike: false, code: true }
}

/// The pieces of an item: what it says before, between and after the lists
/// inside it, and those lists. `said` is what it has said so far.
pub open spec fn item_pieces(v: Seq<Part>, said: Seq<ElementView>, indent: nat) -> Seq<Piece>
    decreases v, 0nat,
{
    if v.len() == 0 {
        section(said)
    } else {
        let rest = v.subrange(1, v.len() as int);
        match v[0] {
            Part::Loose(x) => item_pieces(rest, said + meant(x, Style::plain()), indent),
            Part::Para(x) => item_pieces(rest, said + meant(x, Style::plain()), indent),
            Part::Code(x) => item_pieces(rest, said + text_in(code_of(x), code_style()), indent),
            Part::List(ordered, items) => section(said) + seq![
                Piece::Inner(list_meant(ordered, (indent + 1) as nat, items)),
            ] + item_pieces(rest, seq![], indent),
        }
    }
}

/// The pieces of a list's items, one item after the other.
pub open spec fn items_pieces(v: Seq<Seq<Part>>, indent: nat) -> Seq<Piece>
    decreases v, 0nat,
{
    if v.len() == 0 {
        seq![]
    } else {
        item_pieces(v[0], seq![], indent) + items_pieces(v.subrange(1, v.len() as int), indent)
    }
}

/// A run of sections at one indent, unless there is none.
pub open spec fn one_run(ordered: bool, indent: nat, sections: Seq<Seq<ElementView>>) -> Seq<
    RichTextView,
> {
    if sections.len() == 0 {
        seq![]
    } else {
        seq![RichTextView::List { ordered, indent, sections }]
    }
}

/// The pieces in order, sections that follow one another in one run: the parts
/// that are closed off, and the run that is still open.
pub open spec fn runs(
    ordered: bool,
    indent: nat,
    open: Seq<Seq<ElementView>>,
    pieces: Seq<Piece>,
) -> (Seq<RichTextView>, Seq<Seq<ElementView>>)
    decreases pieces.len(),
{
    if pieces.len() == 0 {
        (seq![], open)
    } else {
        let rest = pieces.subrange(1, pieces.len() as int);
        match pieces[0] {
            Piece::Section(v) => runs(ordered, indent, open.push(v), rest),
            Piece::Inner(parts) => {
                let after = runs(ordered, indent, seq![], rest);
                (one_run(ordered, indent, open) + parts + after.0, after.1)
            },
        }
    }
}

/// What a list means: the sections of its items, each list inside an item in
/// its place and one indent deeper.
pub open spec fn list_meant(ordered: bool, indent: nat, items: Seq<Seq<Part>>) -> Seq<RichTextView>
    decreases items, 1nat,
{
    let all = runs(ordered, indent, seq![], items_pieces(items, indent));
    all.0 + one_run(ordered, indent, all.1)
}

/// Whether an item is one that Markdown has, and no list in it is deeper than
/// an indent can say.
pub open spec fn is_item(v: Seq<Part>, indent: nat) -> bool
    decreases v,
{
    v.len() > 0 ==> is_part(v[0], indent) && is_item(v.subrange(1, v.len() as int), indent)
}

/// Whether the part of an item is.
pub open spec fn is_part(p: Part, indent: nat) -> bool
    decreases p,
{
    match p {
        Part::Loose(v) => is_inline(v),
        Part::Para(v) => is_inline(v),
        Part::Code(_) => true,
        Part::List(_, items) => indent < 255 && are_items(items, (indent + 1) as nat),
    }
}

/// Whether all the items of a list are.
pub open spec fn are_items(v: Seq<Seq<Part>>, indent: nat) -> bool
    decreases v,
{
    v.len() > 0 ==> is_item(v[0], indent) && are_items(v.subrange(1, v.len() as int), indent)
}

proof fn lemma_code(ev: Seq<EventView>, i: int, v: Seq<Seq<char>>)
    requires
        stands(ev, i, written_texts(v)),
        i + v.len() < ev.len(),
        ev[i + v.len()] == EventView::End(Kind::CodeBlock),
    ensures
        render::raw_code_run(ev, i) == (all_of(v), i + v.len() + 1),
        render::code_run(ev, i) == (code_of(v), i + v.len() + 1),
    decreases v.len(),
{
    if v.len() > 0 {
        let tail = v.subrange(1, v.len() as int);
        assert(written_texts(v) =~= seq![EventView::Text(v[0])] + written_texts(tail));
        lemma_stands(ev, i, seq![EventView::Text(v[0])], written_texts(tail));
        assert(ev.subrange(i, i + 1)[0] == ev[i]);
        lemma_code(ev, i + 1, tail);
    }
    let all = all_of(v);
    if all.len() > 0 {
        assert(all.drop_last() =~= all.subrange(0, all.len() - 1));
    }
}

/// Every piece of inline content is written out as one event at least, and not
/// one that opens or closes a block.
proof fn lemma_first_event(v: Seq<Inline>)
    requires
        is_inline(v),
    ensures
        v.len() == 0 ==> written(v).len() == 0,
        v.len() > 0 ==> written(v).len() > 0 && match written(v)[0] {
            EventView::Start(k) => render::is_styling(k),
            EventView::End(_) => false,
            EventView::Table(_) => false,
            EventView::Rule => false,
            _ => true,
        },
{
    if v.len() > 0 {
        assert(is_inline_one(v[0]));
        let one = written_one(v[0]);
        assert(one.len() > 0);
        assert(written(v)[0] == one[0]);
    }
}

/// A run of inline content that goes nowhere renders nothing, and stands before
/// an event that opens or closes a block, or at the end.
proof fn lemma_progress(ev: Seq<EventView>, j: int)
    requires
        0 <= j <= ev.len(),
    ensures
        ({
            let run = render::inline_run(ev, j, None, Style::plain());
            &&& run.1 == j ==> run.0 == Seq::<ElementView>::empty()
            &&& run.1 > j ==> j < ev.len() && match ev[j] {
                EventView::Start(k) => render::is_styling(k),
                EventView::End(_) => false,
                EventView::Table(_) => false,
                _ => true,
            }
        }),
{
    let style = Style::plain();
    if j < ev.len() {
        match ev[j] {
            EventView::Start(k) => {
                if render::is_styling(k) {
                    let s = render::style_inside(k, style);
                    render::lemma_inline_run(ev, j + 1, Some(k), s);
                    let inside = render::inline_run(ev, j + 1, Some(k), s);
                    render::lemma_inline_run(ev, inside.1, None, style);
                }
            },
            EventView::Link(_) => {
                render::lemma_text_run(ev, j + 1, Kind::Link);
                render::lemma_inline_run(
                    ev,
                    render::text_run(ev, j + 1, Kind::Link).1,
                    None,
                    style,
                );
            },
            EventView::Image(_) => {
                render::lemma_text_run(ev, j + 1, Kind::Image);
                render::lemma_inline_run(
                    ev,
                    render::text_run(ev, j + 1, Kind::Image).1,
                    None,
                    style,
                );
            },
            _ => {
                render::lemma_inline_run(ev, j + 1, None, style);
            },
        }
    }
}

/// Inline content of an item is added to what the item says.
proof fn lemma_loose(
    ev: Seq<EventView>,
    i: int,
    ordered: bool,
    indent: nat,
    sections: Seq<Seq<ElementView>>,
    sec: Seq<ElementView>,
    v: Seq<Inline>,
)
    requires
        stands(ev, i, written(v)),
        is_inline(v),
    ensures
        render::item_run(ev, i, ordered, indent, sections, sec) == render::item_run(
            ev,
            i + written(v).len(),
            ordered,
            indent,
            sections,
            sec + meant(v, Style::plain()),
        ),
{
    lemma_first_event(v);
    let m = meant(v, Style::plain());
    if v.len() == 0 {
        assert(sec + m =~= sec);
    } else {
        let j = i + written(v).len();
        assert(ev.subrange(i, j)[0] == ev[i]);
        lemma_meant(ev, i, v, None, Style::plain());
        let rest = render::inline_run(ev, j, None, Style::plain());
        render::lemma_inline_run(ev, j, None, Style::plain());
        assert(sec + (m + rest.0) =~= (sec + m) + rest.0);
        assert(render::item_run(ev, i, ordered, indent, sections, sec) == render::item_run(
            ev,
            rest.1,
            ordered,
            indent,
            sections,
            (sec + m) + rest.0,
        ));
        assert((sec + m) + Seq::<ElementView>::empty() =~= sec + m);
        lemma_progress(ev, j);
        if rest.1 > j {
            assert(render::item_run(ev, j, ordered, indent, sections, sec + m)
                == render::item_run(
                ev,
                rest.1,
                ordered,
                indent,
                sections,
                (sec + m) + rest.0,
            ));
        }
    }
}

/// Closing off an item's elements is what taking in their section is.
proof fn lemma_section(
    ordered: bool,
    indent: nat,
    open: Seq<Seq<ElementView>>,
    sec: Seq<ElementView>,
    rest: Seq<Piece>,
)
    ensures
        runs(ordered, indent, open, section(sec) + rest) == runs(
            ordered,
            indent,
            render::close_section(open, sec),
            rest,
        ),
{
    let all = section(sec) + rest;
    if sec.len() == 0 {
        assert(all =~= rest);
    } else {
        assert(all.subrange(1, all.len() as int) =~= rest);
    }
}

/// Pieces are taken in one after the other.
proof fn lemma_runs(
    ordered: bool,
    indent: nat,
    open: Seq<Seq<ElementView>>,
    a: Seq<Piece>,
    b: Seq<Piece>,
)
    ensures
        ({
            let first = runs(ordered, indent, open, a);
            let second = runs(ordered, indent, first.1, b);
            runs(ordered, indent, open, a + b) == (first.0 + second.0, second.1)
        }),
    decreases a.len(),
{
    let all = a + b;
    if a.len() == 0 {
        assert(all =~= b);
        let second = runs(ordered, indent, open, b);
        assert(Seq::<RichTextView>::empty() + second.0 =~= second.0);
    } else {
        let tail = a.subrange(1, a.len() as int);
        assert(all.subrange(1, all.len() as int) =~= tail + b);
        assert(all[0] == a[0]);
        match a[0] {
            Piece::Section(v) => {
                lemma_runs(ordered, indent, open.push(v), tail, b);
            },
            Piece::Inner(parts) => {
                lemma_runs(ordered, indent, seq![], tail, b);
                let x = one_run(ordered, indent, open) + parts;
                let first = runs(ordered, indent, seq![], tail);
                let second = runs(ordered, indent, first.1, b);
                assert(x + (first.0 + second.0) =~= (x + first.0) + second.0);
            },
        }
    }
}

/// Rendering the items of a list gives their pieces, and goes on after them.
proof fn lemma_items(
    ev: Seq<EventView>,
    i: int,
    ordered: bool,
    indent: nat,
    sections: Seq<Seq<ElementView>>,
    items: Seq<Seq<Part>>,
)
    requires
        stands(ev, i, written_items(items)),
        are_items(items, indent),
    ensures
        ({
            let all = runs(ordered, indent, sections, items_pieces(items, indent));
            render::list_run(ev, i, ordered, indent, sections) == render::then_parts(
                all.0,
                render::list_run(ev, i + written_items(items).len(), ordered, indent, all.1),
            )
        }),
    decreases items, 1nat,
{
    if items.len() == 0 {
        let rest = render::list_run(ev, i, ordered, indent, sections);
        if let Some(run) = rest {
            assert(Seq::<RichTextView>::empty() + run.0 =~= run.0);
        }
    } else {
        let tail = items.subrange(1, items.len() as int);
        let own = seq![EventView::Start(Kind::Item)] + written_parts(items[0]) + seq![
            EventView::End(Kind::Item),
        ];
        lemma_stands(ev, i, own, written_items(tail));
        lemma_between(
            ev,
            i,
            EventView::Start(Kind::Item),
            written_parts(items[0]),
            EventView::End(Kind::Item),
        );
        lemma_item(ev, i + 1, ordered, indent, sections, seq![], items[0]);
        let first = item_pieces(items[0], seq![], indent);
        let a = runs(ordered, indent, sections, first);
        let j = i + own.len();
        lemma_items(ev, j, ordered, indent, a.1, tail);
        lemma_runs(ordered, indent, sections, first, items_pieces(tail, indent));
        let b = runs(ordered, indent, a.1, items_pieces(tail, indent));
        let rest = render::list_run(ev, j + written_items(tail).len(), ordered, indent, b.1);
        if let Some(run) = rest {
            assert(a.0 + (b.0 + run.0) =~= (a.0 + b.0) + run.0);
        }
    }
}

/// A list from inside its opening tag to its closing one is what it means.
proof fn lemma_list(
    ev: Seq<EventView>,
    i: int,
    ordered: bool,
    indent: nat,
    items: Seq<Seq<Part>>,
)
    requires
        stands(ev, i, written_items(items)),
        i + written_items(items).len() < ev.len(),
        ev[i + written_items(items).len()] == EventView::End(Kind::List(ordered)),
        are_items(items, indent),
    ensures
        render::list_run(ev, i, ordered, indent, seq![]) == Some(
            (list_meant(ordered, indent, items), i + written_items(items).len() + 1),
        ),
    decreases items, 2nat,
{
    lemma_items(ev, i, ordered, indent, seq![], items);
}

/// Rendering an item gives its pieces, and goes on after it.
proof fn lemma_item(
    ev: Seq<EventView>,
    i: int,
    ordered: bool,
    indent: nat,
    sections: Seq<Seq<ElementView>>,
    sec: Seq<ElementView>,
    item: Seq<Part>,
)
    requires
        stands(ev, i, written_parts(item)),
        i + written_parts(item).len() < ev.len(),
        ev[i + written_parts(item).len()] == EventView::End(Kind::Item),
        is_item(item, indent),
    ensures
        ({
            let all = runs(ordered, indent, sections, item_pieces(item, sec, indent));
            render::item_run(ev, i, ordered, indent, sections, sec) == render::then_parts(
                all.0,
                render::list_run(ev, i + written_parts(item).len() + 1, ordered, indent, all.1),
            )
        }),
    decreases item, 0nat,
{
    let n = written_parts(item).len();
    let goal = render::list_run(
        ev,
        i + n + 1,
        ordered,
        indent,
        runs(ordered, indent, sections, item_pieces(item, sec, indent)).1,
    );
    if let Some(run) = goal {
        assert(Seq::<RichTextView>::empty() + run.0 =~= run.0);
    }
    if item.len() == 0 {
        let closed = render::close_section(sections, sec);
        lemma_section(ordered, indent, sections, sec, seq![]);
        assert(section(sec) + Seq::<Piece>::empty() =~= section(sec));
        assert(runs(ordered, indent, sections, section(sec)) == (
            Seq::<RichTextView>::empty(),
            closed,
        ));
    } else {
        assert(is_part(item[0], indent));
        let tail = item.subrange(1, item.len() as int);
        let own = written_part(item[0]);
        lemma_stands(ev, i, own, written_parts(tail));
        let j = i + own.len();
        match item[0] {
            Part::Loose(v) => {
                lemma_loose(ev, i, ordered, indent, sections, sec, v);
                lemma_item(
                    ev,
                    j,
                    ordered,
                    indent,
                    sections,
                    sec + meant(v, Style::plain()),
                    tail,
                );
            },
            Part::Para(v) => {
                lemma_between(
                    ev,
                    i,
                    EventView::Start(Kind::Paragraph),
                    written(v),
                    EventView::End(Kind::Paragraph),
                );
                lemma_meant_to(ev, i + 1, v, Kind::Paragraph);
                lemma_item(
                    ev,
                    j,
                    ordered,
                    indent,
                    sections,
                    sec + meant(v, Style::plain()),
                    tail,
                );
            },
            Part::Code(v) => {
                lemma_between(
                    ev,
                    i,
                    EventView::Start(Kind::CodeBlock),
                    written_texts(v),
                    EventView::End(Kind::CodeBlock),
                );
                lemma_code(ev, i + 1, v);
                lemma_item(
                    ev,
                    j,
                    ordered,
                    indent,
                    sections,
                    sec + text_in(code_of(v), code_style()),
                    tail,
                );
            },
            Part::List(inner, items) => {
                lemma_between(
                    ev,
                    i,
                    EventView::Start(Kind::List(inner)),
                    written_items(items),
                    EventView::End(Kind::List(inner)),
                );
                lemma_list(ev, i + 1, inner, (indent + 1) as nat, items);
                lemma_item(ev, j, ordered, indent, seq![], seq![], tail);
                let parts = list_meant(inner, (indent + 1) as nat, items);
                let after = item_pieces(tail, seq![], indent);
                let closed = render::close_section(sections, sec);
                let deep = seq![Piece::Inner(parts)] + after;
                assert(section(sec) + seq![Piece::Inner(parts)] + after =~= section(sec) + deep);
                lemma_section(ordered, indent, sections, sec, deep);
                assert(deep.subrange(1, deep.len() as int) =~= after);
                let rest = runs(ordered, indent, seq![], after);
                let x = one_run(ordered, indent, closed) + parts;
                assert(x == render::list_parts(ordered, indent, closed) + parts);
                let next = render::list_run(ev, i + n + 1, ordered, indent, rest.1);
                if let Some(run) = next {
                    assert(x + (rest.0 + run.0) =~= (x + rest.0) + run.0);
                }
            },
        }
    }
}

/// A part of a block quote.
pub enum Quoted {
    Para(Seq<Inline>),
    /// Inline content outside a paragraph, as in a heading or an item.
    Loose(Seq<Inline>),
    /// An event that opens or closes some other block.
    Tag(EventView),
}

/// Whether the event opens or closes a block other than a paragraph or a quote.
pub open spec fn is_tag(e: EventView) -> bool {
    match e {
        EventView::Start(k) => !(k is Emphasis || k is Strong || k is Strikethrough || k is
            Paragraph),
        EventView::End(k) => k != Kind::BlockQuote,
        _ => false,
    }
}

/// The events of a quote's parts.
pub open spec fn written_quote(v: Seq<Quoted>) -> Seq<EventView>
    decreases v.len(),
{
    if v.len() == 0 {
        seq![]
    } else {
        (match v[0] {
            Quoted::Para(x) => seq![EventView::Start(Kind::Paragraph)] + written(x) + seq![
                EventView::End(Kind::Paragraph),
            ],
            Quoted::Loose(x) => written(x),
            Quoted::Tag(e) => seq![e],
        }) + written_quote(v.subrange(1, v.len() as int))
    }
}

/// What a quote means: all its inline content in order, each paragraph after
/// the first content on a new line. `had` is what it has said so far.
pub open spec fn quote_meant(v: Seq<Quoted>, had: Seq<ElementView>) -> Seq<ElementView>
    decreases v.len(),
{
    if v.len() == 0 {
        had
    } else {
        let rest = v.subrange(1, v.len() as int);
        match v[0] {
            Quoted::Para(x) => if had.len() == 0 {
                quote_meant(rest, meant(x, Style::plain()))
            } else {
                quote_meant(
                    rest,
                    had + text_in(seq!['\n'], Style::plain()) + meant(x, Style::plain()),
                )
            },
            Quoted::Loose(x) => quote_meant(rest, had + meant(x, Style::plain())),
            Quoted::Tag(_) => quote_meant(rest, had),
        }
    }
}

/// Whether the quote is one that Markdown has.
pub open spec fn is_quote(v: Seq<Quoted>) -> bool {
    forall|k: int|
        0 <= k < v.len() ==> match #[trigger] v[k] {
            Quoted::Para(x) => is_inline(x),
            Quoted::Loose(x) => is_inline(x),
            Quoted::Tag(e) => is_tag(e),
        }
}

proof fn lemma_quote_loose(ev: Seq<EventView>, i: int, had: Seq<ElementView>, v: Seq<Inline>)
    requires
        stands(ev, i, written(v)),
        is_inline(v),
    ensures
        render::quote_run(ev, i, had) == render::quote_run(
            ev,
            i + written(v).len(),
            had + meant(v, Style::plain()),
        ),
{
    lemma_first_event(v);
    let m = meant(v, Style::plain());
    if v.len() == 0 {
        assert(had + m =~= had);
    } else {
        let j = i + written(v).len();
        assert(ev.subrange(i, j)[0] == ev[i]);
        lemma_meant(ev, i, v, None, Style::plain());
        let rest = render::inline_run(ev, j, None, Style::plain());
        render::lemma_inline_run(ev, j, None, Style::plain());
        assert(had + (m + rest.0) =~= (had + m) + rest.0);
        assert(render::quote_run(ev, i, had) == render::quote_run(
            ev,
            rest.1,
            (had + m) + rest.0,
        ));
        assert((had + m) + Seq::<ElementView>::empty() =~= had + m);
        lemma_progress(ev, j);
        if rest.1 > j {
            assert(render::quote_run(ev, j, had + m) == render::quote_run(
                ev,
                rest.1,
                (had + m) + rest.0,
            ));
        }
    }
}

proof fn lemma_quote(ev: Seq<EventView>, i: int, had: Seq<ElementView>, v: Seq<Quoted>)
    requires
        stands(ev, i, written_quote(v)),
        i + written_quote(v).len() < ev.len(),
        ev[i + written_quote(v).len()] == EventView::End(Kind::BlockQuote),
        is_quote(v),
    ensures
        render::quote_run(ev, i, had) == (quote_meant(v, had), i + written_quote(v).len() + 1),
    decreases v.len(),
{
    if v.len() > 0 {
        let tail = v.subrange(1, v.len() as int);
        assert forall|k: int| 0 <= k < tail.len() implies match #[trigger] tail[k] {
            Quoted::Para(x) => is_inline(x),
            Quoted::Loose(x) => is_inline(x),
            Quoted::Tag(e) => is_tag(e),
        } by {
            assert(tail[k] == v[k + 1]);
        }
        let own = match v[0] {
            Quoted::Para(x) => seq![EventView::Start(Kind::Paragraph)] + written(x) + seq![
                EventView::End(Kind::Paragraph),
            ],
            Quoted::Loose(x) => written(x),
            Quoted::Tag(e) => seq![e],
        };
        lemma_stands(ev, i, own, written_quote(tail));
        let j = i + own.len();
        match v[0] {
            Quoted::Para(x) => {
                lemma_between(
                    ev,
                    i,
                    EventView::Start(Kind::Paragraph),
                    written(x),
                    EventView::End(Kind::Paragraph),
                );
                lemma_meant_to(ev, i + 1, x, Kind::Paragraph);
                let m = meant(x, Style::plain());
                reveal_strlit("\n");
                assert("\n"@ =~= seq!['\n']);
                if had.len() == 0 {
                    assert(had + m =~= m);
                    lemma_quote(ev, j, m, tail);
                } else {
                    lemma_quote(ev, j, had + text_in(seq!['\n'], Style::plain()) + m, tail);
                }
            },
            Quoted::Loose(x) => {
                lemma_quote_loose(ev, i, had, x);
                lemma_quote(ev, j, had + meant(x, Style::plain()), tail);
            },
            Quoted::Tag(e) => {
                assert(ev.subrange(i, i + 1)[0] == ev[i]);
                assert(render::inline_run(ev, i, None, Style::plain()) == (
                    Seq::<ElementView>::empty(),
                    i,
                ));
                assert(had + Seq::<ElementView>::empty() =~= had);
                lemma_quote(ev, j, had, tail);
            },
        }
    }
}

/// The text that a run of elements shows.
pub open spec fn shown_of(v: Seq<ElementView>) -> Seq<char>
    decreases v.len(),
{
    if v.len() == 0 {
        seq![]
    } else {
        (match v[0] {
            ElementView::Text { text, .. } => text,
            ElementView::Link { label, .. } => label,
        }) + shown_of(v.subrange(1, v.len() as int))
    }
}

proof fn lemma_shown_push(v: Seq<ElementView>, e: ElementView)
    ensures
        shown_of(v.push(e)) == shown_of(v) + render::shown(e),
    decreases v.len(),
{
    reveal_with_fuel(shown_of, 2);
    let all = v.push(e);
    if v.len() == 0 {
        assert(all.subrange(1, all.len() as int) =~= seq![]);
        assert(shown_of(all) =~= render::shown(e));
        assert(shown_of(v) + render::shown(e) =~= render::shown(e));
    } else {
        let tail = v.subrange(1, v.len() as int);
        assert(all.subrange(1, all.len() as int) =~= tail.push(e));
        lemma_shown_push(tail, e);
        assert(shown_of(all) =~= shown_of(v) + render::shown(e));
    }
}

proof fn lemma_shown(v: Seq<ElementView>)
    ensures
        shown_of(v) == render::shown_text(v),
    decreases v.len(),
{
    if v.len() > 0 {
        lemma_shown(v.drop_last());
        lemma_shown_push(v.drop_last(), v.last());
        assert(v =~= v.drop_last().push(v.last()));
    }
}

/// What a cell means: its text when nothing in it is styled or linked, else its
/// elements.
pub open spec fn cell_meant(v: Seq<Inline>) -> CellView {
    let elements = meant(v, Style::plain());
    if forall|k: int|
        0 <= k < elements.len() ==> (#[trigger] elements[k] matches ElementView::Text { style, .. }
            && !style.bold && !style.italic && !style.strike && !style.code) {
        CellView::Raw(shown_of(elements))
    } else {
        CellView::Rich(elements)
    }
}

proof fn lemma_cell(v: Seq<Inline>)
    ensures
        render::cell_of(meant(v, Style::plain())) == cell_meant(v),
{
    let elements = meant(v, Style::plain());
    lemma_shown(elements);
    if render::all_plain(elements) {
        assert forall|k: int| 0 <= k < elements.len() implies (#[trigger] elements[k] matches
            ElementView::Text { style, .. } && !style.bold && !style.italic && !style.strike
            && !style.code) by {
            assert(render::is_plain(elements[k]));
        }
    } else {
        let k = choose|k: int| 0 <= k < elements.len() && !render::is_plain(#[trigger] elements[k]);
        assert(!render::is_plain(elements[k]));
    }
}

/// The events of a row's cells.
pub open spec fn written_cells(v: Seq<Seq<Inline>>) -> Seq<EventView>
    decreases v.len(),
{
    if v.len() == 0 {
        seq![]
    } else {
        seq![EventView::Start(Kind::TableCell)] + written(v[0]) + seq![
            EventView::End(Kind::TableCell),
        ] + written_cells(v.subrange(1, v.len() as int))
    }
}

/// The events of a table's body rows.
pub open spec fn written_rows(v: Seq<Seq<Seq<Inline>>>) -> Seq<EventView>
    decreases v.len(),
{
    if v.len() == 0 {
        seq![]
    } else {
        seq![EventView::Start(Kind::TableRow)] + written_cells(v[0]) + seq![
            EventView::End(Kind::TableRow),
        ] + written_rows(v.subrange(1, v.len() as int))
    }
}

/// What a row means: its cells, one for one.
pub open spec fn row_meant(v: Seq<Seq<Inline>>) -> Seq<CellView> {
    Seq::new(v.len(), |k: int| cell_meant(v[k]))
}

/// Whether all the cells of a row are ones that Markdown has.
pub open spec fn is_row(v: Seq<Seq<Inline>>) -> bool {
    forall|k: int| 0 <= k < v.len() ==> is_inline(#[trigger] v[k])
}

proof fn lemma_row(
    ev: Seq<EventView>,
    i: int,
    tag: Kind,
    had: Seq<CellView>,
    v: Seq<Seq<Inline>>,
)
    requires
        stands(ev, i, written_cells(v)),
        i + written_cells(v).len() < ev.len(),
        ev[i + written_cells(v).len()] == EventView::End(tag),
        is_row(v),
    ensures
        render::row_run(ev, i, tag, had) == (had + row_meant(v), i + written_cells(v).len() + 1),
    decreases v.len(),
{
    if v.len() == 0 {
        assert(had + row_meant(v) =~= had);
    } else {
        let tail = v.subrange(1, v.len() as int);
        let own = seq![EventView::Start(Kind::TableCell)] + written(v[0]) + seq![
            EventView::End(Kind::TableCell),
        ];
        lemma_stands(ev, i, own, written_cells(tail));
        lemma_between(
            ev,
            i,
            EventView::Start(Kind::TableCell),
            written(v[0]),
            EventView::End(Kind::TableCell),
        );
        lemma_meant_to(ev, i + 1, v[0], Kind::TableCell);
        lemma_cell(v[0]);
        assert forall|k: int| 0 <= k < tail.len() implies is_inline(#[trigger] tail[k]) by {
            assert(tail[k] == v[k + 1]);
        }
        lemma_row(ev, i + own.len(), tag, had.push(cell_meant(v[0])), tail);
        assert(had.push(cell_meant(v[0])) + row_meant(tail) =~= had + row_meant(v));
    }
}

/// What the rows of a table mean, one for one.
pub open spec fn rows_meant(v: Seq<Seq<Seq<Inline>>>) -> Seq<Seq<CellView>> {
    Seq::new(v.len(), |k: int| row_meant(v[k]))
}

proof fn lemma_rows(
    ev: Seq<EventView>,
    i: int,
    had: Seq<Seq<CellView>>,
    v: Seq<Seq<Seq<Inline>>>,
)
    requires
        stands(ev, i, written_rows(v)),
        i + written_rows(v).len() < ev.len(),
        ev[i + written_rows(v).len()] == EventView::End(Kind::Table),
        forall|k: int| 0 <= k < v.len() ==> is_row(#[trigger] v[k]),
    ensures
        render::rows_run(ev, i, had) == (had + rows_meant(v), i + written_rows(v).len() + 1),
    decreases v.len(),
{
    if v.len() == 0 {
        assert(had + rows_meant(v) =~= had);
    } else {
        let tail = v.subrange(1, v.len() as int);
        let own = seq![EventView::Start(Kind::TableRow)] + written_cells(v[0]) + seq![
            EventView::End(Kind::TableRow),
        ];
        lemma_stands(ev, i, own, written_rows(tail));
        lemma_between(
            ev,
            i,
            EventView::Start(Kind::TableRow),
            written_cells(v[0]),
            EventView::End(Kind::TableRow),
        );
        lemma_row(ev, i + 1, Kind::TableRow, seq![], v[0]);
        assert(Seq::<CellView>::empty() + row_meant(v[0]) =~= row_meant(v[0]));
        assert forall|k: int| 0 <= k < tail.len() implies is_row(#[trigger] tail[k]) by {
            assert(tail[k] == v[k + 1]);
        }
        lemma_rows(ev, i + own.len(), had.push(row_meant(v[0])), tail);
        assert(had.push(row_meant(v[0])) + rows_meant(tail) =~= had + rows_meant(v));
    }
}

/// A block of a document.
pub enum Node {
    Heading(Seq<Inline>),
    Para(Seq<Inline>),
    List(bool, Seq<Seq<Part>>),
    Quote(Seq<Quoted>),
    Code(Seq<Seq<char>>),
    /// A table: its columns, its head, and its body rows.
    Table(Seq<Align>, Seq<Seq<Inline>>, Seq<Seq<Seq<Inline>>>),
    /// A thematic break.
    Rule,
    /// An event outside all of these, as raw HTML has.
    Other(EventView),
}

/// The events of a block.
pub open spec fn written_node(n: Node) -> Seq<EventView> {
    match n {
        Node::Heading(v) => seq![EventView::Start(Kind::Heading)] + written(v) + seq![
            EventView::End(Kind::Heading),
        ],
        Node::Para(v) => seq![EventView::Start(Kind::Paragraph)] + written(v) + seq![
            EventView::End(Kind::Paragraph),
        ],
        Node::List(ordered, items) => seq![EventView::Start(Kind::List(ordered))] + written_items(
            items,
        ) + seq![EventView::End(Kind::List(ordered))],
        Node::Quote(v) => seq![EventView::Start(Kind::BlockQuote)] + written_quote(v) + seq![
            EventView::End(Kind::BlockQuote),
        ],
        Node::Code(v) => seq![EventView::Start(Kind::CodeBlock)] + written_texts(v) + seq![
            EventView::End(Kind::CodeBlock),
        ],
        Node::Table(columns, head, rows) => seq![EventView::Table(columns)] + (seq![
            EventView::Start(Kind::TableHead),
        ] + written_cells(head) + seq![EventView::End(Kind::TableHead)] + written_rows(rows))
            + seq![EventView::End(Kind::Table)],
        Node::Rule => seq![EventView::Rule],
        Node::Other(e) => seq![e],
    }
}

/// What a block means: at most one block of the message, and none when it says
/// nothing, or is a table that Slack does not take.
pub open spec fn node_meant(n: Node) -> Seq<BlockView> {
    match n {
        Node::Heading(v) => {
            let title = text::trimmed(said(v));
            if title.len() == 0 {
                seq![]
            } else if title.len() > 150 {
                seq![BlockView::Header(title.subrange(0, 150))]
            } else {
                seq![BlockView::Header(title)]
            }
        },
        Node::Para(v) => rich(
            if meant(v, Style::plain()).len() == 0 {
                seq![]
            } else {
                seq![RichTextView::Section(meant(v, Style::plain()))]
            },
        ),
        Node::List(ordered, items) => rich(list_meant(ordered, 0, items)),
        Node::Quote(v) => rich(
            if quote_meant(v, seq![]).len() == 0 {
                seq![]
            } else {
                seq![RichTextView::Quote(quote_meant(v, seq![]))]
            },
        ),
        Node::Code(v) => rich(
            if code_of(v).len() == 0 {
                seq![]
            } else {
                seq![RichTextView::Preformatted(code_of(v))]
            },
        ),
        Node::Table(columns, head, rows) => if rows.len() + 1 > 100 || columns.len() > 10 {
            seq![]
        } else {
            seq![
                BlockView::Table { columns, rows: seq![row_meant(head)] + rows_meant(rows) },
            ]
        },
        Node::Rule => seq![BlockView::Divider],
        Node::Other(_) => seq![],
    }
}

/// A block with these parts, unless there is none.
pub open spec fn rich(parts: Seq<RichTextView>) -> Seq<BlockView> {
    if parts.len() == 0 {
        seq![]
    } else {
        seq![BlockView::RichText(parts)]
    }
}

/// Whether the block is one that Markdown has, its lists no deeper than an
/// indent can say.
pub open spec fn is_node(n: Node) -> bool {
    match n {
        Node::Heading(v) => is_inline(v),
        Node::Para(v) => is_inline(v),
        Node::List(_, items) => are_items(items, 0),
        Node::Quote(v) => is_quote(v),
        Node::Code(_) => true,
        Node::Table(_, head, rows) => is_row(head) && forall|k: int|
            0 <= k < rows.len() ==> is_row(#[trigger] rows[k]),
        Node::Rule => true,
        Node::Other(e) => match e {
            EventView::Start(k) => !(k is Heading || k is Paragraph || k is List || k is BlockQuote
                || k is CodeBlock),
            EventView::Table(_) => false,
            EventView::Rule => false,
            _ => true,
        },
    }
}

/// Inline content has no heading in it.
proof fn lemma_free_of_heading(v: Seq<Inline>)
    requires
        is_inline(v),
    ensures
        free_of(v, Kind::Heading),
    decreases v,
{
    if v.len() > 0 {
        lemma_one_free_of_heading(v[0]);
        lemma_free_of_heading(v.subrange(1, v.len() as int));
    }
}

proof fn lemma_one_free_of_heading(x: Inline)
    requires
        is_inline_one(x),
    ensures
        free_one(x, Kind::Heading),
    decreases x,
{
    match x {
        Inline::Styled(_, v) => {
            lemma_free_of_heading(v);
        },
        Inline::Link(_, v) => {
            lemma_free_of_heading(v);
        },
        Inline::Image(_, v) => {
            lemma_free_of_heading(v);
        },
        _ => {},
    }
}

proof fn lemma_node(ev: Seq<EventView>, i: int, n: Node)
    requires
        stands(ev, i, written_node(n)),
        is_node(n),
    ensures
        i < ev.len(),
        written_node(n).len() > 0,
        render::block_run(ev, i) == Some((node_meant(n), i + written_node(n).len())),
{
    match n {
        Node::Heading(v) => {
            lemma_between(
                ev,
                i,
                EventView::Start(Kind::Heading),
                written(v),
                EventView::End(Kind::Heading),
            );
            lemma_free_of_heading(v);
            lemma_said(ev, i + 1, v, Kind::Heading);
            let j = i + 1 + written(v).len();
            assert(render::text_run(ev, j, Kind::Heading) == (Seq::<char>::empty(), j + 1));
            assert(said(v) + Seq::<char>::empty() =~= said(v));
        },
        Node::Para(v) => {
            lemma_between(
                ev,
                i,
                EventView::Start(Kind::Paragraph),
                written(v),
                EventView::End(Kind::Paragraph),
            );
            lemma_meant_to(ev, i + 1, v, Kind::Paragraph);
        },
        Node::List(ordered, items) => {
            lemma_between(
                ev,
                i,
                EventView::Start(Kind::List(ordered)),
                written_items(items),
                EventView::End(Kind::List(ordered)),
            );
            lemma_list(ev, i + 1, ordered, 0, items);
        },
        Node::Quote(v) => {
            lemma_between(
                ev,
                i,
                EventView::Start(Kind::BlockQuote),
                written_quote(v),
                EventView::End(Kind::BlockQuote),
            );
            lemma_quote(ev, i + 1, seq![], v);
        },
        Node::Code(v) => {
            lemma_between(
                ev,
                i,
                EventView::Start(Kind::CodeBlock),
                written_texts(v),
                EventView::End(Kind::CodeBlock),
            );
            lemma_code(ev, i + 1, v);
        },
        Node::Table(columns, head, rows) => {
            let top = seq![EventView::Start(Kind::TableHead)] + written_cells(head) + seq![
                EventView::End(Kind::TableHead),
            ];
            lemma_between(
                ev,
                i,
                EventView::Table(columns),
                top + written_rows(rows),
                EventView::End(Kind::Table),
            );
            lemma_stands(ev, i + 1, top, written_rows(rows));
            lemma_between(
                ev,
                i + 1,
                EventView::Start(Kind::TableHead),
                written_cells(head),
                EventView::End(Kind::TableHead),
            );
            lemma_row(ev, i + 2, Kind::TableHead, seq![], head);
            let first = row_meant(head);
            assert(Seq::<CellView>::empty() + first =~= first);
            lemma_rows(ev, i + 1 + top.len(), seq![first], rows);
            assert(Seq::<Seq<CellView>>::empty().push(first) =~= seq![first]);
        },
        _ => {
            assert(ev.subrange(i, i + 1)[0] == ev[i]);
        },
    }
}

/// The events of a document, one block after the other.
pub open spec fn written_document(v: Seq<Node>) -> Seq<EventView>
    decreases v.len(),
{
    if v.len() == 0 {
        seq![]
    } else {
        written_node(v[0]) + written_document(v.subrange(1, v.len() as int))
    }
}

/// What a document means: what its blocks mean, in order.
pub open spec fn document_meant(v: Seq<Node>) -> Seq<BlockView>
    decreases v.len(),
{
    if v.len() == 0 {
        seq![]
    } else {
        node_meant(v[0]) + document_meant(v.subrange(1, v.len() as int))
    }
}

proof fn lemma_document(ev: Seq<EventView>, i: int, v: Seq<Node>)
    requires
        stands(ev, i, written_document(v)),
        i + written_document(v).len() == ev.len(),
        forall|k: int| 0 <= k < v.len() ==> is_node(#[trigger] v[k]),
    ensures
        render::blocks_run(ev, i) == Some(document_meant(v)),
    decreases v.len(),
{
    if v.len() > 0 {
        let tail = v.subrange(1, v.len() as int);
        lemma_stands(ev, i, written_node(v[0]), written_document(tail));
        lemma_node(ev, i, v[0]);
        assert forall|k: int| 0 <= k < tail.len() implies is_node(#[trigger] tail[k]) by {
            assert(tail[k] == v[k + 1]);
        }
        lemma_document(ev, i + written_node(v[0]).len(), tail);
    }
}

/// A document renders to what it means: every heading, paragraph, list, quote,
/// code block, table and thematic break of it, in order, with all of its
/// content.
pub proof fn law_a_document_renders_to_what_it_means(v: Seq<Node>)
    requires
        forall|k: int| 0 <= k < v.len() ==> is_node(#[trigger] v[k]),
    ensures
        render::rendered(written_document(v)) == Some(document_meant(v)),
{
    let ev = written_document(v);
    assert(ev.subrange(0, ev.len() as int) =~= ev);
    lemma_document(ev, 0, v);
}

/// A list of items without lists inside them, each with something to say,
/// renders to one list with exactly as many sections: the section of each item
/// is what the item says.
pub proof fn law_a_plain_list_keeps_every_item(ordered: bool, items: Seq<Seq<Inline>>)
    requires
        items.len() > 0,
        forall|k: int| 0 <= k < items.len() ==> is_inline(#[trigger] items[k]),
        forall|k: int|
            0 <= k < items.len() ==> meant(#[trigger] items[k], Style::plain()).len() > 0,
    ensures
        render::rendered(
            written_node(
                Node::List(ordered, Seq::new(items.len(), |k: int| seq![Part::Loose(items[k])])),
            ),
        ) == Some(
            seq![
                BlockView::RichText(
                    seq![
                        RichTextView::List {
                            ordered,
                            indent: 0,
                            sections: Seq::new(
                                items.len(),
                                |k: int| meant(items[k], Style::plain()),
                            ),
                        },
                    ],
                ),
            ],
        ),
{
    let tree = Seq::new(items.len(), |k: int| seq![Part::Loose(items[k])]);
    let node = Node::List(ordered, tree);
    lemma_plain_items(ordered, items, tree, seq![]);
    let sections = Seq::new(items.len(), |k: int| meant(items[k], Style::plain()));
    assert(Seq::<Seq<ElementView>>::empty() + sections =~= sections);
    assert(Seq::<RichTextView>::empty() + one_run(ordered, 0, sections) =~= one_run(
        ordered,
        0,
        sections,
    ));
    let doc = seq![node];
    law_a_document_renders_to_what_it_means(doc);
    reveal_with_fuel(written_document, 2);
    reveal_with_fuel(document_meant, 2);
    assert(doc.subrange(1, 1) =~= seq![]);
    assert(written_document(doc) =~= written_node(node));
    assert(document_meant(doc) =~= node_meant(node));
}

proof fn lemma_plain_items(
    ordered: bool,
    items: Seq<Seq<Inline>>,
    tree: Seq<Seq<Part>>,
    open: Seq<Seq<ElementView>>,
)
    requires
        tree.len() == items.len(),
        forall|k: int| 0 <= k < items.len() ==> #[trigger] tree[k] == seq![Part::Loose(items[k])],
        forall|k: int| 0 <= k < items.len() ==> is_inline(#[trigger] items[k]),
        forall|k: int|
            0 <= k < items.len() ==> meant(#[trigger] items[k], Style::plain()).len() > 0,
    ensures
        are_items(tree, 0),
        runs(ordered, 0, open, items_pieces(tree, 0)) == (
            Seq::<RichTextView>::empty(),
            open + Seq::new(items.len(), |k: int| meant(items[k], Style::plain())),
        ),
    decreases items.len(),
{
    let sections = Seq::new(items.len(), |k: int| meant(items[k], Style::plain()));
    if items.len() == 0 {
        assert(open + sections =~= open);
    } else {
        let rest = items.subrange(1, items.len() as int);
        let tail = tree.subrange(1, tree.len() as int);
        assert forall|k: int| 0 <= k < rest.len() implies is_inline(#[trigger] rest[k]) && meant(
            rest[k],
            Style::plain(),
        ).len() > 0 && tail[k] == seq![Part::Loose(rest[k])] by {
            assert(rest[k] == items[k + 1] && tail[k] == tree[k + 1]);
        }
        let m = meant(items[0], Style::plain());
        lemma_plain_items(ordered, rest, tail, open.push(m));
        let item = tree[0];
        assert(item == seq![Part::Loose(items[0])]);
        let none = item.subrange(1, 1);
        assert(none =~= seq![]);
        assert(is_part(item[0], 0));
        assert(is_item(none, 0));
        assert(is_item(item, 0));
        assert(item_pieces(none, m, 0) == section(m));
        assert(Seq::<ElementView>::empty() + m =~= m);
        assert(item_pieces(item, seq![], 0) == section(m));
        let after = items_pieces(tail, 0);
        lemma_section(ordered, 0, open, m, after);
        assert(open.push(m) + Seq::new(rest.len(), |k: int| meant(rest[k], Style::plain()))
            =~= open + sections);
    }
}

/// The text that inline content shows: a line break is a new line, and a link
/// or an image without a label shows its destination.
pub open spec fn shows(v: Seq<Inline>) -> Seq<char>
    decreases v,
{
    if v.len() == 0 {
        seq![]
    } else {
        shows_one(v[0]) + shows(v.subrange(1, v.len() as int))
    }
}

/// The text that one piece shows.
pub open spec fn shows_one(x: Inline) -> Seq<char>
    decreases x,
{
    match x {
        Inline::Text(t) => t,
        Inline::Code(t) => t,
        Inline::Break => seq!['\n'],
        Inline::Other => seq![],
        Inline::Styled(_, v) => shows(v),
        Inline::Link(url, v) => if said(v).len() == 0 {
            url
        } else {
            said(v)
        },
        Inline::Image(url, v) => if said(v).len() == 0 {
            url
        } else {
            said(v)
        },
    }
}

proof fn lemma_shown_add(a: Seq<ElementView>, b: Seq<ElementView>)
    ensures
        shown_of(a + b) == shown_of(a) + shown_of(b),
    decreases a.len(),
{
    let all = a + b;
    if a.len() == 0 {
        assert(all =~= b);
        assert(shown_of(a) + shown_of(b) =~= shown_of(b));
    } else {
        let tail = a.subrange(1, a.len() as int);
        assert(all.subrange(1, all.len() as int) =~= tail + b);
        assert(all[0] == a[0]);
        lemma_shown_add(tail, b);
        assert(shown_of(all) =~= shown_of(a) + shown_of(b));
    }
}

/// Nothing that inline content shows is lost, and nothing is added, whatever
/// its style.
proof fn lemma_shows(v: Seq<Inline>, style: Style)
    ensures
        shown_of(meant(v, style)) == shows(v),
    decreases v,
{
    if v.len() > 0 {
        let tail = v.subrange(1, v.len() as int);
        lemma_shows_one(v[0], style);
        lemma_shows(tail, style);
        lemma_shown_add(meant_one(v[0], style), meant(tail, style));
    }
}

proof fn lemma_shows_one(x: Inline, style: Style)
    ensures
        shown_of(meant_one(x, style)) == shows_one(x),
    decreases x,
{
    reveal_with_fuel(shown_of, 2);
    let m = meant_one(x, style);
    match x {
        Inline::Styled(k, v) => {
            lemma_shows(
                v,
                Style {
                    bold: style.bold || k is Strong,
                    italic: style.italic || k is Emphasis,
                    strike: style.strike || k is Strikethrough,
                    code: style.code,
                },
            );
        },
        _ => {
            if m.len() > 0 {
                assert(m.subrange(1, m.len() as int) =~= seq![]);
            }
            assert(shown_of(m) =~= shows_one(x));
        },
    }
}

/// The text that the parts of an item show, lists inside it included.
pub open spec fn item_shows(v: Seq<Part>) -> Seq<char>
    decreases v, 0nat,
{
    if v.len() == 0 {
        seq![]
    } else {
        (match v[0] {
            Part::Loose(x) => shows(x),
            Part::Para(x) => shows(x),
            Part::Code(x) => code_of(x),
            Part::List(_, items) => items_show(items),
        }) + item_shows(v.subrange(1, v.len() as int))
    }
}

/// The text that the items of a list show.
pub open spec fn items_show(v: Seq<Seq<Part>>) -> Seq<char>
    decreases v, 1nat,
{
    if v.len() == 0 {
        seq![]
    } else {
        item_shows(v[0]) + items_show(v.subrange(1, v.len() as int))
    }
}

/// The text that sections show.
pub open spec fn sections_show(v: Seq<Seq<ElementView>>) -> Seq<char>
    decreases v.len(),
{
    if v.len() == 0 {
        seq![]
    } else {
        sections_show(v.drop_last()) + shown_of(v.last())
    }
}

/// The text that one part of a block shows.
pub open spec fn part_shows(p: RichTextView) -> Seq<char> {
    match p {
        RichTextView::Section(v) => shown_of(v),
        RichTextView::Quote(v) => shown_of(v),
        RichTextView::Preformatted(code) => code,
        RichTextView::List { sections, .. } => sections_show(sections),
    }
}

/// The text that the parts of a block show.
pub open spec fn parts_show(v: Seq<RichTextView>) -> Seq<char>
    decreases v.len(),
{
    if v.len() == 0 {
        seq![]
    } else {
        parts_show(v.drop_last()) + part_shows(v.last())
    }
}

proof fn lemma_parts_add(a: Seq<RichTextView>, b: Seq<RichTextView>)
    ensures
        parts_show(a + b) == parts_show(a) + parts_show(b),
    decreases b.len(),
{
    let all = a + b;
    if b.len() == 0 {
        assert(all =~= a);
        assert(parts_show(a) + parts_show(b) =~= parts_show(a));
    } else {
        assert(all.drop_last() =~= a + b.drop_last());
        lemma_parts_add(a, b.drop_last());
        assert(parts_show(all) =~= parts_show(a) + parts_show(b));
    }
}

/// The text that pieces show.
spec fn pieces_show(v: Seq<Piece>) -> Seq<char>
    decreases v.len(),
{
    if v.len() == 0 {
        seq![]
    } else {
        (match v[0] {
            Piece::Section(x) => shown_of(x),
            Piece::Inner(parts) => parts_show(parts),
        }) + pieces_show(v.subrange(1, v.len() as int))
    }
}

proof fn lemma_pieces_add(a: Seq<Piece>, b: Seq<Piece>)
    ensures
        pieces_show(a + b) == pieces_show(a) + pieces_show(b),
    decreases a.len(),
{
    let all = a + b;
    if a.len() == 0 {
        assert(all =~= b);
        assert(pieces_show(a) + pieces_show(b) =~= pieces_show(b));
    } else {
        let tail = a.subrange(1, a.len() as int);
        assert(all.subrange(1, all.len() as int) =~= tail + b);
        assert(all[0] == a[0]);
        lemma_pieces_add(tail, b);
        assert(pieces_show(all) =~= pieces_show(a) + pieces_show(b));
    }
}

proof fn lemma_one_run_shows(ordered: bool, indent: nat, sections: Seq<Seq<ElementView>>)
    ensures
        parts_show(one_run(ordered, indent, sections)) == sections_show(sections),
{
    reveal_with_fuel(parts_show, 2);
    let v = one_run(ordered, indent, sections);
    if sections.len() > 0 {
        assert(v.drop_last() =~= seq![]);
        assert(parts_show(v) =~= sections_show(sections));
    }
}

proof fn lemma_runs_show(
    ordered: bool,
    indent: nat,
    open: Seq<Seq<ElementView>>,
    pieces: Seq<Piece>,
)
    ensures
        ({
            let all = runs(ordered, indent, open, pieces);
            parts_show(all.0 + one_run(ordered, indent, all.1)) == sections_show(open)
                + pieces_show(pieces)
        }),
    decreases pieces.len(),
{
    let all = runs(ordered, indent, open, pieces);
    lemma_parts_add(all.0, one_run(ordered, indent, all.1));
    lemma_one_run_shows(ordered, indent, all.1);
    if pieces.len() == 0 {
        assert(parts_show(all.0) + sections_show(all.1) =~= sections_show(open)
            + pieces_show(pieces));
    } else {
        let rest = pieces.subrange(1, pieces.len() as int);
        match pieces[0] {
            Piece::Section(v) => {
                lemma_runs_show(ordered, indent, open.push(v), rest);
                assert(open.push(v).drop_last() =~= open);
                assert(sections_show(open) + shown_of(v) + pieces_show(rest) =~= sections_show(
                    open,
                ) + pieces_show(pieces));
            },
            Piece::Inner(parts) => {
                lemma_runs_show(ordered, indent, seq![], rest);
                let after = runs(ordered, indent, seq![], rest);
                let x = one_run(ordered, indent, open) + parts;
                lemma_one_run_shows(ordered, indent, open);
                lemma_parts_add(one_run(ordered, indent, open), parts);
                lemma_parts_add(x, after.0);
                lemma_parts_add(after.0, one_run(ordered, indent, after.1));
                lemma_one_run_shows(ordered, indent, after.1);
                assert(parts_show(all.0) + sections_show(all.1) =~= sections_show(open)
                    + parts_show(parts) + (parts_show(after.0) + sections_show(after.1)));
                assert(parts_show(after.0) + sections_show(after.1) =~= pieces_show(rest));
                assert(parts_show(all.0 + one_run(ordered, indent, all.1)) =~= sections_show(open)
                    + pieces_show(pieces));
            },
        }
    }
}

proof fn lemma_section_shows(v: Seq<ElementView>)
    ensures
        pieces_show(section(v)) == shown_of(v),
{
    reveal_with_fuel(pieces_show, 2);
    let s = section(v);
    if v.len() > 0 {
        assert(s.subrange(1, s.len() as int) =~= seq![]);
        assert(pieces_show(s) =~= shown_of(v));
    }
}

proof fn lemma_item_shows(v: Seq<Part>, said: Seq<ElementView>, indent: nat)
    ensures
        pieces_show(item_pieces(v, said, indent)) == shown_of(said) + item_shows(v),
    decreases v, 0nat,
{
    if v.len() == 0 {
        lemma_section_shows(said);
        assert(shown_of(said) + item_shows(v) =~= shown_of(said));
    } else {
        let rest = v.subrange(1, v.len() as int);
        match v[0] {
            Part::Loose(x) => {
                let m = meant(x, Style::plain());
                lemma_shows(x, Style::plain());
                lemma_shown_add(said, m);
                lemma_item_shows(rest, said + m, indent);
            },
            Part::Para(x) => {
                let m = meant(x, Style::plain());
                lemma_shows(x, Style::plain());
                lemma_shown_add(said, m);
                lemma_item_shows(rest, said + m, indent);
            },
            Part::Code(x) => {
                let m = text_in(code_of(x), code_style());
                reveal_with_fuel(shown_of, 2);
                if m.len() > 0 {
                    assert(m.subrange(1, m.len() as int) =~= seq![]);
                }
                assert(shown_of(m) =~= code_of(x));
                lemma_shown_add(said, m);
                lemma_item_shows(rest, said + m, indent);
            },
            Part::List(ordered, items) => {
                let parts = list_meant(ordered, (indent + 1) as nat, items);
                lemma_list_shows(ordered, (indent + 1) as nat, items);
                lemma_item_shows(rest, seq![], indent);
                let inner = seq![Piece::Inner(parts)];
                reveal_with_fuel(pieces_show, 2);
                assert(inner.subrange(1, 1) =~= seq![]);
                assert(pieces_show(inner) =~= items_show(items));
                lemma_section_shows(said);
                lemma_pieces_add(section(said), inner);
                lemma_pieces_add(section(said) + inner, item_pieces(rest, seq![], indent));
                assert(shown_of(Seq::<ElementView>::empty()) =~= seq![]);
            },
        }
        assert(pieces_show(item_pieces(v, said, indent)) =~= shown_of(said) + item_shows(v));
    }
}

proof fn lemma_items_show(v: Seq<Seq<Part>>, indent: nat)
    ensures
        pieces_show(items_pieces(v, indent)) == items_show(v),
    decreases v, 1nat,
{
    if v.len() > 0 {
        let rest = v.subrange(1, v.len() as int);
        lemma_item_shows(v[0], seq![], indent);
        lemma_items_show(rest, indent);
        lemma_pieces_add(item_pieces(v[0], seq![], indent), items_pieces(rest, indent));
        assert(shown_of(Seq::<ElementView>::empty()) + item_shows(v[0]) =~= item_shows(v[0]));
    }
}

proof fn lemma_list_shows(ordered: bool, indent: nat, items: Seq<Seq<Part>>)
    ensures
        parts_show(list_meant(ordered, indent, items)) == items_show(items),
    decreases items, 2nat,
{
    lemma_items_show(items, indent);
    lemma_runs_show(ordered, indent, seq![], items_pieces(items, indent));
    assert(Seq::<char>::empty() + items_show(items) =~= items_show(items));
}

/// No content of a list is lost: whatever lists stand inside its items, every
/// text and code span of it shows up in the rendered parts, in the order it is
/// written, and nothing else does.
pub proof fn law_no_content_of_a_list_is_lost(ordered: bool, items: Seq<Seq<Part>>)
    requires
        are_items(items, 0),
    ensures
        render::rendered(written_node(Node::List(ordered, items))) matches Some(v) && {
            ||| v.len() == 0 && items_show(items).len() == 0
            ||| v.len() == 1 && (v[0] matches BlockView::RichText(parts) && parts_show(parts)
                == items_show(items))
        },
{
    let node = Node::List(ordered, items);
    let doc = seq![node];
    law_a_document_renders_to_what_it_means(doc);
    reveal_with_fuel(written_document, 2);
    reveal_with_fuel(document_meant, 2);
    assert(doc.subrange(1, 1) =~= seq![]);
    assert(written_document(doc) =~= written_node(node));
    assert(document_meant(doc) =~= node_meant(node));
    lemma_list_shows(ordered, 0, items);
}

/// Nothing that a paragraph, a heading or a cell shows is lost, whatever the
/// styles and links in it.
pub proof fn law_no_inline_content_is_lost(v: Seq<Inline>)
    requires
        is_inline(v),
    ensures
        render::rendered(written_node(Node::Para(v))) matches Some(b) && {
            ||| b.len() == 0 && shows(v).len() == 0
            ||| b.len() == 1 && (b[0] matches BlockView::RichText(parts) && parts.len() == 1
                && parts_show(parts) == shows(v))
        },
{
    let node = Node::Para(v);
    let doc = seq![node];
    law_a_document_renders_to_what_it_means(doc);
    reveal_with_fuel(written_document, 2);
    reveal_with_fuel(document_meant, 2);
    reveal_with_fuel(parts_show, 2);
    assert(doc.subrange(1, 1) =~= seq![]);
    assert(written_document(doc) =~= written_node(node));
    assert(document_meant(doc) =~= node_meant(node));
    lemma_shows(v, Style::plain());
    let m = meant(v, Style::plain());
    if m.len() > 0 {
        let parts = seq![RichTextView::Section(m)];
        assert(parts.drop_last() =~= seq![]);
        assert(parts_show(parts) =~= shows(v));
    }
}

} // verus!
