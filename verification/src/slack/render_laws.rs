//! What holds of every rendered document: Slack's own limits on blocks, and
//! the shapes it rejects, never appear.
use vstd::prelude::*;

use crate::slack::blocks::{BlockView, CellView, ElementView, RichTextView, Style};
use crate::slack::markdown::{EventView, Kind};
use crate::slack::render;
use crate::slack::render::{MAX_HEADER_CHARS, MAX_INDENT, MAX_TABLE_COLS, MAX_TABLE_ROWS};

verus! {

/// Text is never empty, and a link has a label whenever it has a URL.
pub open spec fn sound_element(e: ElementView) -> bool {
    match e {
        ElementView::Text { text, .. } => text.len() > 0,
        ElementView::Link { url, label, .. } => label.len() == 0 ==> url.len() == 0,
    }
}

/// Every element of the run is sound.
pub open spec fn sound_run(v: Seq<ElementView>) -> bool {
    forall|k: int| 0 <= k < v.len() ==> sound_element(#[trigger] v[k])
}

/// A run that is not empty.
pub open spec fn sound_section(v: Seq<ElementView>) -> bool {
    v.len() > 0 && sound_run(v)
}

/// Every section of the list is sound.
pub open spec fn sound_sections(v: Seq<Seq<ElementView>>) -> bool {
    forall|k: int| 0 <= k < v.len() ==> sound_section(#[trigger] v[k])
}

/// A part of a `rich_text` block, no list in it shallower than `indent`: it is
/// not empty, and an indent fits.
pub open spec fn sound_part(p: RichTextView, indent: nat) -> bool {
    match p {
        RichTextView::Section(v) => sound_section(v),
        RichTextView::Quote(v) => sound_section(v),
        RichTextView::Preformatted(code) => code.len() > 0,
        RichTextView::List { indent: own, sections, .. } => {
            &&& indent <= own <= MAX_INDENT
            &&& sections.len() > 0
            &&& sound_sections(sections)
        },
    }
}

/// Every part is sound.
pub open spec fn sound_parts(v: Seq<RichTextView>, indent: nat) -> bool {
    forall|k: int| 0 <= k < v.len() ==> sound_part(#[trigger] v[k], indent)
}

/// A rich cell has something in it that a raw one could not say.
pub open spec fn sound_cell(c: CellView) -> bool {
    c matches CellView::Rich(v) ==> sound_section(v) && !render::all_plain(v)
}

/// Every cell of the row is sound.
pub open spec fn sound_row(r: Seq<CellView>) -> bool {
    forall|k: int| 0 <= k < r.len() ==> sound_cell(#[trigger] r[k])
}

/// Every row of the table is sound.
pub open spec fn sound_rows(v: Seq<Seq<CellView>>) -> bool {
    forall|k: int| 0 <= k < v.len() ==> sound_row(#[trigger] v[k])
}

/// A block within Slack's limits, with nothing empty in it.
pub open spec fn sound_block(b: BlockView) -> bool {
    match b {
        BlockView::Header(t) => 0 < t.len() <= MAX_HEADER_CHARS,
        BlockView::RichText(parts) => parts.len() > 0 && sound_parts(parts, 0),
        BlockView::Table { columns, rows } => {
            &&& 0 < rows.len() <= MAX_TABLE_ROWS
            &&& columns.len() <= MAX_TABLE_COLS
            &&& sound_rows(rows)
        },
        BlockView::Divider => true,
    }
}

/// Every block is sound.
pub open spec fn sound_blocks(v: Seq<BlockView>) -> bool {
    forall|k: int| 0 <= k < v.len() ==> sound_block(#[trigger] v[k])
}

proof fn lemma_inline_is_sound(ev: Seq<EventView>, i: int, end: Option<Kind>, style: Style)
    requires
        0 <= i <= ev.len(),
    ensures
        sound_run(render::inline_run(ev, i, end, style).0),
    decreases ev.len() - i,
{
    reveal_strlit("\n");
    if i < ev.len() {
        match ev[i] {
            EventView::End(_) => {},
            EventView::Start(k) => {
                if render::is_styling(k) {
                    let s = render::style_inside(k, style);
                    render::lemma_inline_run(ev, i + 1, Some(k), s);
                    lemma_inline_is_sound(ev, i + 1, Some(k), s);
                    lemma_inline_is_sound(
                        ev,
                        render::inline_run(ev, i + 1, Some(k), s).1,
                        end,
                        style,
                    );
                }
            },
            EventView::Link(_) => {
                render::lemma_text_run(ev, i + 1, Kind::Link);
                lemma_inline_is_sound(ev, render::text_run(ev, i + 1, Kind::Link).1, end, style);
            },
            EventView::Image(_) => {
                render::lemma_text_run(ev, i + 1, Kind::Image);
                lemma_inline_is_sound(ev, render::text_run(ev, i + 1, Kind::Image).1, end, style);
            },
            EventView::Table(_) => {},
            _ => {
                lemma_inline_is_sound(ev, i + 1, end, style);
            },
        }
    }
}

proof fn lemma_list_is_sound(
    ev: Seq<EventView>,
    i: int,
    ordered: bool,
    indent: nat,
    sections: Seq<Seq<ElementView>>,
)
    requires
        0 <= i <= ev.len(),
        indent <= MAX_INDENT,
        sound_sections(sections),
    ensures
        render::list_run(ev, i, ordered, indent, sections) matches Some(run) ==> sound_parts(
            run.0,
            indent,
        ),
    decreases ev.len() - i,
{
    if i < ev.len() {
        match ev[i] {
            EventView::End(Kind::List(_)) => {},
            EventView::Start(Kind::Item) => {
                lemma_item_is_sound(ev, i + 1, ordered, indent, sections, seq![]);
            },
            _ => {
                lemma_list_is_sound(ev, i + 1, ordered, indent, sections);
            },
        }
    }
}

proof fn lemma_item_is_sound(
    ev: Seq<EventView>,
    i: int,
    ordered: bool,
    indent: nat,
    sections: Seq<Seq<ElementView>>,
    sec: Seq<ElementView>,
)
    requires
        0 <= i <= ev.len(),
        indent <= MAX_INDENT,
        sound_sections(sections),
        sound_run(sec),
    ensures
        render::item_run(ev, i, ordered, indent, sections, sec) matches Some(run) ==> sound_parts(
            run.0,
            indent,
        ),
    decreases ev.len() - i,
{
    let closed = render::close_section(sections, sec);
    assert(sound_sections(closed));
    if i < ev.len() {
        match ev[i] {
            EventView::End(Kind::Item) => {
                lemma_list_is_sound(ev, i + 1, ordered, indent, closed);
            },
            EventView::Start(Kind::List(inner_ordered)) => {
                if indent < MAX_INDENT {
                    render::lemma_list_run(ev, i + 1, inner_ordered, indent + 1, seq![]);
                    lemma_list_is_sound(ev, i + 1, inner_ordered, indent + 1, seq![]);
                    if let Some(inner) = render::list_run(
                        ev,
                        i + 1,
                        inner_ordered,
                        indent + 1,
                        seq![],
                    ) {
                        lemma_item_is_sound(ev, inner.1, ordered, indent, seq![], seq![]);
                        assert(sound_parts(inner.0, indent)) by {
                            assert forall|k: int| 0 <= k < inner.0.len() implies sound_part(
                                #[trigger] inner.0[k],
                                indent,
                            ) by {
                                assert(sound_part(inner.0[k], indent + 1));
                            }
                        }
                    }
                }
            },
            EventView::Start(Kind::Paragraph) => {
                render::lemma_inline_run(ev, i + 1, Some(Kind::Paragraph), Style::plain());
                lemma_inline_is_sound(ev, i + 1, Some(Kind::Paragraph), Style::plain());
                let run = render::inline_run(ev, i + 1, Some(Kind::Paragraph), Style::plain());
                lemma_item_is_sound(ev, run.1, ordered, indent, sections, sec + run.0);
            },
            EventView::Start(Kind::CodeBlock) => {
                render::lemma_raw_code_run(ev, i + 1);
                let run = render::code_run(ev, i + 1);
                let part = render::text_elements(run.0, Style { code: true, ..Style::plain() });
                lemma_item_is_sound(ev, run.1, ordered, indent, sections, sec + part);
            },
            _ => {
                render::lemma_inline_run(ev, i, None, Style::plain());
                lemma_inline_is_sound(ev, i, None, Style::plain());
                let run = render::inline_run(ev, i, None, Style::plain());
                lemma_item_is_sound(
                    ev,
                    render::past(i, run.1),
                    ordered,
                    indent,
                    sections,
                    sec + run.0,
                );
            },
        }
    }
}

proof fn lemma_quote_is_sound(ev: Seq<EventView>, i: int, had: Seq<ElementView>)
    requires
        0 <= i <= ev.len(),
        sound_run(had),
    ensures
        sound_run(render::quote_run(ev, i, had).0),
    decreases ev.len() - i,
{
    reveal_strlit("\n");
    if i < ev.len() {
        match ev[i] {
            EventView::End(Kind::BlockQuote) => {},
            EventView::Start(Kind::Paragraph) => {
                render::lemma_inline_run(ev, i + 1, Some(Kind::Paragraph), Style::plain());
                lemma_inline_is_sound(ev, i + 1, Some(Kind::Paragraph), Style::plain());
                let run = render::inline_run(ev, i + 1, Some(Kind::Paragraph), Style::plain());
                let open = if had.len() == 0 {
                    had
                } else {
                    had + render::text_elements("\n"@, Style::plain())
                };
                lemma_quote_is_sound(ev, run.1, open + run.0);
            },
            _ => {
                render::lemma_inline_run(ev, i, None, Style::plain());
                lemma_inline_is_sound(ev, i, None, Style::plain());
                let run = render::inline_run(ev, i, None, Style::plain());
                lemma_quote_is_sound(ev, render::past(i, run.1), had + run.0);
            },
        }
    }
}

proof fn lemma_row_is_sound(ev: Seq<EventView>, i: int, end: Kind, had: Seq<CellView>)
    requires
        0 <= i <= ev.len(),
        sound_row(had),
    ensures
        sound_row(render::row_run(ev, i, end, had).0),
    decreases ev.len() - i,
{
    if i < ev.len() {
        match ev[i] {
            EventView::End(k) => {
                if k != end {
                    lemma_row_is_sound(ev, i + 1, end, had);
                }
            },
            EventView::Start(Kind::TableCell) => {
                render::lemma_inline_run(ev, i + 1, Some(Kind::TableCell), Style::plain());
                lemma_inline_is_sound(ev, i + 1, Some(Kind::TableCell), Style::plain());
                let run = render::inline_run(ev, i + 1, Some(Kind::TableCell), Style::plain());
                assert(sound_cell(render::cell_of(run.0)));
                lemma_row_is_sound(ev, run.1, end, had.push(render::cell_of(run.0)));
            },
            _ => {
                lemma_row_is_sound(ev, i + 1, end, had);
            },
        }
    }
}

proof fn lemma_rows_are_sound(ev: Seq<EventView>, i: int, had: Seq<Seq<CellView>>)
    requires
        0 <= i <= ev.len(),
        sound_rows(had),
    ensures
        sound_rows(render::rows_run(ev, i, had).0),
    decreases ev.len() - i,
{
    if i < ev.len() {
        match ev[i] {
            EventView::End(Kind::Table) => {},
            EventView::Start(Kind::TableHead) => {
                render::lemma_row_run(ev, i + 1, Kind::TableHead, seq![]);
                lemma_row_is_sound(ev, i + 1, Kind::TableHead, seq![]);
                let row = render::row_run(ev, i + 1, Kind::TableHead, seq![]);
                lemma_rows_are_sound(ev, row.1, had.push(row.0));
            },
            EventView::Start(Kind::TableRow) => {
                render::lemma_row_run(ev, i + 1, Kind::TableRow, seq![]);
                lemma_row_is_sound(ev, i + 1, Kind::TableRow, seq![]);
                let row = render::row_run(ev, i + 1, Kind::TableRow, seq![]);
                lemma_rows_are_sound(ev, row.1, had.push(row.0));
            },
            _ => {
                lemma_rows_are_sound(ev, i + 1, had);
            },
        }
    }
}

proof fn lemma_block_is_sound(ev: Seq<EventView>, i: int)
    requires
        0 <= i < ev.len(),
    ensures
        render::block_run(ev, i) matches Some(run) ==> sound_blocks(run.0),
{
    match ev[i] {
        EventView::Start(Kind::Paragraph) => {
            lemma_inline_is_sound(ev, i + 1, Some(Kind::Paragraph), Style::plain());
            let run = render::inline_run(ev, i + 1, Some(Kind::Paragraph), Style::plain());
            if run.0.len() > 0 {
                assert(sound_part(RichTextView::Section(run.0), 0));
            }
        },
        EventView::Start(Kind::List(ordered)) => {
            lemma_list_is_sound(ev, i + 1, ordered, 0, seq![]);
        },
        EventView::Start(Kind::BlockQuote) => {
            lemma_quote_is_sound(ev, i + 1, seq![]);
            let run = render::quote_run(ev, i + 1, seq![]);
            if run.0.len() > 0 {
                assert(sound_part(RichTextView::Quote(run.0), 0));
            }
        },
        EventView::Start(Kind::CodeBlock) => {
            let run = render::code_run(ev, i + 1);
            if run.0.len() > 0 {
                assert(sound_part(RichTextView::Preformatted(run.0), 0));
            }
        },
        EventView::Table(_) => {
            lemma_rows_are_sound(ev, i + 1, seq![]);
        },
        _ => {},
    }
}

proof fn lemma_blocks_are_sound(ev: Seq<EventView>, i: int)
    requires
        0 <= i <= ev.len(),
    ensures
        render::blocks_run(ev, i) matches Some(v) ==> sound_blocks(v),
    decreases ev.len() - i,
{
    if i < ev.len() {
        render::lemma_block_run(ev, i);
        lemma_block_is_sound(ev, i);
        if let Some(run) = render::block_run(ev, i) {
            lemma_blocks_are_sound(ev, run.1);
        }
    }
}

/// Whatever the document, every block rendered from it is one that Slack
/// takes: headers and tables within their limits, and no empty text, section,
/// list, preformatted text or block.
pub proof fn law_rendered_blocks_are_sound(ev: Seq<EventView>)
    ensures
        render::rendered(ev) matches Some(v) ==> sound_blocks(v),
{
    lemma_blocks_are_sound(ev, 0);
}

/// A document never renders to more blocks than it has events, so an empty one
/// renders to none.
pub proof fn law_no_more_blocks_than_events(ev: Seq<EventView>)
    ensures
        render::rendered(ev) matches Some(v) ==> v.len() <= ev.len(),
        ev.len() == 0 ==> render::rendered(ev) == Some(Seq::<BlockView>::empty()),
{
    lemma_count(ev, 0);
}

proof fn lemma_count(ev: Seq<EventView>, i: int)
    requires
        0 <= i <= ev.len(),
    ensures
        render::blocks_run(ev, i) matches Some(v) ==> v.len() <= ev.len() - i,
    decreases ev.len() - i,
{
    if i < ev.len() {
        render::lemma_block_run(ev, i);
        if let Some(run) = render::block_run(ev, i) {
            lemma_count(ev, run.1);
        }
    }
}

/// The document before a position and the document from there on render
/// independently: where a block ends, the rest follows in document order.
pub proof fn law_blocks_follow_document_order(ev: Seq<EventView>, i: int)
    requires
        0 <= i < ev.len(),
    ensures
        render::block_run(ev, i) matches Some(run) ==> {
            &&& i < run.1 <= ev.len()
            &&& render::blocks_run(ev, run.1) matches Some(rest) ==> render::blocks_run(ev, i)
                == Some(run.0 + rest)
        },
{
    render::lemma_block_run(ev, i);
}

/// The style of an element.
pub open spec fn style_of(e: ElementView) -> Style {
    match e {
        ElementView::Text { style, .. } => style,
        ElementView::Link { style, .. } => style,
    }
}

/// Whether `style` has every flag that `base` has.
pub open spec fn keeps_flags(base: Style, style: Style) -> bool {
    &&& base.bold ==> style.bold
    &&& base.italic ==> style.italic
    &&& base.strike ==> style.strike
    &&& base.code ==> style.code
}

/// Whether the document has this text, as text or as code.
pub open spec fn has_text(ev: Seq<EventView>, t: Seq<char>) -> bool {
    exists|k: int|
        0 <= k < ev.len() && (#[trigger] ev[k] == EventView::Text(t) || ev[k] == EventView::Code(
            t,
        ))
}

/// Whether the document has a link or an image with this destination.
pub open spec fn has_url(ev: Seq<EventView>, url: Seq<char>) -> bool {
    exists|k: int|
        0 <= k < ev.len() && (#[trigger] ev[k] == EventView::Link(url) || ev[k]
            == EventView::Image(url))
}

/// Whether an element says what the document says: text as it stands there, or
/// a line break; a link to a destination as it stands there.
pub open spec fn verbatim(ev: Seq<EventView>, e: ElementView) -> bool {
    match e {
        ElementView::Text { text, .. } => has_text(ev, text) || text == "\n"@,
        ElementView::Link { url, .. } => has_url(ev, url),
    }
}

/// Inside a styling tag every element has its style, however deep it stands, and
/// no text or URL of the document is ever rewritten or escaped.
pub proof fn law_inline_content_is_styled_and_verbatim(
    ev: Seq<EventView>,
    i: int,
    end: Option<Kind>,
    style: Style,
)
    requires
        0 <= i <= ev.len(),
    ensures
        forall|k: int|
            0 <= k < render::inline_run(ev, i, end, style).0.len() ==> {
                let e = #[trigger] render::inline_run(ev, i, end, style).0[k];
                keeps_flags(style, style_of(e)) && verbatim(ev, e)
            },
    decreases ev.len() - i,
{
    if i < ev.len() {
        let all = render::inline_run(ev, i, end, style).0;
        match ev[i] {
            EventView::End(_) => {},
            EventView::Text(t) => {
                assert(ev[i] == EventView::Text(t));
                law_inline_content_is_styled_and_verbatim(ev, i + 1, end, style);
            },
            EventView::Code(t) => {
                assert(ev[i] == EventView::Code(t));
                law_inline_content_is_styled_and_verbatim(ev, i + 1, end, style);
            },
            EventView::Start(k) => {
                if render::is_styling(k) {
                    let s = render::style_inside(k, style);
                    let inside = render::inline_run(ev, i + 1, Some(k), s);
                    render::lemma_inline_run(ev, i + 1, Some(k), s);
                    law_inline_content_is_styled_and_verbatim(ev, i + 1, Some(k), s);
                    law_inline_content_is_styled_and_verbatim(ev, inside.1, end, style);
                    let rest = render::inline_run(ev, inside.1, end, style).0;
                    assert forall|n: int| 0 <= n < all.len() implies {
                        let e = #[trigger] all[n];
                        keeps_flags(style, style_of(e)) && verbatim(ev, e)
                    } by {
                        if n < inside.0.len() {
                            assert(all[n] == inside.0[n]);
                            assert(keeps_flags(s, style_of(inside.0[n])));
                        } else {
                            assert(all[n] == rest[n - inside.0.len()]);
                        }
                    }
                }
            },
            EventView::Link(url) => {
                assert(ev[i] == EventView::Link(url));
                render::lemma_text_run(ev, i + 1, Kind::Link);
                law_inline_content_is_styled_and_verbatim(
                    ev,
                    render::text_run(ev, i + 1, Kind::Link).1,
                    end,
                    style,
                );
            },
            EventView::Image(url) => {
                assert(ev[i] == EventView::Image(url));
                render::lemma_text_run(ev, i + 1, Kind::Image);
                law_inline_content_is_styled_and_verbatim(
                    ev,
                    render::text_run(ev, i + 1, Kind::Image).1,
                    end,
                    style,
                );
            },
            EventView::Table(_) => {},
            _ => {
                law_inline_content_is_styled_and_verbatim(ev, i + 1, end, style);
            },
        }
    }
}

} // verus!
