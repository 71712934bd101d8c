//! Render a document's events into Block Kit blocks. Each top-level block maps
//! to one block: a heading to a header, a paragraph to a rich-text section, a
//! list (nested lists included) to indented list runs, a block quote to a
//! quote, a code block to preformatted text, a thematic break to a divider and
//! a table to a table. Inline runs carry style flags and links, so no text is
//! ever escaped here.
//!
//! The functions named `*_run` state what rendering from one position gives:
//! what is rendered, and the position it leaves off at.
use vstd::prelude::*;

use crate::slack::blocks;
use crate::slack::blocks::{
    Block, BlockView, Cell, CellView, Element, ElementView, RichText, RichTextView, Style,
};
use crate::slack::markdown;
use crate::slack::markdown::{Align, Event, EventView, Kind};
use crate::text;

verus! {

/// The most characters of a header that Slack accepts.
pub const MAX_HEADER_CHARS: usize = 150;

/// The most rows (the head included) of a table that Slack accepts.
pub const MAX_TABLE_ROWS: usize = 100;

/// The most columns of a table that Slack accepts.
pub const MAX_TABLE_COLS: usize = 10;

/// Plain text up to the closing `end`: text and code as they are, a line break
/// as a space, everything else dropped.
pub open spec fn text_run(ev: Seq<EventView>, i: int, end: Kind) -> (Seq<char>, int)
    decreases ev.len() - i,
{
    if i < 0 || i >= ev.len() {
        (seq![], i)
    } else {
        let rest = text_run(ev, i + 1, end);
        match ev[i] {
            EventView::End(k) => if k == end {
                (seq![], i + 1)
            } else {
                rest
            },
            EventView::Text(t) => (t + rest.0, rest.1),
            EventView::Code(t) => (t + rest.0, rest.1),
            EventView::Break => (" "@ + rest.0, rest.1),
            _ => rest,
        }
    }
}

/// The text of a code block up to its end.
pub open spec fn raw_code_run(ev: Seq<EventView>, i: int) -> (Seq<char>, int)
    decreases ev.len() - i,
{
    if i < 0 || i >= ev.len() {
        (seq![], i)
    } else {
        let rest = raw_code_run(ev, i + 1);
        match ev[i] {
            EventView::End(Kind::CodeBlock) => (seq![], i + 1),
            EventView::Text(t) => (t + rest.0, rest.1),
            _ => rest,
        }
    }
}

/// The text of a code block, without the newline that ends its last line.
pub open spec fn code_run(ev: Seq<EventView>, i: int) -> (Seq<char>, int) {
    let raw = raw_code_run(ev, i);
    (text::without_last(raw.0, '\n'), raw.1)
}

/// A text element, or nothing for empty text (which Slack rejects).
pub open spec fn text_elements(t: Seq<char>, style: Style) -> Seq<ElementView> {
    if t.len() == 0 {
        seq![]
    } else {
        seq![ElementView::Text { text: t, style }]
    }
}

/// A link element; the URL is the label when the text is empty.
pub open spec fn link_view(url: Seq<char>, t: Seq<char>, style: Style) -> ElementView {
    ElementView::Link {
        url,
        label: if t.len() == 0 {
            url
        } else {
            t
        },
        style,
    }
}

/// Whether the tag only styles what it holds.
pub open spec fn is_styling(k: Kind) -> bool {
    k is Emphasis || k is Strong || k is Strikethrough
}

/// The style inside a styling tag.
pub open spec fn style_inside(k: Kind, style: Style) -> Style {
    match k {
        Kind::Emphasis => Style { italic: true, ..style },
        Kind::Strong => Style { bold: true, ..style },
        Kind::Strikethrough => Style { strike: true, ..style },
        _ => style,
    }
}

/// `before`, then what the rest gives.
pub open spec fn then_run(before: Seq<ElementView>, rest: (Seq<ElementView>, int)) -> (
    Seq<ElementView>,
    int,
) {
    (before + rest.0, rest.1)
}

/// An inline run in `style`. It stops at the first closing tag, past it when
/// it is `end`, and before an opening tag that is not inline.
pub open spec fn inline_run(ev: Seq<EventView>, i: int, end: Option<Kind>, style: Style) -> (
    Seq<ElementView>,
    int,
)
    decreases ev.len() - i,
{
    if i < 0 || i >= ev.len() {
        (seq![], i)
    } else {
        match ev[i] {
            EventView::End(k) => (
                seq![],
                if end == Some(k) {
                    i + 1
                } else {
                    i
                },
            ),
            EventView::Text(t) => then_run(
                text_elements(t, style),
                inline_run(ev, i + 1, end, style),
            ),
            EventView::Code(t) => then_run(
                text_elements(t, Style { code: true, ..style }),
                inline_run(ev, i + 1, end, style),
            ),
            EventView::Break => then_run(
                text_elements("\n"@, style),
                inline_run(ev, i + 1, end, style),
            ),
            EventView::Start(k) => if is_styling(k) {
                let inside = inline_run(ev, i + 1, Some(k), style_inside(k, style));
                if i < inside.1 <= ev.len() {
                    then_run(inside.0, inline_run(ev, inside.1, end, style))
                } else {
                    inside
                }
            } else {
                (seq![], i)
            },
            EventView::Link(url) => {
                proof {
                    lemma_text_run(ev, i + 1, Kind::Link);
                }
                let label = text_run(ev, i + 1, Kind::Link);
                then_run(
                    seq![link_view(url, label.0, style)],
                    inline_run(ev, label.1, end, style),
                )
            },
            EventView::Image(url) => {
                proof {
                    lemma_text_run(ev, i + 1, Kind::Image);
                }
                let label = text_run(ev, i + 1, Kind::Image);
                then_run(
                    seq![link_view(url, label.0, style)],
                    inline_run(ev, label.1, end, style),
                )
            },
            EventView::Table(_) => (seq![], i),
            _ => inline_run(ev, i + 1, end, style),
        }
    }
}

pub proof fn lemma_text_run(ev: Seq<EventView>, i: int, end: Kind)
    requires
        0 <= i <= ev.len(),
    ensures
        i <= text_run(ev, i, end).1 <= ev.len(),
    decreases ev.len() - i,
{
    if i < ev.len() {
        lemma_text_run(ev, i + 1, end);
    }
}

pub proof fn lemma_raw_code_run(ev: Seq<EventView>, i: int)
    requires
        0 <= i <= ev.len(),
    ensures
        i <= raw_code_run(ev, i).1 <= ev.len(),
    decreases ev.len() - i,
{
    if i < ev.len() {
        lemma_raw_code_run(ev, i + 1);
    }
}

/// An inline run never goes back, nor past the end of the document.
pub proof fn lemma_inline_run(ev: Seq<EventView>, i: int, end: Option<Kind>, style: Style)
    requires
        0 <= i <= ev.len(),
    ensures
        i <= inline_run(ev, i, end, style).1 <= ev.len(),
    decreases ev.len() - i,
{
    if i < ev.len() {
        match ev[i] {
            EventView::End(_) => {},
            EventView::Start(k) => {
                if is_styling(k) {
                    let s = style_inside(k, style);
                    lemma_inline_run(ev, i + 1, Some(k), s);
                    lemma_inline_run(ev, inline_run(ev, i + 1, Some(k), s).1, end, style);
                }
            },
            EventView::Link(_) => {
                lemma_text_run(ev, i + 1, Kind::Link);
                lemma_inline_run(ev, text_run(ev, i + 1, Kind::Link).1, end, style);
            },
            EventView::Image(_) => {
                lemma_text_run(ev, i + 1, Kind::Image);
                lemma_inline_run(ev, text_run(ev, i + 1, Kind::Image).1, end, style);
            },
            EventView::Table(_) => {},
            _ => {
                lemma_inline_run(ev, i + 1, end, style);
            },
        }
    }
}

/// Flatten inline content to plain text up to (and past) the closing `end`.
pub fn collect_text(events: &Vec<Event>, i: &mut usize, end: Kind) -> (r: String)
    ensures
        (r@, *final(i) as int) == text_run(markdown::events_view(events@), *old(i) as int, end),
{
    let mut s: String = String::new();
    let ghost ev = markdown::events_view(events@);
    let ghost start = *i as int;
    while *i < events.len()
        invariant
            start == *old(i),
            start <= *i,
            *i == start || *i <= events@.len(),
            ev == markdown::events_view(events@),
            text_run(ev, start, end) == (
                s@ + text_run(ev, *i as int, end).0,
                text_run(ev, *i as int, end).1,
            ),
        decreases events@.len() - *i,
    {
        match &events[*i] {
            Event::End(k) => {
                *i = *i + 1;
                if *k == end {
                    assert(s@ + Seq::<char>::empty() =~= s@);
                    return s;
                }
            },
            Event::Text(t) => {
                s.append(t.as_str());
                *i = *i + 1;
            },
            Event::Code(t) => {
                s.append(t.as_str());
                *i = *i + 1;
            },
            Event::Break => {
                s.append(" ");
                *i = *i + 1;
            },
            _ => {
                *i = *i + 1;
            },
        }
    }
    s
}

/// Concatenate the text of a code block up to (and past) its end, dropping the
/// newline that ends its last line.
pub fn collect_code(events: &Vec<Event>, i: &mut usize) -> (r: String)
    ensures
        (r@, *final(i) as int) == code_run(markdown::events_view(events@), *old(i) as int),
{
    let mut code: String = String::new();
    let ghost ev = markdown::events_view(events@);
    let ghost start = *i as int;
    while *i < events.len()
        invariant_except_break
            raw_code_run(ev, start) == (
                code@ + raw_code_run(ev, *i as int).0,
                raw_code_run(ev, *i as int).1,
            ),
        invariant
            start <= *i,
            *i == start || *i <= events@.len(),
            ev == markdown::events_view(events@),
        ensures
            raw_code_run(ev, start) == (code@, *i as int),
        decreases events@.len() - *i,
    {
        match &events[*i] {
            Event::End(Kind::CodeBlock) => {
                *i = *i + 1;
                assert(code@ + Seq::<char>::empty() =~= code@);
                break;
            },
            Event::Text(t) => {
                code.append(t.as_str());
                *i = *i + 1;
            },
            _ => {
                *i = *i + 1;
            },
        }
    }
    text::drop_last(code.as_str(), '\n').to_owned()
}

/// Push a text element, skipping empty text (which Slack rejects).
pub fn push_text(out: &mut Vec<Element>, t: &str, style: Style)
    ensures
        blocks::elements_view(final(out)@) == blocks::elements_view(old(out)@) + text_elements(
            t@,
            style,
        ),
{
    if !t.is_empty() {
        out.push(Element::Text { text: t.to_owned(), style });
    }
    assert(blocks::elements_view(out@) =~= blocks::elements_view(old(out)@) + text_elements(
        t@,
        style,
    ));
}

/// A link element. Falls back to the URL as the label when the text is empty.
pub fn link_element(url: &str, t: &str, style: Style) -> (r: Element)
    ensures
        r@ == link_view(url@, t@, style),
{
    let label: &str = if t.is_empty() {
        url
    } else {
        t
    };
    Element::Link { url: url.to_owned(), label: label.to_owned(), style }
}

fn style_in(k: Kind, style: Style) -> (r: Option<Style>)
    ensures
        r is Some <==> is_styling(k),
        r matches Some(s) ==> s == style_inside(k, style),
{
    match k {
        Kind::Emphasis => Some(style.with_italic()),
        Kind::Strong => Some(style.with_bold()),
        Kind::Strikethrough => Some(style.with_strike()),
        _ => None,
    }
}

/// Walk an inline run, appending its elements to `out`. Stops at the first
/// closing tag, past it when it is `end`, or before an opening tag that is not
/// inline, so the caller's block loop sees it.
pub fn push_inline(
    events: &Vec<Event>,
    i: &mut usize,
    end: Option<Kind>,
    style: Style,
    out: &mut Vec<Element>,
)
    ensures
        ({
            let run = inline_run(markdown::events_view(events@), *old(i) as int, end, style);
            &&& blocks::elements_view(final(out)@) == blocks::elements_view(old(out)@) + run.0
            &&& *final(i) == run.1
        }),
    decreases events@.len() - *old(i),
{
    let ghost ev = markdown::events_view(events@);
    let ghost start = *i as int;
    let ghost had = blocks::elements_view(out@);
    let ghost mut run = Seq::<ElementView>::empty();
    assert(had + run =~= had);
    assert(then_run(run, inline_run(ev, start, end, style)).0 =~= inline_run(
        ev,
        start,
        end,
        style,
    ).0);
    while *i < events.len()
        invariant
            start == *old(i),
            start <= *i,
            *i == start || *i <= events@.len(),
            ev == markdown::events_view(events@),
            had == blocks::elements_view(old(out)@),
            blocks::elements_view(out@) == had + run,
            inline_run(ev, start, end, style) == then_run(
                run,
                inline_run(ev, *i as int, end, style),
            ),
        decreases events@.len() - *i,
    {
        let ghost at = *i as int;
        let ghost so_far = blocks::elements_view(out@);
        let ghost part: Seq<ElementView>;
        match &events[*i] {
            Event::End(k) => {
                if end == Some(*k) {
                    *i = *i + 1;
                }
                assert(run + Seq::<ElementView>::empty() =~= run);
                return ;
            },
            Event::Text(t) => {
                push_text(out, t.as_str(), style);
                *i = *i + 1;
                proof {
                    part = text_elements(t@, style);
                }
            },
            Event::Code(t) => {
                push_text(out, t.as_str(), style.with_code());
                *i = *i + 1;
                proof {
                    part = text_elements(t@, Style { code: true, ..style });
                }
            },
            Event::Break => {
                push_text(out, "\n", style);
                *i = *i + 1;
                proof {
                    part = text_elements("\n"@, style);
                }
            },
            Event::Start(k) => {
                match style_in(*k, style) {
                    Some(inner) => {
                        proof {
                            lemma_inline_run(ev, at + 1, Some(*k), inner);
                            part = inline_run(ev, at + 1, Some(*k), inner).0;
                        }
                        *i = *i + 1;
                        push_inline(events, i, Some(*k), inner, out);
                    },
                    None => {
                        assert(run + Seq::<ElementView>::empty() =~= run);
                        return ;
                    },
                }
            },
            Event::Link(url) => {
                proof {
                    lemma_text_run(ev, at + 1, Kind::Link);
                }
                *i = *i + 1;
                let label = collect_text(events, i, Kind::Link);
                out.push(link_element(url.as_str(), label.as_str(), style));
                proof {
                    part = seq![link_view(url@, label@, style)];
                    assert(blocks::elements_view(out@) =~= so_far + part);
                }
            },
            Event::Image(url) => {
                proof {
                    lemma_text_run(ev, at + 1, Kind::Image);
                }
                *i = *i + 1;
                let label = collect_text(events, i, Kind::Image);
                out.push(link_element(url.as_str(), label.as_str(), style));
                proof {
                    part = seq![link_view(url@, label@, style)];
                    assert(blocks::elements_view(out@) =~= so_far + part);
                }
            },
            Event::Table(_) => {
                assert(run + Seq::<ElementView>::empty() =~= run);
                return ;
            },
            _ => {
                *i = *i + 1;
                proof {
                    part = Seq::empty();
                    assert(so_far =~= so_far + part);
                }
            },
        }
        proof {
            let rest = inline_run(ev, *i as int, end, style);
            assert(inline_run(ev, at, end, style).0 =~= part + rest.0);
            assert(run + (part + rest.0) =~= (run + part) + rest.0);
            assert((had + run) + part =~= had + (run + part));
            run = run + part;
        }
    }
    assert(run + Seq::<ElementView>::empty() =~= run);
}

/// The deepest indent a list run can carry.
pub const MAX_INDENT: u8 = 255;

/// A list run with these sections, or nothing when there are none.
pub open spec fn list_parts(ordered: bool, indent: nat, sections: Seq<Seq<ElementView>>) -> Seq<
    RichTextView,
> {
    if sections.len() == 0 {
        seq![]
    } else {
        seq![RichTextView::List { ordered, indent, sections }]
    }
}

/// The sections after an item's elements were closed off as one more.
pub open spec fn close_section(sections: Seq<Seq<ElementView>>, sec: Seq<ElementView>) -> Seq<
    Seq<ElementView>,
> {
    if sec.len() == 0 {
        sections
    } else {
        sections.push(sec)
    }
}

/// `before`, then what the rest gives.
pub open spec fn then_parts(
    before: Seq<RichTextView>,
    rest: Option<(Seq<RichTextView>, int)>,
) -> Option<(Seq<RichTextView>, int)> {
    match rest {
        Some(run) => Some((before + run.0, run.1)),
        None => None,
    }
}

/// Where an inline run that owns no closing tag leaves off: past at least one
/// event.
pub open spec fn past(i: int, next: int) -> int {
    if next == i {
        i + 1
    } else {
        next
    }
}

/// A list from inside its opening tag, with the sections of its current run so
/// far. Deeper lists come in document order, as runs of their own with a higher
/// indent. `None` when lists nest deeper than an indent can say.
pub open spec fn list_run(
    ev: Seq<EventView>,
    i: int,
    ordered: bool,
    indent: nat,
    sections: Seq<Seq<ElementView>>,
) -> Option<(Seq<RichTextView>, int)>
    decreases ev.len() - i,
{
    if i < 0 || i >= ev.len() {
        Some((list_parts(ordered, indent, sections), i))
    } else {
        match ev[i] {
            EventView::End(Kind::List(_)) => Some((list_parts(ordered, indent, sections), i + 1)),
            EventView::Start(Kind::Item) => item_run(
                ev,
                i + 1,
                ordered,
                indent,
                sections,
                seq![],
            ),
            _ => list_run(ev, i + 1, ordered, indent, sections),
        }
    }
}

/// The rest of a list from inside an item, with the item's elements so far.
pub open spec fn item_run(
    ev: Seq<EventView>,
    i: int,
    ordered: bool,
    indent: nat,
    sections: Seq<Seq<ElementView>>,
    sec: Seq<ElementView>,
) -> Option<(Seq<RichTextView>, int)>
    decreases ev.len() - i,
{
    if i < 0 || i >= ev.len() {
        Some((list_parts(ordered, indent, close_section(sections, sec)), i))
    } else {
        match ev[i] {
            EventView::End(Kind::Item) => list_run(
                ev,
                i + 1,
                ordered,
                indent,
                close_section(sections, sec),
            ),
            EventView::Start(Kind::List(inner_ordered)) => if indent >= MAX_INDENT {
                None
            } else {
                match list_run(ev, i + 1, inner_ordered, indent + 1, seq![]) {
                    Some(inner) => if i < inner.1 <= ev.len() {
                        then_parts(
                            list_parts(ordered, indent, close_section(sections, sec)) + inner.0,
                            item_run(ev, inner.1, ordered, indent, seq![], seq![]),
                        )
                    } else {
                        None
                    },
                    None => None,
                }
            },
            EventView::Start(Kind::Paragraph) => {
                proof {
                    lemma_inline_run(ev, i + 1, Some(Kind::Paragraph), Style::plain());
                }
                let run = inline_run(ev, i + 1, Some(Kind::Paragraph), Style::plain());
                item_run(ev, run.1, ordered, indent, sections, sec + run.0)
            },
            EventView::Start(Kind::CodeBlock) => {
                proof {
                    lemma_raw_code_run(ev, i + 1);
                }
                let run = code_run(ev, i + 1);
                item_run(
                    ev,
                    run.1,
                    ordered,
                    indent,
                    sections,
                    sec + text_elements(run.0, Style { code: true, ..Style::plain() }),
                )
            },
            _ => {
                proof {
                    lemma_inline_run(ev, i, None, Style::plain());
                }
                let run = inline_run(ev, i, None, Style::plain());
                item_run(ev, past(i, run.1), ordered, indent, sections, sec + run.0)
            },
        }
    }
}

/// A list never goes back, nor past the end of the document.
pub proof fn lemma_list_run(
    ev: Seq<EventView>,
    i: int,
    ordered: bool,
    indent: nat,
    sections: Seq<Seq<ElementView>>,
)
    requires
        0 <= i <= ev.len(),
    ensures
        list_run(ev, i, ordered, indent, sections) matches Some(run) ==> i <= run.1 <= ev.len(),
    decreases ev.len() - i,
{
    if i < ev.len() {
        match ev[i] {
            EventView::End(Kind::List(_)) => {},
            EventView::Start(Kind::Item) => {
                lemma_item_run(ev, i + 1, ordered, indent, sections, seq![]);
            },
            _ => {
                lemma_list_run(ev, i + 1, ordered, indent, sections);
            },
        }
    }
}

pub proof fn lemma_item_run(
    ev: Seq<EventView>,
    i: int,
    ordered: bool,
    indent: nat,
    sections: Seq<Seq<ElementView>>,
    sec: Seq<ElementView>,
)
    requires
        0 <= i <= ev.len(),
    ensures
        item_run(ev, i, ordered, indent, sections, sec) matches Some(run) ==> i <= run.1
            <= ev.len(),
    decreases ev.len() - i,
{
    if i < ev.len() {
        match ev[i] {
            EventView::End(Kind::Item) => {
                lemma_list_run(ev, i + 1, ordered, indent, close_section(sections, sec));
            },
            EventView::Start(Kind::List(inner_ordered)) => {
                if indent < MAX_INDENT {
                    lemma_list_run(ev, i + 1, inner_ordered, indent + 1, seq![]);
                    if let Some(inner) = list_run(ev, i + 1, inner_ordered, indent + 1, seq![]) {
                        lemma_item_run(ev, inner.1, ordered, indent, seq![], seq![]);
                    }
                }
            },
            EventView::Start(Kind::Paragraph) => {
                lemma_inline_run(ev, i + 1, Some(Kind::Paragraph), Style::plain());
                let run = inline_run(ev, i + 1, Some(Kind::Paragraph), Style::plain());
                lemma_item_run(ev, run.1, ordered, indent, sections, sec + run.0);
            },
            EventView::Start(Kind::CodeBlock) => {
                lemma_raw_code_run(ev, i + 1);
                let run = code_run(ev, i + 1);
                lemma_item_run(
                    ev,
                    run.1,
                    ordered,
                    indent,
                    sections,
                    sec + text_elements(run.0, Style { code: true, ..Style::plain() }),
                );
            },
            _ => {
                lemma_inline_run(ev, i, None, Style::plain());
                let run = inline_run(ev, i, None, Style::plain());
                lemma_item_run(ev, past(i, run.1), ordered, indent, sections, sec + run.0);
            },
        }
    }
}

/// Close off a list run, leaving no sections.
fn take_list(ordered: bool, indent: u8, sections: &mut Vec<Vec<Element>>) -> (r: Vec<RichText>)
    ensures
        blocks::rich_view(r@) == list_parts(
            ordered,
            indent as nat,
            blocks::sections_view(old(sections)@),
        ),
        final(sections)@.len() == 0,
{
    let mut out: Vec<RichText> = Vec::new();
    if sections.len() > 0 {
        let mut taken: Vec<Vec<Element>> = Vec::new();
        std::mem::swap(&mut taken, sections);
        out.push(RichText::List { ordered, indent, sections: taken });
    }
    assert(blocks::rich_view(out@) =~= list_parts(
        ordered,
        indent as nat,
        blocks::sections_view(old(sections)@),
    ));
    out
}

/// Close off an item's elements as a section, unless there are none.
fn push_section(sections: &mut Vec<Vec<Element>>, sec: Vec<Element>)
    ensures
        blocks::sections_view(final(sections)@) == close_section(
            blocks::sections_view(old(sections)@),
            blocks::elements_view(sec@),
        ),
{
    if sec.len() > 0 {
        sections.push(sec);
    }
    assert(blocks::sections_view(sections@) =~= close_section(
        blocks::sections_view(old(sections)@),
        blocks::elements_view(sec@),
    ));
}

/// Render a list (and the lists nested in it) from inside its opening tag.
/// `None` when lists nest deeper than an indent can say.
pub fn render_list(events: &Vec<Event>, i: &mut usize, ordered: bool, indent: u8) -> (r: Option<
    Vec<RichText>,
>)
    ensures
        match r {
            Some(parts) => list_run(
                markdown::events_view(events@),
                *old(i) as int,
                ordered,
                indent as nat,
                seq![],
            ) == Some((blocks::rich_view(parts@), *final(i) as int)),
            None => list_run(
                markdown::events_view(events@),
                *old(i) as int,
                ordered,
                indent as nat,
                seq![],
            ) is None,
        },
    decreases events@.len() - *old(i),
{
    let ghost ev = markdown::events_view(events@);
    let ghost start = *i as int;
    let ghost goal = list_run(ev, start, ordered, indent as nat, seq![]);
    let mut out: Vec<RichText> = Vec::new();
    let mut sections: Vec<Vec<Element>> = Vec::new();
    proof {
        assert(blocks::sections_view(sections@) =~= seq![]);
        assert(blocks::rich_view(out@) =~= seq![]);
        if let Some(run) = goal {
            assert(blocks::rich_view(out@) + run.0 =~= run.0);
        }
    }
    while *i < events.len()
        invariant
            start == *old(i),
            start <= *i,
            *i == start || *i <= events@.len(),
            ev == markdown::events_view(events@),
            goal == list_run(ev, start, ordered, indent as nat, seq![]),
            goal == then_parts(
                blocks::rich_view(out@),
                list_run(
                    ev,
                    *i as int,
                    ordered,
                    indent as nat,
                    blocks::sections_view(sections@),
                ),
            ),
        decreases events@.len() - *i,
    {
        match &events[*i] {
            Event::End(Kind::List(_)) => {
                *i = *i + 1;
                let mut last = take_list(ordered, indent, &mut sections);
                let ghost before = blocks::rich_view(out@);
                let ghost after = blocks::rich_view(last@);
                out.append(&mut last);
                assert(blocks::rich_view(out@) =~= before + after);
                return Some(out);
            },
            Event::Start(Kind::Item) => {
                *i = *i + 1;
                match render_item(events, i, ordered, indent, &mut sections) {
                    Some(parts) => {
                        let mut parts = parts;
                        let ghost before = blocks::rich_view(out@);
                        let ghost after = blocks::rich_view(parts@);
                        out.append(&mut parts);
                        assert(blocks::rich_view(out@) =~= before + after);
                        proof {
                            let rest = list_run(
                                ev,
                                *i as int,
                                ordered,
                                indent as nat,
                                blocks::sections_view(sections@),
                            );
                            if let Some(run) = rest {
                                assert(before + (after + run.0) =~= (before + after) + run.0);
                            }
                        }
                    },
                    None => {
                        return None;
                    },
                }
            },
            _ => {
                *i = *i + 1;
            },
        }
    }
    let mut last = take_list(ordered, indent, &mut sections);
    let ghost before = blocks::rich_view(out@);
    let ghost after = blocks::rich_view(last@);
    out.append(&mut last);
    assert(blocks::rich_view(out@) =~= before + after);
    Some(out)
}

/// Render one item of a list from inside its opening tag, adding to the
/// sections of the list's current run, and return the parts that were closed
/// off on the way.
fn render_item(
    events: &Vec<Event>,
    i: &mut usize,
    ordered: bool,
    indent: u8,
    sections: &mut Vec<Vec<Element>>,
) -> (r: Option<Vec<RichText>>)
    requires
        *old(i) <= events@.len(),
    ensures
        ({
            let ev = markdown::events_view(events@);
            let goal = item_run(
                ev,
                *old(i) as int,
                ordered,
                indent as nat,
                blocks::sections_view(old(sections)@),
                seq![],
            );
            match r {
                Some(parts) => *old(i) <= *final(i) <= events@.len() && goal == then_parts(
                    blocks::rich_view(parts@),
                    list_run(
                        ev,
                        *final(i) as int,
                        ordered,
                        indent as nat,
                        blocks::sections_view(final(sections)@),
                    ),
                ),
                None => goal is None,
            }
        }),
    decreases events@.len() - *old(i),
{
    let ghost ev = markdown::events_view(events@);
    let ghost start = *i as int;
    let ghost goal = item_run(
        ev,
        start,
        ordered,
        indent as nat,
        blocks::sections_view(sections@),
        seq![],
    );
    let mut out: Vec<RichText> = Vec::new();
    let mut sec: Vec<Element> = Vec::new();
    proof {
        assert(blocks::elements_view(sec@) =~= seq![]);
        assert(blocks::rich_view(out@) =~= seq![]);
        if let Some(run) = goal {
            assert(blocks::rich_view(out@) + run.0 =~= run.0);
        }
    }
    while *i < events.len()
        invariant
            start == *old(i),
            start <= *i <= events@.len(),
            ev == markdown::events_view(events@),
            goal == item_run(
                ev,
                start,
                ordered,
                indent as nat,
                blocks::sections_view(old(sections)@),
                seq![],
            ),
            goal == then_parts(
                blocks::rich_view(out@),
                item_run(
                    ev,
                    *i as int,
                    ordered,
                    indent as nat,
                    blocks::sections_view(sections@),
                    blocks::elements_view(sec@),
                ),
            ),
        decreases events@.len() - *i,
    {
        let ghost at = *i as int;
        match &events[*i] {
            Event::End(Kind::Item) => {
                *i = *i + 1;
                push_section(sections, sec);
                return Some(out);
            },
            Event::Start(Kind::List(inner_ordered)) => {
                if indent >= MAX_INDENT {
                    return None;
                }
                let mut done: Vec<Element> = Vec::new();
                std::mem::swap(&mut done, &mut sec);
                push_section(sections, done);
                let ghost before = blocks::rich_view(out@);
                let mut here = take_list(ordered, indent, sections);
                let ghost here_view = blocks::rich_view(here@);
                out.append(&mut here);
                assert(blocks::rich_view(out@) =~= before + here_view);
                proof {
                    lemma_list_run(ev, at + 1, *inner_ordered, (indent + 1) as nat, seq![]);
                }
                *i = *i + 1;
                match render_list(events, i, *inner_ordered, indent + 1) {
                    Some(inner) => {
                        let mut inner = inner;
                        let ghost inner_view = blocks::rich_view(inner@);
                        out.append(&mut inner);
                        assert(blocks::rich_view(out@) =~= before + here_view + inner_view);
                        assert(blocks::sections_view(sections@) =~= seq![]);
                        assert(blocks::elements_view(sec@) =~= seq![]);
                        proof {
                            let rest = item_run(
                                ev,
                                *i as int,
                                ordered,
                                indent as nat,
                                seq![],
                                seq![],
                            );
                            if let Some(run) = rest {
                                assert(before + ((here_view + inner_view) + run.0) =~= (before
                                    + here_view + inner_view) + run.0);
                            }
                        }
                    },
                    None => {
                        return None;
                    },
                }
            },
            Event::Start(Kind::Paragraph) => {
                proof {
                    lemma_inline_run(ev, at + 1, Some(Kind::Paragraph), Style::plain());
                }
                *i = *i + 1;
                push_inline(events, i, Some(Kind::Paragraph), Style::default(), &mut sec);
            },
            Event::Start(Kind::CodeBlock) => {
                proof {
                    lemma_raw_code_run(ev, at + 1);
                }
                *i = *i + 1;
                let code = collect_code(events, i);
                push_text(&mut sec, code.as_str(), Style::default().with_code());
            },
            _ => {
                proof {
                    lemma_inline_run(ev, at, None, Style::plain());
                }
                let before: usize = *i;
                push_inline(events, i, None, Style::default(), &mut sec);
                if *i == before {
                    *i = *i + 1;
                }
            },
        }
    }
    push_section(sections, sec);
    Some(out)
}

/// A block quote's inline content up to its end, after `had`; each paragraph
/// but a leading one starts on a new line.
pub open spec fn quote_run(ev: Seq<EventView>, i: int, had: Seq<ElementView>) -> (
    Seq<ElementView>,
    int,
)
    decreases ev.len() - i,
{
    if i < 0 || i >= ev.len() {
        (had, i)
    } else {
        match ev[i] {
            EventView::End(Kind::BlockQuote) => (had, i + 1),
            EventView::Start(Kind::Paragraph) => {
                proof {
                    lemma_inline_run(ev, i + 1, Some(Kind::Paragraph), Style::plain());
                }
                let run = inline_run(ev, i + 1, Some(Kind::Paragraph), Style::plain());
                let open = if had.len() == 0 {
                    had
                } else {
                    had + text_elements("\n"@, Style::plain())
                };
                quote_run(ev, run.1, open + run.0)
            },
            _ => {
                proof {
                    lemma_inline_run(ev, i, None, Style::plain());
                }
                let run = inline_run(ev, i, None, Style::plain());
                quote_run(ev, past(i, run.1), had + run.0)
            },
        }
    }
}

/// Whether every element is unstyled text.
pub open spec fn all_plain(v: Seq<ElementView>) -> bool {
    forall|k: int| 0 <= k < v.len() ==> is_plain(#[trigger] v[k])
}

/// Whether the element is unstyled text.
pub open spec fn is_plain(e: ElementView) -> bool {
    e matches ElementView::Text { style, .. } && style == Style::plain()
}

/// The text an element shows.
pub open spec fn shown(e: ElementView) -> Seq<char> {
    match e {
        ElementView::Text { text, .. } => text,
        ElementView::Link { label, .. } => label,
    }
}

/// The text a run of elements shows.
pub open spec fn shown_text(v: Seq<ElementView>) -> Seq<char>
    decreases v.len(),
{
    if v.len() == 0 {
        seq![]
    } else {
        shown_text(v.drop_last()) + shown(v.last())
    }
}

/// A table cell: raw text when its content is unstyled, else the elements, so
/// links and styles survive.
pub open spec fn cell_of(v: Seq<ElementView>) -> CellView {
    if all_plain(v) {
        CellView::Raw(shown_text(v))
    } else {
        CellView::Rich(v)
    }
}

/// A table row's cells up to its end, after `had`.
pub open spec fn row_run(ev: Seq<EventView>, i: int, end: Kind, had: Seq<CellView>) -> (
    Seq<CellView>,
    int,
)
    decreases ev.len() - i,
{
    if i < 0 || i >= ev.len() {
        (had, i)
    } else {
        match ev[i] {
            EventView::End(k) => if k == end {
                (had, i + 1)
            } else {
                row_run(ev, i + 1, end, had)
            },
            EventView::Start(Kind::TableCell) => {
                proof {
                    lemma_inline_run(ev, i + 1, Some(Kind::TableCell), Style::plain());
                }
                let run = inline_run(ev, i + 1, Some(Kind::TableCell), Style::plain());
                row_run(ev, run.1, end, had.push(cell_of(run.0)))
            },
            _ => row_run(ev, i + 1, end, had),
        }
    }
}

pub proof fn lemma_row_run(ev: Seq<EventView>, i: int, end: Kind, had: Seq<CellView>)
    requires
        0 <= i <= ev.len(),
    ensures
        i <= row_run(ev, i, end, had).1 <= ev.len(),
    decreases ev.len() - i,
{
    if i < ev.len() {
        match ev[i] {
            EventView::End(k) => {
                if k != end {
                    lemma_row_run(ev, i + 1, end, had);
                }
            },
            EventView::Start(Kind::TableCell) => {
                lemma_inline_run(ev, i + 1, Some(Kind::TableCell), Style::plain());
                let run = inline_run(ev, i + 1, Some(Kind::TableCell), Style::plain());
                lemma_row_run(ev, run.1, end, had.push(cell_of(run.0)));
            },
            _ => {
                lemma_row_run(ev, i + 1, end, had);
            },
        }
    }
}

/// A table's rows (the head first) up to its end, after `had`.
pub open spec fn rows_run(ev: Seq<EventView>, i: int, had: Seq<Seq<CellView>>) -> (
    Seq<Seq<CellView>>,
    int,
)
    decreases ev.len() - i,
{
    if i < 0 || i >= ev.len() {
        (had, i)
    } else {
        match ev[i] {
            EventView::End(Kind::Table) => (had, i + 1),
            EventView::Start(Kind::TableHead) => {
                proof {
                    lemma_row_run(ev, i + 1, Kind::TableHead, seq![]);
                }
                let row = row_run(ev, i + 1, Kind::TableHead, seq![]);
                rows_run(ev, row.1, had.push(row.0))
            },
            EventView::Start(Kind::TableRow) => {
                proof {
                    lemma_row_run(ev, i + 1, Kind::TableRow, seq![]);
                }
                let row = row_run(ev, i + 1, Kind::TableRow, seq![]);
                rows_run(ev, row.1, had.push(row.0))
            },
            _ => rows_run(ev, i + 1, had),
        }
    }
}

pub proof fn lemma_rows_run(ev: Seq<EventView>, i: int, had: Seq<Seq<CellView>>)
    requires
        0 <= i <= ev.len(),
    ensures
        i <= rows_run(ev, i, had).1 <= ev.len(),
    decreases ev.len() - i,
{
    if i < ev.len() {
        match ev[i] {
            EventView::End(Kind::Table) => {},
            EventView::Start(Kind::TableHead) => {
                lemma_row_run(ev, i + 1, Kind::TableHead, seq![]);
                let row = row_run(ev, i + 1, Kind::TableHead, seq![]);
                lemma_rows_run(ev, row.1, had.push(row.0));
            },
            EventView::Start(Kind::TableRow) => {
                lemma_row_run(ev, i + 1, Kind::TableRow, seq![]);
                let row = row_run(ev, i + 1, Kind::TableRow, seq![]);
                lemma_rows_run(ev, row.1, had.push(row.0));
            },
            _ => {
                lemma_rows_run(ev, i + 1, had);
            },
        }
    }
}

pub proof fn lemma_quote_run(ev: Seq<EventView>, i: int, had: Seq<ElementView>)
    requires
        0 <= i <= ev.len(),
    ensures
        i <= quote_run(ev, i, had).1 <= ev.len(),
    decreases ev.len() - i,
{
    if i < ev.len() {
        match ev[i] {
            EventView::End(Kind::BlockQuote) => {},
            EventView::Start(Kind::Paragraph) => {
                lemma_inline_run(ev, i + 1, Some(Kind::Paragraph), Style::plain());
                let run = inline_run(ev, i + 1, Some(Kind::Paragraph), Style::plain());
                let open = if had.len() == 0 {
                    had
                } else {
                    had + text_elements("\n"@, Style::plain())
                };
                lemma_quote_run(ev, run.1, open + run.0);
            },
            _ => {
                lemma_inline_run(ev, i, None, Style::plain());
                let run = inline_run(ev, i, None, Style::plain());
                lemma_quote_run(ev, past(i, run.1), had + run.0);
            },
        }
    }
}

/// The header block for a heading's text: trimmed, cut to Slack's limit, and
/// nothing for a blank heading.
pub open spec fn header_blocks(t: Seq<char>) -> Seq<BlockView> {
    let t = text::trimmed(t);
    if t.len() == 0 {
        seq![]
    } else if t.len() <= MAX_HEADER_CHARS {
        seq![BlockView::Header(t)]
    } else {
        seq![BlockView::Header(t.subrange(0, MAX_HEADER_CHARS as int))]
    }
}

/// A `rich_text` block with these parts, or nothing when there are none.
pub open spec fn rich_blocks(parts: Seq<RichTextView>) -> Seq<BlockView> {
    if parts.len() == 0 {
        seq![]
    } else {
        seq![BlockView::RichText(parts)]
    }
}

/// A table block, or nothing for a table that is empty or too large for Slack.
pub open spec fn table_blocks(columns: Seq<Align>, rows: Seq<Seq<CellView>>) -> Seq<BlockView> {
    if rows.len() == 0 || rows.len() > MAX_TABLE_ROWS || columns.len() > MAX_TABLE_COLS {
        seq![]
    } else {
        seq![BlockView::Table { columns, rows }]
    }
}

/// What the event at `i` starts at the top level: the block it becomes, if any,
/// and where the next one starts. `None` as for [`list_run`].
pub open spec fn block_run(ev: Seq<EventView>, i: int) -> Option<(Seq<BlockView>, int)> {
    match ev[i] {
        EventView::Start(Kind::Heading) => {
            let run = text_run(ev, i + 1, Kind::Heading);
            Some((header_blocks(run.0), run.1))
        },
        EventView::Start(Kind::Paragraph) => {
            let run = inline_run(ev, i + 1, Some(Kind::Paragraph), Style::plain());
            if run.0.len() == 0 {
                Some((seq![], run.1))
            } else {
                Some((rich_blocks(seq![RichTextView::Section(run.0)]), run.1))
            }
        },
        EventView::Start(Kind::List(ordered)) => match list_run(ev, i + 1, ordered, 0, seq![]) {
            Some(run) => Some((rich_blocks(run.0), run.1)),
            None => None,
        },
        EventView::Start(Kind::BlockQuote) => {
            let run = quote_run(ev, i + 1, seq![]);
            if run.0.len() == 0 {
                Some((seq![], run.1))
            } else {
                Some((rich_blocks(seq![RichTextView::Quote(run.0)]), run.1))
            }
        },
        EventView::Start(Kind::CodeBlock) => {
            let run = code_run(ev, i + 1);
            if run.0.len() == 0 {
                Some((seq![], run.1))
            } else {
                Some((rich_blocks(seq![RichTextView::Preformatted(run.0)]), run.1))
            }
        },
        EventView::Table(columns) => {
            let run = rows_run(ev, i + 1, seq![]);
            Some((table_blocks(columns, run.0), run.1))
        },
        EventView::Rule => Some((seq![BlockView::Divider], i + 1)),
        _ => Some((seq![], i + 1)),
    }
}

/// Every block takes at least one event, and none past the end of the document.
pub proof fn lemma_block_run(ev: Seq<EventView>, i: int)
    requires
        0 <= i < ev.len(),
    ensures
        block_run(ev, i) matches Some(run) ==> i < run.1 <= ev.len() && run.0.len() <= 1,
{
    match ev[i] {
        EventView::Start(Kind::Heading) => {
            lemma_text_run(ev, i + 1, Kind::Heading);
        },
        EventView::Start(Kind::Paragraph) => {
            lemma_inline_run(ev, i + 1, Some(Kind::Paragraph), Style::plain());
        },
        EventView::Start(Kind::List(ordered)) => {
            lemma_list_run(ev, i + 1, ordered, 0, seq![]);
        },
        EventView::Start(Kind::BlockQuote) => {
            lemma_quote_run(ev, i + 1, seq![]);
        },
        EventView::Start(Kind::CodeBlock) => {
            lemma_raw_code_run(ev, i + 1);
        },
        EventView::Table(_) => {
            lemma_rows_run(ev, i + 1, seq![]);
        },
        _ => {},
    }
}

/// The blocks of a document from position `i` on, in document order. `None`
/// when lists nest deeper than an indent can say.
pub open spec fn blocks_run(ev: Seq<EventView>, i: int) -> Option<Seq<BlockView>>
    decreases ev.len() - i,
{
    if i < 0 || i >= ev.len() {
        Some(seq![])
    } else {
        proof {
            lemma_block_run(ev, i);
        }
        match block_run(ev, i) {
            Some(run) => match blocks_run(ev, run.1) {
                Some(rest) => Some(run.0 + rest),
                None => None,
            },
            None => None,
        }
    }
}

/// The blocks of a document.
pub open spec fn rendered(ev: Seq<EventView>) -> Option<Seq<BlockView>> {
    blocks_run(ev, 0)
}

/// Collect a block quote's inline content, from inside its opening tag.
pub fn render_quote(events: &Vec<Event>, i: &mut usize) -> (r: Vec<Element>)
    ensures
        (blocks::elements_view(r@), *final(i) as int) == quote_run(
            markdown::events_view(events@),
            *old(i) as int,
            seq![],
        ),
{
    let ghost ev = markdown::events_view(events@);
    let ghost start = *i as int;
    let mut out: Vec<Element> = Vec::new();
    assert(blocks::elements_view(out@) =~= seq![]);
    while *i < events.len()
        invariant
            start == *old(i),
            start <= *i,
            *i == start || *i <= events@.len(),
            ev == markdown::events_view(events@),
            quote_run(ev, start, seq![]) == quote_run(
                ev,
                *i as int,
                blocks::elements_view(out@),
            ),
        decreases events@.len() - *i,
    {
        let ghost at = *i as int;
        match &events[*i] {
            Event::End(Kind::BlockQuote) => {
                *i = *i + 1;
                return out;
            },
            Event::Start(Kind::Paragraph) => {
                proof {
                    lemma_inline_run(ev, at + 1, Some(Kind::Paragraph), Style::plain());
                }
                *i = *i + 1;
                if out.len() > 0 {
                    push_text(&mut out, "\n", Style::default());
                }
                push_inline(events, i, Some(Kind::Paragraph), Style::default(), &mut out);
            },
            _ => {
                proof {
                    lemma_inline_run(ev, at, None, Style::plain());
                }
                let before: usize = *i;
                push_inline(events, i, None, Style::default(), &mut out);
                if *i == before {
                    *i = *i + 1;
                }
            },
        }
    }
    out
}

/// A table cell for this content.
pub fn cell(elements: Vec<Element>) -> (r: Cell)
    ensures
        r@ == cell_of(blocks::elements_view(elements@)),
{
    let ghost view = blocks::elements_view(elements@);
    let mut raw: String = String::new();
    let mut i: usize = 0;
    assert(view.take(0) =~= Seq::<ElementView>::empty());
    while i < elements.len()
        invariant
            i <= elements@.len(),
            view == blocks::elements_view(elements@),
            forall|k: int| 0 <= k < i ==> is_plain(#[trigger] view[k]),
            raw@ == shown_text(view.take(i as int)),
        decreases elements@.len() - i,
    {
        let mut plain: bool = false;
        if let Element::Text { text, style } = &elements[i] {
            if !style.bold && !style.italic && !style.strike && !style.code {
                plain = true;
                raw.append(text.as_str());
            }
        }
        assert(plain == is_plain(view[i as int]));
        if !plain {
            return Cell::Rich(elements);
        }
        assert(view.take(i + 1).drop_last() =~= view.take(i as int));
        i = i + 1;
    }
    assert(view.take(i as int) =~= view);
    Cell::Raw(raw)
}

/// Read one table row up to (and past) the closing `end`.
pub fn read_row(events: &Vec<Event>, i: &mut usize, end: Kind) -> (r: Vec<Cell>)
    ensures
        (blocks::cells_view(r@), *final(i) as int) == row_run(
            markdown::events_view(events@),
            *old(i) as int,
            end,
            seq![],
        ),
{
    let ghost ev = markdown::events_view(events@);
    let ghost start = *i as int;
    let mut cells: Vec<Cell> = Vec::new();
    assert(blocks::cells_view(cells@) =~= seq![]);
    while *i < events.len()
        invariant
            start == *old(i),
            start <= *i,
            *i == start || *i <= events@.len(),
            ev == markdown::events_view(events@),
            row_run(ev, start, end, seq![]) == row_run(
                ev,
                *i as int,
                end,
                blocks::cells_view(cells@),
            ),
        decreases events@.len() - *i,
    {
        let ghost at = *i as int;
        match &events[*i] {
            Event::End(k) => {
                *i = *i + 1;
                if *k == end {
                    return cells;
                }
            },
            Event::Start(Kind::TableCell) => {
                proof {
                    lemma_inline_run(ev, at + 1, Some(Kind::TableCell), Style::plain());
                }
                *i = *i + 1;
                let mut elements: Vec<Element> = Vec::new();
                assert(blocks::elements_view(elements@) =~= seq![]);
                push_inline(events, i, Some(Kind::TableCell), Style::default(), &mut elements);
                assert(blocks::elements_view(elements@) =~= inline_run(
                    ev,
                    at + 1,
                    Some(Kind::TableCell),
                    Style::plain(),
                ).0);
                let ghost before = blocks::cells_view(cells@);
                let one = cell(elements);
                cells.push(one);
                assert(blocks::cells_view(cells@) =~= before.push(one@));
            },
            _ => {
                *i = *i + 1;
            },
        }
    }
    cells
}

/// Read a table's rows, from inside its opening tag.
fn read_rows(events: &Vec<Event>, i: &mut usize) -> (r: Vec<Vec<Cell>>)
    ensures
        (blocks::rows_view(r@), *final(i) as int) == rows_run(
            markdown::events_view(events@),
            *old(i) as int,
            seq![],
        ),
{
    let ghost ev = markdown::events_view(events@);
    let ghost start = *i as int;
    let mut rows: Vec<Vec<Cell>> = Vec::new();
    assert(blocks::rows_view(rows@) =~= seq![]);
    while *i < events.len()
        invariant
            start == *old(i),
            start <= *i,
            *i == start || *i <= events@.len(),
            ev == markdown::events_view(events@),
            rows_run(ev, start, seq![]) == rows_run(ev, *i as int, blocks::rows_view(rows@)),
        decreases events@.len() - *i,
    {
        let ghost at = *i as int;
        let ghost before = blocks::rows_view(rows@);
        match &events[*i] {
            Event::End(Kind::Table) => {
                *i = *i + 1;
                return rows;
            },
            Event::Start(Kind::TableHead) => {
                proof {
                    lemma_row_run(ev, at + 1, Kind::TableHead, seq![]);
                }
                *i = *i + 1;
                let row = read_row(events, i, Kind::TableHead);
                rows.push(row);
                assert(blocks::rows_view(rows@) =~= before.push(blocks::cells_view(row@)));
            },
            Event::Start(Kind::TableRow) => {
                proof {
                    lemma_row_run(ev, at + 1, Kind::TableRow, seq![]);
                }
                *i = *i + 1;
                let row = read_row(events, i, Kind::TableRow);
                rows.push(row);
                assert(blocks::rows_view(rows@) =~= before.push(blocks::cells_view(row@)));
            },
            _ => {
                *i = *i + 1;
            },
        }
    }
    rows
}

/// A table block, from inside the table's opening tag. `None` for a table that
/// is empty or too large.
pub fn table(events: &Vec<Event>, i: &mut usize, columns: &Vec<Align>) -> (r: Option<Block>)
    ensures
        ({
            let run = rows_run(markdown::events_view(events@), *old(i) as int, seq![]);
            &&& *final(i) == run.1
            &&& match r {
                Some(block) => table_blocks(columns@, run.0) == seq![block@],
                None => table_blocks(columns@, run.0).len() == 0,
            }
        }),
{
    let rows = read_rows(events, i);
    if rows.len() == 0 || rows.len() > MAX_TABLE_ROWS || columns.len() > MAX_TABLE_COLS {
        return None;
    }
    let mut own: Vec<Align> = Vec::new();
    let mut k: usize = 0;
    while k < columns.len()
        invariant
            k <= columns@.len(),
            own@ == columns@.take(k as int),
        decreases columns@.len() - k,
    {
        own.push(columns[k]);
        assert(columns@.take(k + 1) =~= columns@.take(k as int).push(columns@[k as int]));
        k = k + 1;
    }
    assert(columns@.take(k as int) =~= columns@);
    Some(Block::Table { columns: own, rows })
}

/// Append a header block for a heading's text, cut to Slack's limit. Skips
/// blank headings.
pub fn push_header(out: &mut Vec<Block>, t: &str)
    ensures
        blocks::blocks_view(final(out)@) == blocks::blocks_view(old(out)@) + header_blocks(t@),
{
    let title: &str = text::trim(t);
    let n: usize = title.unicode_len();
    if n > 0 {
        let cut: &str = if n > MAX_HEADER_CHARS {
            title.substring_char(0, MAX_HEADER_CHARS)
        } else {
            title
        };
        out.push(Block::Header(cut.to_owned()));
    }
    assert(blocks::blocks_view(out@) =~= blocks::blocks_view(old(out)@) + header_blocks(t@));
}

/// Append the block, if any, that the event at `i` starts. `false` when lists
/// nest deeper than an indent can say.
fn push_block(events: &Vec<Event>, i: &mut usize, out: &mut Vec<Block>) -> (ok: bool)
    requires
        *old(i) < events@.len(),
    ensures
        match block_run(markdown::events_view(events@), *old(i) as int) {
            Some(run) => {
                &&& ok
                &&& *final(i) == run.1
                &&& blocks::blocks_view(final(out)@) == blocks::blocks_view(old(out)@) + run.0
            },
            None => !ok,
        },
{
    let ghost ev = markdown::events_view(events@);
    let ghost at = *i as int;
    let ghost so_far = blocks::blocks_view(out@);
    let event = &events[*i];
    assert(*i < events.len());
    *i = *i + 1;
    proof {
        lemma_block_run(ev, at);
    }
    match event {
        Event::Start(Kind::Heading) => {
            let title = collect_text(events, i, Kind::Heading);
            push_header(out, title.as_str());
        },
        Event::Start(Kind::Paragraph) => {
            let mut elements: Vec<Element> = Vec::new();
            assert(blocks::elements_view(elements@) =~= seq![]);
            push_inline(events, i, Some(Kind::Paragraph), Style::default(), &mut elements);
            assert(blocks::elements_view(elements@) =~= inline_run(
                ev,
                at + 1,
                Some(Kind::Paragraph),
                Style::plain(),
            ).0);
            if elements.len() > 0 {
                push_rich(out, RichText::Section(elements));
            }
        },
        Event::Start(Kind::List(ordered)) => {
            match render_list(events, i, *ordered, 0) {
                Some(parts) => {
                    if parts.len() > 0 {
                        out.push(Block::RichText(parts));
                    }
                },
                None => {
                    return false;
                },
            }
        },
        Event::Start(Kind::BlockQuote) => {
            let elements = render_quote(events, i);
            if elements.len() > 0 {
                push_rich(out, RichText::Quote(elements));
            }
        },
        Event::Start(Kind::CodeBlock) => {
            let code = collect_code(events, i);
            if code.as_str().unicode_len() > 0 {
                push_rich(out, RichText::Preformatted(code));
            }
        },
        Event::Table(columns) => {
            if let Some(block) = table(events, i, columns) {
                out.push(block);
            }
        },
        Event::Rule => {
            out.push(Block::Divider);
        },
        _ => {},
    }
    assert(blocks::blocks_view(out@) =~= so_far + block_run(ev, at).unwrap().0);
    true
}

/// Append a `rich_text` block with one part.
fn push_rich(out: &mut Vec<Block>, part: RichText)
    ensures
        blocks::blocks_view(final(out)@) == blocks::blocks_view(old(out)@) + rich_blocks(
            seq![part@],
        ),
{
    let parts = vec![part];
    assert(blocks::rich_view(parts@) =~= seq![part@]);
    out.push(Block::RichText(parts));
    assert(blocks::blocks_view(out@) =~= blocks::blocks_view(old(out)@) + rich_blocks(
        seq![part@],
    ));
}

/// Render a document's events into blocks, in document order. `None` when lists
/// nest deeper than an indent can say.
pub fn blocks_of(events: &Vec<Event>) -> (r: Option<Vec<Block>>)
    ensures
        match rendered(markdown::events_view(events@)) {
            Some(v) => r matches Some(out) && blocks::blocks_view(out@) == v,
            None => r is None,
        },
{
    let ghost ev = markdown::events_view(events@);
    let mut out: Vec<Block> = Vec::new();
    let mut i: usize = 0;
    assert(blocks::blocks_view(out@) =~= seq![]);
    proof {
        if let Some(v) = rendered(ev) {
            assert(v =~= blocks::blocks_view(out@) + v);
        }
    }
    while i < events.len()
        invariant
            i <= events@.len(),
            ev == markdown::events_view(events@),
            match rendered(ev) {
                Some(v) => blocks_run(ev, i as int) matches Some(rest) && v
                    == blocks::blocks_view(out@) + rest,
                None => blocks_run(ev, i as int) is None,
            },
        decreases events@.len() - i,
    {
        let ghost at = i as int;
        let ghost so_far = blocks::blocks_view(out@);
        proof {
            lemma_block_run(ev, at);
        }
        if !push_block(events, &mut i, &mut out) {
            return None;
        }
        proof {
            let run = block_run(ev, at)->0;
            if let Some(rest) = blocks_run(ev, run.1) {
                assert(so_far + (run.0 + rest) =~= (so_far + run.0) + rest);
            }
        }
    }
    proof {
        if let Some(v) = rendered(ev) {
            assert(blocks::blocks_view(out@) + seq![] =~= blocks::blocks_view(out@));
        }
    }
    Some(out)
}

/// The plain-text fallback for a message's `text` field: the trimmed Markdown,
/// for notifications and clients that do not render blocks.
pub fn fallback_text(markdown: &str) -> (r: String)
    ensures
        r@ == text::trimmed(markdown@),
{
    text::trim(markdown).to_owned()
}

/// Render Markdown into blocks, in document order. Blank input gives none.
pub fn to_blocks(markdown: &str) -> (r: Vec<Block>)
    requires
        rendered(markdown::document(markdown@)) is Some,
    ensures
        rendered(markdown::document(markdown@)) == Some(blocks::blocks_view(r@)),
{
    let events = markdown::read_document(markdown);
    match blocks_of(&events) {
        Some(out) => out,
        None => Vec::new(),
    }
}

/// Render Markdown whatever its lists nest like: `None` when they nest deeper
/// than an indent can say.
pub fn to_blocks_within_indent(markdown: &str) -> (r: Option<Vec<Block>>)
    ensures
        match rendered(markdown::document(markdown@)) {
            Some(v) => r matches Some(out) && blocks::blocks_view(out@) == v,
            None => r is None,
        },
{
    let events = markdown::read_document(markdown);
    match blocks_of(&events) {
        Some(_) => Some(to_blocks(markdown)),
        None => None,
    }
}

} // verus!
