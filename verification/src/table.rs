//! Reading the text of table cells.

use crate::blocks::Style;
use crate::pulldown::{MdEvent, MdTag, SpannedEvent};
use vstd::prelude::*;

verus! {

/// The styled pieces of text of the cell events from index `i` on, drawn
/// in `style` and appended to `acc`; `None` if some event is not plain
/// inline text (text, code, inline html, a soft break, or the start or end
/// of emphasis, strong, strikethrough, a link or the table's own parts).
pub open spec fn cell_pieces_from(
    style: Style,
    events: Seq<SpannedEvent>,
    i: int,
    acc: Seq<(Style, Seq<char>)>,
) -> Option<Seq<(Style, Seq<char>)>>
    decreases events.len() - i,
{
    if i >= events.len() || i < 0 {
        Some(acc)
    } else {
        match events[i].0 {
            MdEvent::Text(t) => cell_pieces_from(style, events, i + 1, acc.push((style, t@))),
            MdEvent::InlineHtml(t) => cell_pieces_from(style, events, i + 1, acc.push((style, t@))),
            MdEvent::Code(t) => cell_pieces_from(
                style,
                events,
                i + 1,
                acc.push((Style { code: true, ..style }, t@)),
            ),
            MdEvent::SoftBreak => cell_pieces_from(style, events, i + 1, acc.push((style, seq![' ']))),
            MdEvent::Start(tag) => match tag {
                MdTag::Emphasis => cell_pieces_from(
                    Style { emphasis: true, ..style },
                    events,
                    i + 1,
                    acc,
                ),
                MdTag::Strong => cell_pieces_from(Style { strong: true, ..style }, events, i + 1, acc),
                MdTag::Strikethrough => cell_pieces_from(
                    Style { strikethrough: true, ..style },
                    events,
                    i + 1,
                    acc,
                ),
                MdTag::Link | MdTag::TableHead | MdTag::TableRow | MdTag::TableCell => cell_pieces_from(
                    style,
                    events,
                    i + 1,
                    acc,
                ),
                _ => None,
            },
            MdEvent::End(tag) => match tag {
                MdTag::Emphasis => cell_pieces_from(
                    Style { emphasis: false, ..style },
                    events,
                    i + 1,
                    acc,
                ),
                MdTag::Strong => cell_pieces_from(Style { strong: false, ..style }, events, i + 1, acc),
                MdTag::Strikethrough => cell_pieces_from(
                    Style { strikethrough: false, ..style },
                    events,
                    i + 1,
                    acc,
                ),
                MdTag::Link | MdTag::TableHead | MdTag::TableRow | MdTag::TableCell => cell_pieces_from(
                    style,
                    events,
                    i + 1,
                    acc,
                ),
                _ => None,
            },
            _ => None,
        }
    }
}

/// The pieces as styles and character sequences.
pub open spec fn pieces_view(v: Seq<(Style, String)>) -> Seq<(Style, Seq<char>)> {
    v.map_values(|p: (Style, String)| (p.0, p.1@))
}

/// Collects the inline text of a table cell with the style of each piece,
/// starting from `base_style`; `None` if the cell holds anything but plain
/// inline text.
pub fn cell_text_pieces(base_style: &Style, events: &[SpannedEvent]) -> (res: Option<
    Vec<(Style, String)>,
>)
    ensures
        match res {
            Some(v) => cell_pieces_from(*base_style, events@, 0, Seq::empty()) == Some(
                pieces_view(v@),
            ),
            None => cell_pieces_from(*base_style, events@, 0, Seq::empty()) is None,
        },
{
    let mut style = *base_style;
    let mut pieces: Vec<(Style, String)> = Vec::new();
    let mut i: usize = 0;
    assert(pieces_view(pieces@) =~= Seq::<(Style, Seq<char>)>::empty());
    while i < events.len()
        invariant
            i <= events@.len(),
            cell_pieces_from(*base_style, events@, 0, Seq::empty()) == cell_pieces_from(
                style,
                events@,
                i as int,
                pieces_view(pieces@),
            ),
        decreases events@.len() - i,
    {
        let ghost before = pieces_view(pieces@);
        match &events[i].0 {
            MdEvent::Text(t) | MdEvent::InlineHtml(t) => {
                pieces.push((style, t.clone()));
                assert(pieces_view(pieces@) =~= before.push((style, t@)));
            },
            MdEvent::Code(t) => {
                let code_style = Style { code: true, ..style };
                pieces.push((code_style, t.clone()));
                assert(pieces_view(pieces@) =~= before.push((code_style, t@)));
            },
            MdEvent::SoftBreak => {
                proof {
                    reveal_strlit(" ");
                }
                let space = String::from_str(" ");
                assert(space@ =~= seq![' ']);
                pieces.push((style, space));
                assert(pieces_view(pieces@) =~= before.push((style, seq![' '])));
            },
            MdEvent::Start(tag) => match tag {
                MdTag::Emphasis => {
                    style.emphasis = true;
                },
                MdTag::Strong => {
                    style.strong = true;
                },
                MdTag::Strikethrough => {
                    style.strikethrough = true;
                },
                MdTag::Link | MdTag::TableHead | MdTag::TableRow | MdTag::TableCell => {},
                _ => {
                    return None;
                },
            },
            MdEvent::End(tag) => match tag {
                MdTag::Emphasis => {
                    style.emphasis = false;
                },
                MdTag::Strong => {
                    style.strong = false;
                },
                MdTag::Strikethrough => {
                    style.strikethrough = false;
                },
                MdTag::Link | MdTag::TableHead | MdTag::TableRow | MdTag::TableCell => {},
                _ => {
                    return None;
                },
            },
            _ => {
                return None;
            },
        }
        i = i + 1;
    }
    Some(pieces)
}

} // verus!
