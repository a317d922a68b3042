//! Layout decisions of the renderer that do not depend on the user
//! interface: when a line break goes before or after an element, how list
//! items are numbered and indented, and the state of task-list checkboxes.

use crate::matches::{byte_len, lemma_encode_utf8_concat};
use std::ops::Range;
use vstd::prelude::*;
use vstd::utf8::{encode_utf8, is_char_boundary};

verus! {

/// Newline logic is constructed by the following:
/// All elements try to insert a newline before them (if they are allowed)
/// and end their own line.
#[derive(Clone, Copy, PartialEq, Eq, Debug)]
pub struct Newline {
    /// Whether a newline should not be inserted before a widget. This is only for
    /// the first widget.
    pub should_not_start_newline_forced: bool,
    /// Whether an element should insert a newline before it
    pub should_start_newline: bool,
    /// Whether an element should end it's own line using a newline
    /// This will have to be set to false in cases such as when blocks are within
    /// a list.
    pub should_end_newline: bool,
    /// only false when the widget is the last one.
    pub should_end_newline_forced: bool,
}

impl Default for Newline {
    fn default() -> (res: Self)
        ensures
            res.should_not_start_newline_forced,
            res.should_start_newline,
            res.should_end_newline,
            res.should_end_newline_forced,
    {
        Newline {
            should_not_start_newline_forced: true,
            should_start_newline: true,
            should_end_newline: true,
            should_end_newline_forced: true,
        }
    }
}

impl Newline {
    pub open spec fn spec_can_insert_end(&self) -> bool {
        self.should_end_newline && self.should_end_newline_forced
    }

    pub open spec fn spec_can_insert_start(&self) -> bool {
        self.should_start_newline && !self.should_not_start_newline_forced
    }

    /// Whether an element may end its own line.
    pub fn can_insert_end(&self) -> (res: bool)
        ensures
            res == self.spec_can_insert_end(),
    {
        self.should_end_newline && self.should_end_newline_forced
    }

    /// Whether an element may start on a new line.
    pub fn can_insert_start(&self) -> (res: bool)
        ensures
            res == self.spec_can_insert_start(),
    {
        self.should_start_newline && !self.should_not_start_newline_forced
    }

    /// Whether a newline goes before the next element: the caller draws one
    /// when this is `true`.
    pub fn try_insert_start(&self) -> (res: bool)
        ensures
            res == self.spec_can_insert_start(),
    {
        self.can_insert_start()
    }

    /// Whether a newline ends the current element: the caller draws one
    /// when this is `true`.
    pub fn try_insert_end(&self) -> (res: bool)
        ensures
            res == self.spec_can_insert_end(),
    {
        self.can_insert_end()
    }
}

/// One nesting level of a list: numbered lists carry the number of their
/// next item.
#[derive(Clone, Copy, PartialEq, Eq, Debug)]
pub struct ListLevel {
    pub current_number: Option<u64>,
}

/// The nesting of the lists that the renderer is inside.
#[derive(PartialEq, Eq, Debug)]
pub struct List {
    pub items: Vec<ListLevel>,
    pub has_list_begun: bool,
}

/// The marker drawn in front of a list item.
#[derive(Clone, Copy, PartialEq, Eq, Debug)]
pub enum ItemMarker {
    /// A number followed by a dot.
    Number(u64),
    /// A hollow bullet, for nested unnumbered lists.
    HollowBullet,
    /// A filled bullet, for top-level unnumbered lists.
    Bullet,
}

/// What the renderer draws when a list item starts.
#[derive(Clone, Copy, PartialEq, Eq, Debug)]
pub struct ListItemStart {
    /// Whether a newline goes first (every item but the first of the list).
    pub newline: bool,
    /// How many spaces indent the marker.
    pub indent: usize,
    /// The marker itself.
    pub marker: ItemMarker,
}

impl Default for List {
    fn default() -> (res: Self)
        ensures
            res.items@.len() == 0,
            !res.has_list_begun,
    {
        List { items: Vec::new(), has_list_begun: false }
    }
}

/// What is drawn when an item of the innermost of the lists `levels`
/// starts: a newline unless it is the list's first item, an indentation of
/// `indentation_spaces` per enclosing list, and the item's number or a
/// bullet, hollow when the list is nested.
pub open spec fn item_start(
    levels: Seq<Option<u64>>,
    has_list_begun: bool,
    indentation_spaces: usize,
) -> ListItemStart {
    ListItemStart {
        newline: has_list_begun,
        indent: ((levels.len() - 1) * indentation_spaces) as usize,
        marker: match levels.last() {
            Some(n) => ItemMarker::Number(n),
            None => if levels.len() > 1 {
                ItemMarker::HollowBullet
            } else {
                ItemMarker::Bullet
            },
        },
    }
}

/// The lists after an item of the innermost one started: its next item
/// carries the next number.
pub open spec fn advance_item(levels: Seq<Option<u64>>) -> Seq<Option<u64>> {
    levels.update(
        levels.len() - 1,
        match levels.last() {
            Some(n) => Some((n + 1) as u64),
            None => None,
        },
    )
}

impl List {
    pub open spec fn levels(&self) -> Seq<Option<u64>> {
        self.items@.map_values(|l: ListLevel| l.current_number)
    }

    /// Enters a numbered list whose first item carries `start_number`.
    pub fn start_level_with_number(&mut self, start_number: u64)
        ensures
            final(self).levels() == old(self).levels().push(Some(start_number)),
            final(self).has_list_begun == old(self).has_list_begun,
    {
        self.items.push(ListLevel { current_number: Some(start_number) });
        assert(self.levels() =~= old(self).levels().push(Some(start_number)));
    }

    /// Enters an unnumbered list.
    pub fn start_level_without_number(&mut self)
        ensures
            final(self).levels() == old(self).levels().push(None),
            final(self).has_list_begun == old(self).has_list_begun,
    {
        self.items.push(ListLevel { current_number: None });
        assert(self.levels() =~= old(self).levels().push(None));
    }

    /// Whether the renderer is inside at least one list.
    pub fn is_inside_a_list(&self) -> (res: bool)
        ensures
            res == (self.levels().len() > 0),
    {
        self.items.len() != 0
    }

    /// Whether exactly one list is open: ending it leaves all lists.
    pub fn is_last_level(&self) -> (res: bool)
        ensures
            res == (self.levels().len() == 1),
    {
        self.items.len() == 1
    }

    /// Starts an item of the innermost list: decides the newline before it,
    /// the indentation and the marker, and advances the list's number.
    pub fn start_item(&mut self, indentation_spaces: usize) -> (res: ListItemStart)
        requires
            old(self).levels().len() > 0,
            (old(self).levels().len() - 1) * indentation_spaces <= usize::MAX,
            old(self).levels().last() != Some(u64::MAX),
        ensures
            res == item_start(old(self).levels(), old(self).has_list_begun, indentation_spaces),
            final(self).has_list_begun,
            final(self).levels() == advance_item(old(self).levels()),
    {
        let newline = self.has_list_begun;
        self.has_list_begun = true;
        let len = self.items.len();
        let last = len - 1;
        assert(self.levels()[last as int] == self.items@[last as int].current_number);
        let indent = last * indentation_spaces;
        let marker = match self.items[last].current_number {
            Some(n) => {
                self.items.set(last, ListLevel { current_number: Some(n + 1) });
                ItemMarker::Number(n)
            },
            None => {
                if len > 1 {
                    ItemMarker::HollowBullet
                } else {
                    ItemMarker::Bullet
                }
            },
        };
        assert(self.levels() =~= advance_item(old(self).levels()));
        ListItemStart { newline, indent, marker }
    }

    /// Leaves the innermost list. Returns whether a newline ends it: only
    /// when the outermost list ends and `insert_newline` allows one.
    pub fn end_level(&mut self, insert_newline: bool) -> (res: bool)
        ensures
            final(self).levels() == (if old(self).levels().len() > 0 {
                old(self).levels().drop_last()
            } else {
                old(self).levels()
            }),
            final(self).has_list_begun == old(self).has_list_begun,
            res == (final(self).levels().len() == 0 && insert_newline),
    {
        let _ = self.items.pop();
        assert(self.levels() =~= (if old(self).levels().len() > 0 {
            old(self).levels().drop_last()
        } else {
            old(self).levels()
        }));
        self.items.len() == 0 && insert_newline
    }
}

/// A checkbox that shows a task-list marker without letting the user change
/// it.
pub struct ImmutableCheckbox<'a> {
    checked: &'a mut bool,
}

impl<'a> ImmutableCheckbox<'a> {
    pub closed spec fn spec_checked(&self) -> bool {
        *self.checked
    }

    /// A checkbox without a label, showing `checked`.
    pub fn without_text(checked: &'a mut bool) -> (res: Self)
        ensures
            res.spec_checked() == *old(checked),
    {
        ImmutableCheckbox { checked }
    }

    /// Whether the check mark is drawn.
    pub fn is_checked(&self) -> (res: bool)
        ensures
            res == self.spec_checked(),
    {
        *self.checked
    }
}

/// A checkbox for task-list markers, as the first version of the viewer
/// drew them.
pub struct Checkbox<'a> {
    checked: &'a mut bool,
}

impl<'a> Checkbox<'a> {
    pub closed spec fn spec_checked(&self) -> bool {
        *self.checked
    }

    /// A checkbox without a label, showing `checked`.
    pub fn without_text(checked: &'a mut bool) -> (res: Self)
        ensures
            res.spec_checked() == *old(checked),
    {
        Checkbox { checked }
    }

    /// Whether the check mark is drawn.
    pub fn is_checked(&self) -> (res: bool)
        ensures
            res == self.spec_checked(),
    {
        *self.checked
    }
}

/// The text of a task-list marker: `[x]` when checked, `[ ]` otherwise.
pub open spec fn task_marker(checked: bool) -> Seq<char> {
    if checked {
        seq!['[', 'x', ']']
    } else {
        seq!['[', ' ', ']']
    }
}

/// Writes the task-list marker for `checked` over the bytes `span` of
/// `text`, as a checkbox clicked in the viewer changes the source.
pub fn set_task_marker(text: &mut String, span: Range<usize>, checked: bool)
    requires
        span.start <= span.end <= byte_len(old(text)@),
        is_char_boundary(encode_utf8(old(text)@), span.start as int),
        is_char_boundary(encode_utf8(old(text)@), span.end as int),
    ensures
        encode_utf8(final(text)@) == encode_utf8(old(text)@).subrange(0, span.start as int)
            + encode_utf8(task_marker(checked)) + encode_utf8(old(text)@).subrange(
            span.end as int,
            byte_len(old(text)@) as int,
        ),
{
    let ghost bytes = encode_utf8(text@);
    let s = text.as_str();
    proof {
        vstd::utf8::encode_utf8_valid_utf8(text@);
        vstd::utf8::valid_utf8_split(bytes, span.start as int);
    }
    let (before, rest) = s.split_at(span.start);
    let mid = span.end - span.start;
    proof {
        let rb = encode_utf8(rest@);
        assert(rb =~= bytes.subrange(span.start as int, bytes.len() as int));
        if span.end as int == bytes.len() {
            vstd::utf8::is_char_boundary_start_end_of_seq(rb);
        } else if mid > 0 {
            vstd::utf8::is_char_boundary_iff_not_is_continuation_byte(bytes, span.end as int);
            vstd::utf8::is_char_boundary_iff_not_is_continuation_byte(rb, mid as int);
            assert(rb[mid as int] == bytes[span.end as int]);
        }
    }
    let (_, after) = rest.split_at(mid);
    let mut out = String::from_str(before);
    if checked {
        proof {
            reveal_strlit("[x]");
        }
        out.append("[x]");
    } else {
        proof {
            reveal_strlit("[ ]");
        }
        out.append("[ ]");
    }
    let ghost marked = out@;
    out.append(after);
    proof {
        assert(marked == before@ + task_marker(checked));
        lemma_encode_utf8_concat(before@, task_marker(checked));
        lemma_encode_utf8_concat(marked, after@);
        assert(encode_utf8(after@) =~= bytes.subrange(span.end as int, bytes.len() as int));
    }
    *text = out;
}

} // verus!
