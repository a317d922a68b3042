//! Properties that span several operations of the library.

use crate::blocks::{runs_byte_len, StyledText};
use crate::matches::{byte_len, lemma_byte_len_concat};
use crate::misc::{retry_step, stepped_match, sync_gate, CommonMarkCache, MAX_SCROLL_RETRIES};
use crate::render::{
    end_line, end_style, start_levels, start_line, start_style, text_done, CommonMarkViewerInternal,
    EndTag, StartTag, TextRun, spec_split_point_span,
};
use crate::blocks::Style;
use crate::alerts::AlertBundle;
use crate::matches::{spec_collect_search_ranges, RegexSpec};
use crate::pulldown::{
    spec_markdown_events, spec_md_event, spec_md_events, spec_render_events, RenderEvent,
    SEARCH_PARSER_OPTIONS,
};
use crate::elements::{advance_item, item_start, ItemMarker, Newline};
use std::ops::Range;
use vstd::prelude::*;

verus! {

/// Stepping `delta` matches from match `i` and then `delta` matches back
/// lands on match `i` again.
pub proof fn lemma_go_to_match_round_trip(len: int, i: usize, delta: int)
    requires
        0 <= i < len <= usize::MAX,
    ensures
        stepped_match(Some(stepped_match(Some(i), len, delta) as usize), len, -delta) == i,
{
    let m = (i + delta) % len;
    let q = (i + delta) / len;
    vstd::arithmetic::div_mod::lemma_fundamental_div_mod(i + delta, len);
    assert(0 <= m < len);
    assert(m - delta == len * (-q) + i) by (nonlinear_arith)
        requires
            i + delta == len * q + m,
    ;
    vstd::arithmetic::div_mod::lemma_mod_multiples_vanish(-q, i as int, len);
    vstd::arithmetic::div_mod::lemma_small_mod(i as nat, len as nat);
    assert((m as usize) as int == m);
}

/// Stepping as many matches as there are, either way, comes back to the
/// same match.
pub proof fn lemma_go_to_match_full_turn(len: int, i: usize)
    requires
        0 <= i < len,
    ensures
        stepped_match(Some(i), len, len) == i,
        stepped_match(Some(i), len, -len) == i,
{
    vstd::arithmetic::div_mod::lemma_mod_add_multiples_vanish(i as int, len);
    vstd::arithmetic::div_mod::lemma_mod_sub_multiples_vanish(i as int, len);
    vstd::arithmetic::div_mod::lemma_small_mod(i as nat, len as nat);
}

/// How many of `n` consecutive retries are granted, starting with
/// `retries` retries already made.
pub open spec fn retries_granted(retries: u8, n: nat) -> nat
    decreases n,
{
    if n == 0 {
        0
    } else {
        let (ok, next) = retry_step(retries);
        (if ok {
            1nat
        } else {
            0nat
        }) + retries_granted(next, (n - 1) as nat)
    }
}

proof fn lemma_retries_granted_from(retries: u8, n: nat)
    requires
        retries <= MAX_SCROLL_RETRIES,
    ensures
        retries_granted(retries, n) == (if n <= MAX_SCROLL_RETRIES - retries {
            n
        } else {
            (MAX_SCROLL_RETRIES - retries) as nat
        }),
    decreases n,
{
    if n > 0 {
        let (ok, next) = retry_step(retries);
        lemma_retries_granted_from(next, (n - 1) as nat);
    }
}

/// After a scroll to the active match is requested (which resets the
/// retries), at most `MAX_SCROLL_RETRIES` retries are granted however many
/// frames retry it: of `n` retries, the first `MAX_SCROLL_RETRIES` are.
pub proof fn lemma_retry_budget(n: nat)
    ensures
        retries_granted(0, n) == (if n <= MAX_SCROLL_RETRIES as nat {
            n
        } else {
            MAX_SCROLL_RETRIES as nat
        }),
{
    lemma_retries_granted_from(0, n);
}

/// Whether the active match may move in any of `n` frames without user
/// scrolling, starting with `protection` protected frames and the lock
/// `locked`.
pub open spec fn may_move_within(protection: u32, locked: bool, n: nat) -> bool
    decreases n,
{
    if n == 0 {
        false
    } else {
        let (p, l, may) = sync_gate(protection, locked, false);
        may || may_move_within(p, l, (n - 1) as nat)
    }
}

/// A search-initiated scroll protected for `protection` frames keeps the
/// active match in place for that many frames, as long as the user does
/// not scroll.
pub proof fn lemma_protection_holds(protection: u32, locked: bool, n: nat)
    requires
        n <= protection,
    ensures
        !may_move_within(protection, locked, n),
    decreases n,
{
    if n > 0 {
        let (p, l, may) = sync_gate(protection, locked, false);
        lemma_protection_holds(p, l, (n - 1) as nat);
    }
}

/// Once a step to a match has locked it, the active match stays in place
/// for any number of frames until the user scrolls.
pub proof fn lemma_lock_holds(protection: u32, n: nat)
    ensures
        !may_move_within(protection, true, n),
    decreases n,
{
    if n > 0 {
        let (p, l, may) = sync_gate(protection, true, false);
        lemma_lock_holds(p, (n - 1) as nat);
    }
}

/// Without a lock the protection expires: within one frame more than it
/// protects, the active match may move again.
pub proof fn lemma_protection_expires(protection: u32)
    ensures
        may_move_within(protection, false, protection as nat + 1),
    decreases protection,
{
    if protection > 0 {
        let (p, l, may) = sync_gate(protection, false, false);
        lemma_protection_expires(p);
    }
}

/// The end tag that closes what `tag` opens, for the tags that toggle the
/// text style.
pub open spec fn closing_style_tag(tag: &StartTag) -> Option<EndTag> {
    match tag {
        StartTag::Heading { .. } => Some(EndTag::Heading),
        StartTag::Emphasis => Some(EndTag::Emphasis),
        StartTag::Strong => Some(EndTag::Strong),
        StartTag::Strikethrough => Some(EndTag::Strikethrough),
        _ => None,
    }
}

/// Whether the style that `tag` turns on is off in `s`.
pub open spec fn style_off_for(s: Style, tag: &StartTag) -> bool {
    match tag {
        StartTag::Heading { .. } => s.heading is None,
        StartTag::Emphasis => !s.emphasis,
        StartTag::Strong => !s.strong,
        StartTag::Strikethrough => !s.strikethrough,
        _ => true,
    }
}

/// Ending a heading, emphasis, strong or strikethrough element gives back
/// the style that was in force before it started, when that style did not
/// have it on already.
pub proof fn lemma_style_round_trip(s: Style, tag: StartTag)
    requires
        closing_style_tag(&tag) is Some,
        style_off_for(s, &tag),
    ensures
        end_style(start_style(s, &tag), closing_style_tag(&tag)->0) == s,
{
}

/// Entering a list and leaving it again gives back the enclosing lists;
/// for the outermost list, the line state comes back too when blocks were
/// allowed to start and end lines before it.
pub proof fn lemma_list_round_trip(levels: Seq<Option<u64>>, line: Newline, start: Option<u64>)
    ensures
        start_levels(levels, &StartTag::List { start }).drop_last() == levels,
        levels.len() == 0 && line.should_start_newline && line.should_end_newline ==> end_line(
            start_line(line, &StartTag::List { start }),
            EndTag::List,
            start_levels(levels, &StartTag::List { start }),
        ) == line,
{
    assert(levels.push(start).drop_last() =~= levels);
}

/// The chunks lie one after the other from byte 0 to byte `total`.
pub open spec fn chunks_tile(chunks: Seq<(Range<usize>, Range<usize>)>, total: int) -> bool {
    &&& chunks.len() == 0 ==> total == 0
    &&& chunks.len() > 0 ==> chunks[0].0.start == 0 && chunks.last().0.end == total
    &&& forall|k: int| 0 <= k < chunks.len() ==> (#[trigger] chunks[k]).0.start <= chunks[k].0.end
    &&& forall|k: int|
        0 <= k < chunks.len() - 1 ==> (#[trigger] chunks[k]).0.end == chunks[k + 1].0.start
}

/// Appending text to a code block keeps its chunks lying one after the
/// other over its whole content.
pub proof fn lemma_code_block_chunks_tile(
    content: Seq<char>,
    chunks: Seq<(Range<usize>, Range<usize>)>,
    text: Seq<char>,
    span: Range<usize>,
)
    requires
        chunks_tile(chunks, byte_len(content) as int),
        byte_len(content) + byte_len(text) <= usize::MAX,
    ensures
        chunks_tile(
            chunks.push(
                (
                    Range {
                        start: byte_len(content) as usize,
                        end: (byte_len(content) + byte_len(text)) as usize,
                    },
                    span,
                ),
            ),
            byte_len(content + text) as int,
        ),
{
    lemma_byte_len_concat(content, text);
    let c2 = chunks.push(
        (
            Range {
                start: byte_len(content) as usize,
                end: (byte_len(content) + byte_len(text)) as usize,
            },
            span,
        ),
    );
    assert forall|k: int| 0 <= k < c2.len() - 1 implies (#[trigger] c2[k]).0.end == c2[k + 1].0.start by {
        if k < chunks.len() - 1 {
            assert(c2[k] == chunks[k]);
            assert(c2[k + 1] == chunks[k + 1]);
        }
    }
    assert forall|k: int| 0 <= k < c2.len() implies (#[trigger] c2[k]).0.start <= c2[k].0.end by {
        if k < chunks.len() {
            assert(c2[k] == chunks[k]);
        }
    }
}

/// Appending a run to a link's text keeps its chunks lying one after the
/// other over the whole text.
pub proof fn lemma_link_chunks_tile(
    runs: Seq<StyledText>,
    chunks: Seq<(Range<usize>, Range<usize>)>,
    run: StyledText,
    span: Range<usize>,
)
    requires
        chunks_tile(chunks, runs_byte_len(runs) as int),
        runs_byte_len(runs) + byte_len(run.text@) <= usize::MAX,
    ensures
        chunks_tile(
            chunks.push(
                (
                    Range {
                        start: runs_byte_len(runs) as usize,
                        end: (runs_byte_len(runs) + byte_len(run.text@)) as usize,
                    },
                    span,
                ),
            ),
            runs_byte_len(runs.push(run)) as int,
        ),
{
    assert(runs.push(run).drop_last() =~= runs);
    let c2 = chunks.push(
        (
            Range {
                start: runs_byte_len(runs) as usize,
                end: (runs_byte_len(runs) + byte_len(run.text@)) as usize,
            },
            span,
        ),
    );
    assert forall|k: int| 0 <= k < c2.len() - 1 implies (#[trigger] c2[k]).0.end == c2[k + 1].0.start by {
        if k < chunks.len() - 1 {
            assert(c2[k] == chunks[k]);
            assert(c2[k + 1] == chunks[k + 1]);
        }
    }
    assert forall|k: int| 0 <= k < c2.len() implies (#[trigger] c2[k]).0.start <= c2[k].0.end by {
        if k < chunks.len() {
            assert(c2[k] == chunks[k]);
        }
    }
}

/// The lists `levels` after `n` items of the innermost one have started.
pub open spec fn after_items(levels: Seq<Option<u64>>, n: nat) -> Seq<Option<u64>>
    decreases n,
{
    if n == 0 {
        levels
    } else {
        advance_item(after_items(levels, (n - 1) as nat))
    }
}

proof fn lemma_after_items_shape(levels: Seq<Option<u64>>, start: u64, n: nat)
    requires
        start + n <= u64::MAX,
    ensures
        after_items(levels.push(Some(start)), n).len() == levels.len() + 1,
        after_items(levels.push(Some(start)), n).last() == Some((start + n) as u64),
        after_items(levels.push(Some(start)), n).drop_last() == levels,
    decreases n,
{
    if n == 0 {
        assert(levels.push(Some(start)).drop_last() =~= levels);
    } else {
        lemma_after_items_shape(levels, start, (n - 1) as nat);
        let prev = after_items(levels.push(Some(start)), (n - 1) as nat);
        assert(advance_item(prev).drop_last() =~= prev.drop_last());
    }
}

/// A numbered list counts up from its start: after `n` items, the next
/// item of a list that started at `start` is numbered `start + n`, and the
/// enclosing lists are untouched.
pub proof fn lemma_list_numbering(
    levels: Seq<Option<u64>>,
    start: u64,
    n: nat,
    has_list_begun: bool,
    indentation_spaces: usize,
)
    requires
        start + n <= u64::MAX,
    ensures
        item_start(after_items(levels.push(Some(start)), n), has_list_begun, indentation_spaces).marker
            == ItemMarker::Number((start + n) as u64),
        after_items(levels.push(Some(start)), n).drop_last() == levels,
{
    lemma_after_items_shape(levels, start, n);
}

/// Search matches never change what is drawn, only how it is highlighted:
/// whatever the matches, a text event is drawn as a run in both cases or
/// in neither, in the same style, and is gathered into the same image,
/// code block or link.
pub proof fn lemma_matches_do_not_change_widgets(
    s0: CommonMarkViewerInternal,
    s1: CommonMarkViewerInternal,
    s2: CommonMarkViewerInternal,
    style: Style,
    text: String,
    span: Range<usize>,
    ranges1: Seq<Range<usize>>,
    active1: Option<&Range<usize>>,
    res1: Option<TextRun>,
    ranges2: Seq<Range<usize>>,
    active2: Option<&Range<usize>>,
    res2: Option<TextRun>,
)
    requires
        text_done(&s0, &s1, style, text, span, ranges1, active1, &res1),
        text_done(&s0, &s2, style, text, span, ranges2, active2, &res2),
    ensures
        res1 is Some <==> res2 is Some,
        res1 matches Some(a) ==> (res2 matches Some(b) && a.style == b.style),
        s1.image is Some <==> s2.image is Some,
        s1.image matches Some(i) ==> (s2.image matches Some(j) && i.uri == j.uri && i.alt_text@
            == j.alt_text@ && i.alt_src_spans@ == j.alt_src_spans@),
        s1.code_block is Some <==> s2.code_block is Some,
        s1.code_block matches Some(b) ==> (s2.code_block matches Some(c) && b.lang == c.lang
            && b.content@ == c.content@ && b.chunks@ == c.chunks@),
        s1.link is Some <==> s2.link is Some,
        s1.link matches Some(l) ==> (s2.link matches Some(m) && l.destination == m.destination
            && l.text@ == m.text@ && l.chunks@ == m.chunks@),
        s1.line == s2.line,
        s1.list == s2.list,
{
}


/// One change to the open lists, as the list operations make it: entering
/// a list (with the number of its first item when it is numbered),
/// starting an item of the innermost list, or leaving the innermost list.
pub enum ListOp {
    Enter(Option<u64>),
    Item,
    Leave,
}

/// The open lists after `op`, as the list operations' contracts state it.
pub open spec fn apply_list_op(levels: Seq<Option<u64>>, op: ListOp) -> Seq<Option<u64>> {
    match op {
        ListOp::Enter(n) => levels.push(n),
        ListOp::Item => if levels.len() > 0 {
            advance_item(levels)
        } else {
            levels
        },
        ListOp::Leave => if levels.len() > 0 {
            levels.drop_last()
        } else {
            levels
        },
    }
}

/// The open lists after the operations `ops`, one after the other.
pub open spec fn apply_list_ops(levels: Seq<Option<u64>>, ops: Seq<ListOp>) -> Seq<Option<u64>>
    decreases ops.len(),
{
    if ops.len() == 0 {
        levels
    } else {
        apply_list_op(apply_list_ops(levels, ops.drop_last()), ops.last())
    }
}

/// How many of `ops` enter a list.
pub open spec fn lists_entered(ops: Seq<ListOp>) -> nat
    decreases ops.len(),
{
    if ops.len() == 0 {
        0
    } else {
        lists_entered(ops.drop_last()) + if ops.last() is Enter {
            1nat
        } else {
            0nat
        }
    }
}

/// How many of `ops` leave a list.
pub open spec fn lists_left(ops: Seq<ListOp>) -> nat
    decreases ops.len(),
{
    if ops.len() == 0 {
        0
    } else {
        lists_left(ops.drop_last()) + if ops.last() is Leave {
            1nat
        } else {
            0nat
        }
    }
}

/// Starting with no open list, after any operations of which no prefix
/// leaves more lists than it entered, as many lists are open as were
/// entered and not left; so the renderer is inside a list exactly when
/// more lists were entered than left.
pub proof fn lemma_list_depth(ops: Seq<ListOp>)
    requires
        forall|k: int| 0 <= k <= ops.len() ==> lists_left(#[trigger] ops.take(k)) <= lists_entered(
            ops.take(k),
        ),
    ensures
        apply_list_ops(Seq::empty(), ops).len() == lists_entered(ops) - lists_left(ops),
        (apply_list_ops(Seq::empty(), ops).len() > 0) == (lists_entered(ops) > lists_left(ops)),
    decreases ops.len(),
{
    if ops.len() > 0 {
        let prev = ops.drop_last();
        assert(ops.take(ops.len() as int) =~= ops);
        assert forall|k: int| 0 <= k <= prev.len() implies lists_left(#[trigger] prev.take(k))
            <= lists_entered(prev.take(k)) by {
            assert(prev.take(k) =~= ops.take(k));
        }
        lemma_list_depth(prev);
        assert(ops.take(prev.len() as int) =~= prev);
    }
}

/// Frame `i` of a run of [`sync_active_match`](CommonMarkCache::sync_active_match)
/// calls without user scrolling: `states[i + 1]` is what the call made of
/// `states[i]`, given `nearest[i]` and `in_viewport[i]`.
pub open spec fn unscrolled_frame(
    states: Seq<CommonMarkCache>,
    nearest: Seq<Option<usize>>,
    in_viewport: Seq<bool>,
    i: int,
) -> bool {
    states[i + 1].synced_by(&states[i], false, nearest[i], in_viewport[i])
}

/// Once [`go_to_match`](CommonMarkCache::go_to_match) has chosen a match,
/// every later call of `sync_active_match` without user scrolling leaves
/// the active match and its range as they were, whatever the viewport
/// says: the explicit choice holds until the user scrolls.
pub proof fn lemma_choice_holds_until_scroll(
    states: Seq<CommonMarkCache>,
    nearest: Seq<Option<usize>>,
    in_viewport: Seq<bool>,
)
    requires
        states.len() == nearest.len() + 1,
        nearest.len() == in_viewport.len(),
        states[0].spec_go_to_match_locked(),
        forall|i: int|
            0 <= i < nearest.len() ==> #[trigger] unscrolled_frame(states, nearest, in_viewport, i),
    ensures
        forall|i: int|
            0 <= i < states.len() ==> {
                &&& (#[trigger] states[i]).spec_go_to_match_locked()
                &&& states[i].spec_active_match() == states[0].spec_active_match()
                &&& states[i].spec_active_search_range() == states[0].spec_active_search_range()
            },
    decreases nearest.len(),
{
    if nearest.len() > 0 {
        let n = nearest.len() - 1;
        let s2 = states.drop_last();
        let n2 = nearest.drop_last();
        let v2 = in_viewport.drop_last();
        assert forall|i: int| 0 <= i < n2.len() implies #[trigger] unscrolled_frame(
            s2,
            n2,
            v2,
            i,
        ) by {
            assert(unscrolled_frame(states, nearest, in_viewport, i));
        }
        lemma_choice_holds_until_scroll(s2, n2, v2);
        assert(unscrolled_frame(states, nearest, in_viewport, n));
        assert(s2[n] == states[n]);
        assert forall|i: int| 0 <= i < states.len() implies {
            &&& (#[trigger] states[i]).spec_go_to_match_locked()
            &&& states[i].spec_active_match() == states[0].spec_active_match()
            &&& states[i].spec_active_search_range() == states[0].spec_active_search_range()
        } by {
            if i < states.len() - 1 {
                assert(s2[i] == states[i]);
            }
        }
    }
}

/// Whether two renderer events differ at most in what is not rendered as
/// text: the destination of a link or an image, the id of a heading.
pub open spec fn differ_in_hidden_parts(a: RenderEvent, b: RenderEvent) -> bool {
    match (a, b) {
        (RenderEvent::Start(StartTag::Link { .. }), RenderEvent::Start(StartTag::Link { .. })) => true,
        (RenderEvent::Start(StartTag::Image { .. }), RenderEvent::Start(StartTag::Image { .. })) => true,
        (
            RenderEvent::Start(StartTag::Heading { level: l, .. }),
            RenderEvent::Start(StartTag::Heading { level: m, .. }),
        ) => l == m,
        _ => a == b,
    }
}

/// The search reads only the rendered text: two texts whose parses have
/// the same events at the same places, but for link and image
/// destinations and heading ids, get the same search ranges.
pub proof fn lemma_search_ignores_hidden_parts(
    text_a: Seq<char>,
    text_b: Seq<char>,
    re: RegexSpec,
    alerts: &AlertBundle,
)
    requires
        spec_render_events(text_a, SEARCH_PARSER_OPTIONS).len() == spec_render_events(
            text_b,
            SEARCH_PARSER_OPTIONS,
        ).len(),
        forall|i: int|
            0 <= i < spec_render_events(text_a, SEARCH_PARSER_OPTIONS).len() ==> {
                let ea = #[trigger] spec_render_events(text_a, SEARCH_PARSER_OPTIONS)[i];
                let eb = spec_render_events(text_b, SEARCH_PARSER_OPTIONS)[i];
                ea.1 == eb.1 && differ_in_hidden_parts(ea.0, eb.0)
            },
    ensures
        spec_collect_search_ranges(spec_markdown_events(text_a, SEARCH_PARSER_OPTIONS), re, alerts)
            == spec_collect_search_ranges(
            spec_markdown_events(text_b, SEARCH_PARSER_OPTIONS),
            re,
            alerts,
        ),
{
    let a = spec_render_events(text_a, SEARCH_PARSER_OPTIONS);
    let b = spec_render_events(text_b, SEARCH_PARSER_OPTIONS);
    assert forall|i: int| 0 <= i < a.len() implies spec_md_event(a[i].0) == spec_md_event(
        b[i].0,
    ) by {
        assert(a[i].1 == b[i].1 && differ_in_hidden_parts(a[i].0, b[i].0));
    }
    assert(spec_md_events(a) =~= spec_md_events(b));
}

/// The split points after the end of a block has been reached at event
/// `step.0`, the block running from `step.1` (if a start was seen) to
/// `step.2`: a point with the span that [`split_point_span`] gives is
/// added, unless one is recorded for that event already.
pub open spec fn record_split_point(
    points: Seq<(usize, Range<usize>)>,
    step: (usize, Option<usize>, usize),
) -> Seq<(usize, Range<usize>)> {
    let indices = points.map_values(|p: (usize, Range<usize>)| p.0);
    match spec_split_point_span(indices, step.0, step.1, step.2) {
        Some(span) => points.push((step.0, span)),
        None => points,
    }
}

/// The split points after the block ends `steps` of a render pass.
pub open spec fn record_split_points(
    points: Seq<(usize, Range<usize>)>,
    steps: Seq<(usize, Option<usize>, usize)>,
) -> Seq<(usize, Range<usize>)>
    decreases steps.len(),
{
    if steps.len() == 0 {
        points
    } else {
        record_split_point(record_split_points(points, steps.drop_last()), steps.last())
    }
}

/// No two split points are for the same event, and each span runs forward.
pub open spec fn split_points_ok(points: Seq<(usize, Range<usize>)>) -> bool {
    &&& forall|i: int, j: int|
        0 <= i < j < points.len() ==> #[trigger] points[i].0 != #[trigger] points[j].0
    &&& forall|i: int| 0 <= i < points.len() ==> (#[trigger] points[i]).1.start <= points[i].1.end
}

/// Over a render pass, split points stay one per event: recording never
/// adds a second point for an event, and where every block starts at or
/// before its end, every span recorded runs forward.
pub proof fn lemma_split_points_once_per_event(
    points: Seq<(usize, Range<usize>)>,
    steps: Seq<(usize, Option<usize>, usize)>,
)
    requires
        split_points_ok(points),
        forall|k: int|
            0 <= k < steps.len() ==> ((#[trigger] steps[k]).1 matches Some(s) ==> s <= steps[k].2),
    ensures
        split_points_ok(record_split_points(points, steps)),
    decreases steps.len(),
{
    if steps.len() > 0 {
        let prev = steps.drop_last();
        assert forall|k: int| 0 <= k < prev.len() implies ((#[trigger] prev[k]).1 matches Some(
            s,
        ) ==> s <= prev[k].2) by {
            assert(prev[k] == steps[k]);
        }
        lemma_split_points_once_per_event(points, prev);
        let before = record_split_points(points, prev);
        let step = steps.last();
        let indices = before.map_values(|p: (usize, Range<usize>)| p.0);
        if !indices.contains(step.0) {
            let after = before.push(
                (
                    step.0,
                    Range {
                        start: match step.1 {
                            Some(s) => s,
                            None => step.2,
                        },
                        end: step.2,
                    },
                ),
            );
            assert forall|i: int, j: int| 0 <= i < j < after.len() implies #[trigger] after[i].0
                != #[trigger] after[j].0 by {
                if j == before.len() {
                    assert(indices[i] == before[i].0);
                } else {
                    assert(after[i] == before[i] && after[j] == before[j]);
                }
            }
            assert(steps[steps.len() - 1] == step);
            assert forall|i: int| 0 <= i < after.len() implies (#[trigger] after[i]).1.start
                <= after[i].1.end by {
                if i < before.len() {
                    assert(after[i] == before[i]);
                }
            }
        }
    }
}

/// Each level of nesting indents an item by exactly `indentation_spaces`
/// more: an item of a top-level list is not indented, and an item of a
/// list nested one level deeper than another is indented
/// `indentation_spaces` further, so an item `d` lists deep is indented
/// `(d - 1) * indentation_spaces`.
pub proof fn lemma_nesting_indents(
    levels: Seq<Option<u64>>,
    inner: Option<u64>,
    begun: bool,
    begun_inner: bool,
    indentation_spaces: usize,
)
    requires
        levels.len() > 0,
        levels.len() * indentation_spaces <= usize::MAX,
    ensures
        item_start(seq![inner], begun, indentation_spaces).indent == 0,
        item_start(levels.push(inner), begun_inner, indentation_spaces).indent == item_start(
            levels,
            begun,
            indentation_spaces,
        ).indent + indentation_spaces,
{
    let d = levels.len() as int;
    let k = indentation_spaces as int;
    assert(0 <= (d - 1) * k <= d * k) by (nonlinear_arith)
        requires
            d >= 1,
            k >= 0,
    ;
    assert(d * k == (d - 1) * k + k) by (nonlinear_arith);
    assert(levels.push(inner).len() - 1 == d);
    assert(seq![inner].len() == 1);
    assert(0 * k == 0) by (nonlinear_arith);
}

} // verus!
