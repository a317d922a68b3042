//! Mapping global search-match byte ranges onto the runs of text that the
//! renderer draws.
//!
//! A search match is a byte range of the markdown source. Each rendered run
//! of text knows its own source span; the functions here translate the
//! global matches into intervals local to that run, so that highlighting
//! never changes which widgets are created.

use std::ops::Range;
use vstd::prelude::*;

verus! {

/// A highlight interval local to a run of text, flagged `true` when it is
/// the active (focused) match.
pub type Interval = (Range<usize>, bool);

/// `x - y` for natural numbers, stopping at zero.
pub open spec fn sat_sub(x: usize, y: usize) -> usize {
    if x >= y {
        (x - y) as usize
    } else {
        0
    }
}

pub open spec fn min_usize(x: usize, y: usize) -> usize {
    if x <= y {
        x
    } else {
        y
    }
}

/// The match `r` is non-empty and shares at least one byte with `span`.
pub open spec fn overlaps_span(r: Range<usize>, span: Range<usize>) -> bool {
    r.start < r.end && r.start < span.end && r.end > span.start
}

/// `r` is the active match.
pub open spec fn is_active_range(active: Option<&Range<usize>>, r: Range<usize>) -> bool {
    match active {
        Some(a) => a.start == r.start && a.end == r.end,
        None => false,
    }
}

/// The interval that match `r` covers in a run whose source span is `span`
/// and whose text is `text_len` bytes long, if it covers any.
pub open spec fn local_interval(
    r: Range<usize>,
    active: Option<&Range<usize>>,
    span: Range<usize>,
    text_len: usize,
) -> Option<Interval> {
    if overlaps_span(r, span) {
        let start = min_usize(sat_sub(r.start, span.start), text_len);
        let end = min_usize(sat_sub(r.end, span.start), text_len);
        if start < end {
            Some((Range { start, end }, is_active_range(active, r)))
        } else {
            None
        }
    } else {
        None
    }
}

/// The local intervals of all matches, in the order of `ranges`.
pub open spec fn local_intervals(
    ranges: Seq<Range<usize>>,
    active: Option<&Range<usize>>,
    span: Range<usize>,
    text_len: usize,
) -> Seq<Interval>
    decreases ranges.len(),
{
    if ranges.len() == 0 {
        Seq::empty()
    } else {
        let rest = local_intervals(ranges.drop_last(), active, span, text_len);
        match local_interval(ranges.last(), active, span, text_len) {
            Some(iv) => rest.push(iv),
            None => rest,
        }
    }
}

/// Inserts `x` into `s` behind every trailing element whose start is not
/// after `x`'s start: one step of a stable insertion sort by start.
pub open spec fn insert_by_start(s: Seq<Interval>, x: Interval) -> Seq<Interval>
    decreases s.len(),
{
    if s.len() == 0 {
        seq![x]
    } else if s.last().0.start <= x.0.start {
        s.push(x)
    } else {
        insert_by_start(s.drop_last(), x).push(s.last())
    }
}

/// The stable sort of `s` by interval start: equal starts keep their order.
pub open spec fn sort_by_start(s: Seq<Interval>) -> Seq<Interval>
    decreases s.len(),
{
    if s.len() == 0 {
        Seq::empty()
    } else {
        insert_by_start(sort_by_start(s.drop_last()), s.last())
    }
}

pub open spec fn sorted_by_start(s: Seq<Interval>) -> bool {
    forall|i: int, j: int| 0 <= i <= j < s.len() ==> s[i].0.start <= s[j].0.start
}

/// What [`search_intervals`] returns.
pub open spec fn spec_search_intervals(
    ranges: Seq<Range<usize>>,
    active: Option<&Range<usize>>,
    span: Range<usize>,
    text_len: usize,
) -> Seq<Interval> {
    sort_by_start(local_intervals(ranges, active, span, text_len))
}

proof fn lemma_insert_at(s: Seq<Interval>, x: Interval, j: int)
    requires
        0 <= j <= s.len(),
        forall|k: int| j <= k < s.len() ==> s[k].0.start > x.0.start,
        j > 0 ==> s[j - 1].0.start <= x.0.start,
    ensures
        insert_by_start(s, x) =~= s.take(j).push(x) + s.skip(j),
    decreases s.len(),
{
    if s.len() == 0 {
    } else if s.last().0.start <= x.0.start {
        assert(j == s.len());
    } else {
        lemma_insert_at(s.drop_last(), x, j);
    }
}

proof fn lemma_insert_len(s: Seq<Interval>, x: Interval)
    ensures
        insert_by_start(s, x).len() == s.len() + 1,
    decreases s.len(),
{
    if s.len() > 0 && s.last().0.start > x.0.start {
        lemma_insert_len(s.drop_last(), x);
    }
}

/// Inserting into a sorted sequence keeps it sorted, and keeps the
/// elements (as a multiset).
proof fn lemma_insert_sorted(s: Seq<Interval>, x: Interval)
    requires
        sorted_by_start(s),
    ensures
        sorted_by_start(insert_by_start(s, x)),
        insert_by_start(s, x).to_multiset() =~= s.to_multiset().insert(x),
    decreases s.len(),
{
    broadcast use vstd::seq_lib::group_to_multiset_ensures;

    if s.len() == 0 {
        assert(seq![x] =~= Seq::<Interval>::empty().push(x));
    } else if s.last().0.start <= x.0.start {
    } else {
        let r = insert_by_start(s.drop_last(), x);
        lemma_insert_sorted(s.drop_last(), x);
        lemma_insert_len(s.drop_last(), x);
        assert(s.drop_last().push(s.last()) =~= s);
        let t = r.push(s.last());
        assert forall|i: int, j: int| 0 <= i <= j < t.len() implies t[i].0.start
            <= t[j].0.start by {
            if j == t.len() - 1 && i < j {
                // every element of r is either x or an element of s.drop_last()
                assert(r.to_multiset().count(r[i]) > 0);
                if r[i] != x {
                    assert(s.drop_last().to_multiset().count(r[i]) > 0);
                    let k = choose|k: int| 0 <= k < s.drop_last().len() && s.drop_last()[k] == r[i];
                    assert(s[k] == r[i]);
                }
            }
        }
    }
}

/// The stable sort yields a sorted permutation of its input.
pub proof fn lemma_sort_by_start(s: Seq<Interval>)
    ensures
        sorted_by_start(sort_by_start(s)),
        sort_by_start(s).to_multiset() =~= s.to_multiset(),
        sort_by_start(s).len() == s.len(),
    decreases s.len(),
{
    broadcast use vstd::seq_lib::group_to_multiset_ensures;

    if s.len() > 0 {
        lemma_sort_by_start(s.drop_last());
        lemma_insert_sorted(sort_by_start(s.drop_last()), s.last());
        lemma_insert_len(sort_by_start(s.drop_last()), s.last());
        assert(s.drop_last().push(s.last()) =~= s);
    }
}

proof fn lemma_insert_elements(s: Seq<Interval>, x: Interval)
    ensures
        forall|k: int|
            0 <= k < insert_by_start(s, x).len() ==> #[trigger] insert_by_start(s, x)[k] == x
                || exists|j: int| 0 <= j < s.len() && s[j] == insert_by_start(s, x)[k],
    decreases s.len(),
{
    lemma_insert_len(s, x);
    if s.len() > 0 && s.last().0.start > x.0.start {
        lemma_insert_elements(s.drop_last(), x);
        let r = insert_by_start(s.drop_last(), x);
        assert forall|k: int| 0 <= k < insert_by_start(s, x).len() implies #[trigger] insert_by_start(
            s,
            x,
        )[k] == x || exists|j: int| 0 <= j < s.len() && s[j] == insert_by_start(s, x)[k] by {
            if k == s.len() {
                assert(s[s.len() - 1] == insert_by_start(s, x)[k]);
            } else {
                assert(insert_by_start(s, x)[k] == r[k]);
                if r[k] != x {
                    let j = choose|j: int| 0 <= j < s.drop_last().len() && s.drop_last()[j] == r[k];
                    assert(s[j] == r[k]);
                }
            }
        }
    }
}

/// Every element of the sorted sequence comes from the input.
pub proof fn lemma_sort_elements(s: Seq<Interval>)
    ensures
        forall|k: int|
            0 <= k < sort_by_start(s).len() ==> exists|j: int|
                0 <= j < s.len() && s[j] == #[trigger] sort_by_start(s)[k],
    decreases s.len(),
{
    lemma_sort_by_start(s);
    if s.len() > 0 {
        let p = s.drop_last();
        lemma_sort_elements(p);
        lemma_insert_elements(sort_by_start(p), s.last());
        assert forall|k: int| 0 <= k < sort_by_start(s).len() implies exists|j: int|
            0 <= j < s.len() && s[j] == #[trigger] sort_by_start(s)[k] by {
            let e = sort_by_start(s)[k];
            if e == s.last() {
                assert(s[s.len() - 1] == e);
            } else {
                let j1 = choose|j1: int|
                    0 <= j1 < sort_by_start(p).len() && sort_by_start(p)[j1] == e;
                let j2 = choose|j2: int| 0 <= j2 < p.len() && p[j2] == sort_by_start(p)[j1];
                assert(s[j2] == e);
            }
        }
    }
}

/// Every local interval is the interval of one of the matches.
proof fn lemma_local_intervals_from(
    ranges: Seq<Range<usize>>,
    active: Option<&Range<usize>>,
    span: Range<usize>,
    text_len: usize,
)
    ensures
        forall|i: int|
            0 <= i < local_intervals(ranges, active, span, text_len).len() ==> exists|k: int|
                0 <= k < ranges.len() && local_interval(ranges[k], active, span, text_len)
                    == Some(#[trigger] local_intervals(ranges, active, span, text_len)[i]),
    decreases ranges.len(),
{
    if ranges.len() > 0 {
        let p = ranges.drop_last();
        lemma_local_intervals_from(p, active, span, text_len);
        let rest = local_intervals(p, active, span, text_len);
        let all = local_intervals(ranges, active, span, text_len);
        assert forall|i: int| 0 <= i < all.len() implies exists|k: int|
            0 <= k < ranges.len() && local_interval(ranges[k], active, span, text_len) == Some(
                #[trigger] all[i],
            ) by {
            if i < rest.len() {
                assert(all[i] == rest[i]);
                let k = choose|k: int|
                    0 <= k < p.len() && local_interval(p[k], active, span, text_len) == Some(
                        rest[i],
                    );
                assert(ranges[k] == p[k]);
            } else {
                assert(local_interval(ranges[ranges.len() - 1], active, span, text_len) == Some(
                    all[i],
                ));
            }
        }
    }
}

/// A match's interval is flagged active exactly when the match is the
/// active match, whatever run it is clipped to: the flag does not depend
/// on the run's span or length.
pub proof fn lemma_active_flag_ignores_run(
    r: Range<usize>,
    active: Option<&Range<usize>>,
    span_a: Range<usize>,
    len_a: usize,
    span_b: Range<usize>,
    len_b: usize,
)
    ensures
        local_interval(r, active, span_a, len_a) matches Some(iv) ==> iv.1 == (active matches Some(
            a,
        ) && a.start == r.start && a.end == r.end),
        local_interval(r, active, span_a, len_a) is Some && local_interval(r, active, span_b, len_b)
            is Some ==> (local_interval(r, active, span_a, len_a)->0).1 == (local_interval(
            r,
            active,
            span_b,
            len_b,
        )->0).1,
{
}

/// The interval `iv` of a run with source span `span` and `text_len` bytes
/// of text belongs to the match `r`: the match is non-empty and shares
/// bytes with the span, the interval is the match's part of the run in the
/// run's own offsets, clipped to its text, and it is flagged active exactly
/// when `r` is the active match.
pub open spec fn flagged_for(
    iv: Interval,
    r: Range<usize>,
    active: Option<&Range<usize>>,
    span: Range<usize>,
    text_len: usize,
) -> bool {
    &&& r.start < r.end
    &&& r.start < span.end && span.start < r.end
    &&& iv.0.start == min_usize(sat_sub(r.start, span.start), text_len)
    &&& iv.0.end == min_usize(sat_sub(r.end, span.start), text_len)
    &&& iv.1 == (active matches Some(a) && a.start == r.start && a.end == r.end)
}

/// `iv` belongs to one of the matches `ranges` (see [`flagged_for`]).
pub open spec fn flagged_for_some(
    iv: Interval,
    ranges: Seq<Range<usize>>,
    active: Option<&Range<usize>>,
    span: Range<usize>,
    text_len: usize,
) -> bool {
    exists|k: int| 0 <= k < ranges.len() && #[trigger] flagged_for(iv, ranges[k], active, span, text_len)
}

/// Every interval that [`search_intervals`] returns belongs to a match
/// that shares bytes with the run, and is flagged active exactly when that
/// match is the active match.
pub proof fn lemma_search_intervals_flags(
    ranges: Seq<Range<usize>>,
    active: Option<&Range<usize>>,
    span: Range<usize>,
    text_len: usize,
)
    ensures
        forall|i: int|
            0 <= i < spec_search_intervals(ranges, active, span, text_len).len()
                ==> #[trigger] flagged_for_some(
                spec_search_intervals(ranges, active, span, text_len)[i],
                ranges,
                active,
                span,
                text_len,
            ),
{
    assert forall|i: int|
        0 <= i < spec_search_intervals(ranges, active, span, text_len).len()
            implies #[trigger] flagged_for_some(
            spec_search_intervals(ranges, active, span, text_len)[i],
            ranges,
            active,
            span,
            text_len,
        ) by {
        let k = lemma_flag_at(ranges, active, span, text_len, i);
        assert(flagged_for(
            spec_search_intervals(ranges, active, span, text_len)[i],
            ranges[k],
            active,
            span,
            text_len,
        ));
    }
}

/// The match that interval `i` of [`search_intervals`]'s result belongs to.
proof fn lemma_flag_at(
    ranges: Seq<Range<usize>>,
    active: Option<&Range<usize>>,
    span: Range<usize>,
    text_len: usize,
    i: int,
) -> (k: int)
    requires
        0 <= i < spec_search_intervals(ranges, active, span, text_len).len(),
    ensures
        0 <= k < ranges.len(),
        flagged_for(
            spec_search_intervals(ranges, active, span, text_len)[i],
            ranges[k],
            active,
            span,
            text_len,
        ),
{
    let li = local_intervals(ranges, active, span, text_len);
    lemma_local_intervals_from(ranges, active, span, text_len);
    lemma_sort_elements(li);
    let res = spec_search_intervals(ranges, active, span, text_len);
    let j = choose|j: int| 0 <= j < li.len() && li[j] == res[i];
    let k = choose|k: int|
        0 <= k < ranges.len() && local_interval(ranges[k], active, span, text_len) == Some(li[j]);
    lemma_active_flag_ignores_run(ranges[k], active, span, text_len, span, text_len);
    k
}

/// Stably sorts intervals by their start.
pub fn sort_intervals_by_start(v: Vec<Interval>) -> (res: Vec<Interval>)
    ensures
        res@ == sort_by_start(v@),
{
    let mut out: Vec<Interval> = Vec::new();
    let mut i: usize = 0;
    while i < v.len()
        invariant
            i <= v.len(),
            out@ == sort_by_start(v@.take(i as int)),
        decreases v.len() - i,
    {
        let x: Interval = (Range { start: v[i].0.start, end: v[i].0.end }, v[i].1);
        assert(x == v@[i as int]);
        let mut j: usize = out.len();
        while j > 0 && out[j - 1].0.start > x.0.start
            invariant
                j <= out.len(),
                forall|k: int| j <= k < out.len() ==> out@[k].0.start > x.0.start,
            decreases j,
        {
            j = j - 1;
        }
        proof {
            lemma_insert_at(out@, x, j as int);
            assert(v@.take(i + 1).drop_last() =~= v@.take(i as int));
            assert(v@.take(i + 1).last() == v@[i as int]);
        }
        out.insert(j, x);
        assert(out@ =~= sort_by_start(v@.take(i + 1)));
        i = i + 1;
    }
    assert(v@.take(v.len() as int) =~= v@);
    out
}

/// Given the set of global search match byte ranges (in the markdown source
/// text) and the byte span of some text run within that source, compute the
/// list of intervals *local* to that text run (0-based, relative to
/// `src_span.start`) that should be highlighted, along with whether each one
/// is the active match.
///
/// Returned intervals are sorted by start position and clamped to
/// `0..text_len`. Empty intervals are omitted.
pub fn search_intervals(
    ranges: &[Range<usize>],
    active: Option<&Range<usize>>,
    src_span: &Range<usize>,
    text_len: usize,
) -> (res: Vec<Interval>)
    ensures
        res@ == spec_search_intervals(ranges@, active, *src_span, text_len),
        sorted_by_start(res@),
        forall|k: int|
            0 <= k < res@.len() ==> res@[k].0.start < res@[k].0.end && res@[k].0.end
                <= text_len,
{
    let mut unsorted: Vec<Interval> = Vec::new();
    let mut i: usize = 0;
    while i < ranges.len()
        invariant
            i <= ranges@.len(),
            unsorted@ == local_intervals(ranges@.take(i as int), active, *src_span, text_len),
        decreases ranges@.len() - i,
    {
        let r = &ranges[i];
        proof {
            assert(ranges@.take(i + 1).drop_last() =~= ranges@.take(i as int));
            assert(ranges@.take(i + 1).last() == ranges@[i as int]);
        }
        if r.start < r.end && r.start < src_span.end && r.end > src_span.start {
            let start = r.start.saturating_sub(src_span.start).min(text_len);
            let end = r.end.saturating_sub(src_span.start).min(text_len);
            if start < end {
                let is_active = match active {
                    Some(a) => a.start == r.start && a.end == r.end,
                    None => false,
                };
                unsorted.push((start..end, is_active));
            }
        }
        i = i + 1;
    }
    assert(ranges@.take(ranges@.len() as int) =~= ranges@);
    proof {
        lemma_local_intervals_bounded(ranges@, active, *src_span, text_len);
        lemma_sort_by_start(unsorted@);
        lemma_sort_elements(unsorted@);
    }
    let res = sort_intervals_by_start(unsorted);
    proof {
        assert forall|k: int| 0 <= k < res@.len() implies res@[k].0.start < res@[k].0.end
            && res@[k].0.end <= text_len by {
            lemma_sort_elements(unsorted@);
            let j = choose|j: int| 0 <= j < unsorted@.len() && unsorted@[j] == res@[k];
            assert(unsorted@[j] == res@[k]);
        }
    }
    res
}

/// `iv` moved `by` bytes to the right.
pub open spec fn shift_interval(iv: Interval, by: usize) -> Interval {
    (Range { start: (iv.0.start + by) as usize, end: (iv.0.end + by) as usize }, iv.1)
}

/// The local intervals of every chunk, each translated to the chunk's place
/// in the assembled text, in chunk order.
pub open spec fn chunk_intervals(
    chunks: Seq<(Range<usize>, Range<usize>)>,
    ranges: Seq<Range<usize>>,
    active: Option<&Range<usize>>,
) -> Seq<Interval>
    decreases chunks.len(),
{
    if chunks.len() == 0 {
        Seq::empty()
    } else {
        let (local, src) = chunks.last();
        chunk_intervals(chunks.drop_last(), ranges, active) + spec_search_intervals(
            ranges,
            active,
            src,
            sat_sub(local.end, local.start),
        ).map_values(|iv: Interval| shift_interval(iv, local.start))
    }
}

/// What [`chunked_search_intervals`] returns.
pub open spec fn spec_chunked_search_intervals(
    chunks: Seq<(Range<usize>, Range<usize>)>,
    ranges: Seq<Range<usize>>,
    active: Option<&Range<usize>>,
) -> Seq<Interval> {
    sort_by_start(chunk_intervals(chunks, ranges, active))
}

/// `iv` is non-empty and lies inside the local range of one of `chunks`.
pub open spec fn in_some_chunk(chunks: Seq<(Range<usize>, Range<usize>)>, iv: Interval) -> bool {
    iv.0.start < iv.0.end && exists|c: int|
        0 <= c < chunks.len() && chunks[c].0.start <= iv.0.start && iv.0.end <= chunks[c].0.end
}

/// Like [`search_intervals`], but for content assembled from multiple
/// markdown text events (`chunks`), each with its own local byte range
/// within the final rendered text and source byte range in the markdown
/// document. Used for both code blocks and link text.
pub fn chunked_search_intervals(
    chunks: &[(Range<usize>, Range<usize>)],
    ranges: &[Range<usize>],
    active: Option<&Range<usize>>,
) -> (res: Vec<Interval>)
    ensures
        res@ == spec_chunked_search_intervals(chunks@, ranges@, active),
        sorted_by_start(res@),
        forall|k: int| 0 <= k < res@.len() ==> #[trigger] in_some_chunk(chunks@, res@[k]),
{
    let mut out: Vec<Interval> = Vec::new();
    let mut c: usize = 0;
    while c < chunks.len()
        invariant
            c <= chunks@.len(),
            out@ == chunk_intervals(chunks@.take(c as int), ranges@, active),
            forall|q: int| 0 <= q < out@.len() ==> #[trigger] in_some_chunk(chunks@, out@[q]),
        decreases chunks@.len() - c,
    {
        let local_start = chunks[c].0.start;
        let local_end = chunks[c].0.end;
        let chunk_len = local_end.saturating_sub(local_start);
        let sub = search_intervals(ranges, active, &chunks[c].1, chunk_len);
        let ghost before = out@;
        let ghost shifted = sub@.map_values(|iv: Interval| shift_interval(iv, local_start));
        let mut k: usize = 0;
        while k < sub.len()
            invariant
                k <= sub@.len(),
                out@ == before + shifted.take(k as int),
                shifted == sub@.map_values(|iv: Interval| shift_interval(iv, local_start)),
                chunk_len == sat_sub(local_end, local_start),
                c < chunks@.len(),
                local_start == chunks@[c as int].0.start,
                local_end == chunks@[c as int].0.end,
                forall|q: int| 0 <= q < out@.len() ==> #[trigger] in_some_chunk(chunks@, out@[q]),
                forall|q: int|
                    0 <= q < sub@.len() ==> sub@[q].0.start < sub@[q].0.end && sub@[q].0.end
                        <= chunk_len,
            decreases sub@.len() - k,
        {
            let s = sub[k].0.start;
            let e = sub[k].0.end;
            let flag = sub[k].1;
            assert(e <= chunk_len);
            let iv: Interval = (Range { start: s + local_start, end: e + local_start }, flag);
            assert(in_some_chunk(chunks@, iv));
            out.push(iv);
            assert(shifted.take(k + 1) =~= shifted.take(k as int).push(iv));
            k = k + 1;
        }
        proof {
            assert(shifted.take(sub@.len() as int) =~= shifted);
            let t = chunks@.take(c + 1);
            assert(t.drop_last() =~= chunks@.take(c as int));
            assert(t.last() == chunks@[c as int]);
        }
        c = c + 1;
    }
    assert(chunks@.take(chunks@.len() as int) =~= chunks@);
    proof {
        lemma_sort_by_start(out@);
        lemma_sort_elements(out@);
    }
    let res = sort_intervals_by_start(out);
    assert forall|k: int| 0 <= k < res@.len() implies #[trigger] in_some_chunk(chunks@, res@[k]) by {
        let j = choose|j: int| 0 <= j < out@.len() && out@[j] == res@[k];
        assert(in_some_chunk(chunks@, out@[j]));
    }
    res
}

proof fn lemma_local_intervals_bounded(
    ranges: Seq<Range<usize>>,
    active: Option<&Range<usize>>,
    span: Range<usize>,
    text_len: usize,
)
    ensures
        forall|k: int|
            0 <= k < local_intervals(ranges, active, span, text_len).len() ==> {
                let iv = #[trigger] local_intervals(ranges, active, span, text_len)[k];
                iv.0.start < iv.0.end && iv.0.end <= text_len
            },
    decreases ranges.len(),
{
    if ranges.len() > 0 {
        lemma_local_intervals_bounded(ranges.drop_last(), active, span, text_len);
        let rest = local_intervals(ranges.drop_last(), active, span, text_len);
        let all = local_intervals(ranges, active, span, text_len);
        match local_interval(ranges.last(), active, span, text_len) {
            Some(iv) => {
                assert forall|k: int| 0 <= k < all.len() implies all[k].0.start < all[k].0.end
                    && all[k].0.end <= text_len by {
                    if k < rest.len() {
                        assert(all[k] == rest[k]);
                    }
                }
            },
            None => {},
        }
    }
}


/// The background that a section of laid-out text is painted with.
#[derive(Clone, Copy, PartialEq, Eq, Debug)]
pub enum Background {
    /// Whatever the section's own format says.
    Unchanged,
    /// The colour of a passive search match.
    Match,
    /// The colour of the active search match.
    ActiveMatch,
}

/// One section of a text layout job: a byte range of the job's text drawn
/// with one format.
#[derive(PartialEq, Eq, Debug)]
pub struct LayoutSection {
    /// Byte range of the section within the job's text.
    pub byte_range: Range<usize>,
    /// Which format the section is drawn with: an index into the formats
    /// that the caller keeps for the job.
    pub format: usize,
    /// The background painted behind the section.
    pub background: Background,
    /// Whether the section starts with its format's leading space.
    pub leading_space: bool,
}

/// The text layout that search highlighting rewrites: the length of the
/// text in bytes and its sections.
#[derive(PartialEq, Eq, Debug)]
pub struct HighlightJob {
    pub text_len: usize,
    pub sections: Vec<LayoutSection>,
}

/// The nearest cut point after `p` and before `end`, among the endpoints of
/// the intervals; `end` if there is none.
pub open spec fn next_cut(ivs: Seq<Interval>, p: usize, end: usize) -> usize
    decreases ivs.len(),
{
    if ivs.len() == 0 {
        end
    } else {
        let cur = next_cut(ivs.drop_last(), p, end);
        let a = ivs.last().0.start;
        let b = ivs.last().0.end;
        let cur1 = if p < a && a < cur {
            a
        } else {
            cur
        };
        if p < b && b < cur1 {
            b
        } else {
            cur1
        }
    }
}

/// The background of the piece `a..b`: that of the first interval (in
/// order) that covers it, or none.
pub open spec fn covering(ivs: Seq<Interval>, a: usize, b: usize) -> Background
    decreases ivs.len(),
{
    if ivs.len() == 0 {
        Background::Unchanged
    } else if ivs[0].0.start <= a && ivs[0].0.end >= b {
        if ivs[0].1 {
            Background::ActiveMatch
        } else {
            Background::Match
        }
    } else {
        covering(ivs.drop_first(), a, b)
    }
}

/// The piece `a..b` of section `sec` (whose clamped start is `sec_start`).
pub open spec fn piece(sec: LayoutSection, sec_start: usize, a: usize, b: usize, ivs: Seq<Interval>) -> LayoutSection {
    LayoutSection {
        byte_range: Range { start: a, end: b },
        format: sec.format,
        background: match covering(ivs, a, b) {
            Background::Unchanged => sec.background,
            bg => bg,
        },
        leading_space: sec.leading_space && a == sec_start,
    }
}

/// The pieces of section `sec` from byte `from` to byte `end`: each piece
/// runs from one cut point to the next.
pub open spec fn section_pieces(
    sec: LayoutSection,
    sec_start: usize,
    from: usize,
    end: usize,
    ivs: Seq<Interval>,
) -> Seq<LayoutSection>
    decreases end - from,
{
    if from >= end {
        Seq::empty()
    } else {
        let nx = next_cut(ivs, from, end);
        if nx <= from || nx > end {
            Seq::empty()
        } else {
            seq![piece(sec, sec_start, from, nx, ivs)] + section_pieces(sec, sec_start, nx, end, ivs)
        }
    }
}

/// The pieces of one section, clamped to the text.
pub open spec fn split_section(sec: LayoutSection, text_len: usize, ivs: Seq<Interval>) -> Seq<LayoutSection> {
    let s = min_usize(sec.byte_range.start, text_len);
    let e = min_usize(sec.byte_range.end, text_len);
    section_pieces(sec, s, s, e, ivs)
}

/// The pieces of all sections, in order.
pub open spec fn split_sections(secs: Seq<LayoutSection>, text_len: usize, ivs: Seq<Interval>) -> Seq<LayoutSection>
    decreases secs.len(),
{
    if secs.len() == 0 {
        Seq::empty()
    } else {
        split_sections(secs.drop_last(), text_len, ivs) + split_section(secs.last(), text_len, ivs)
    }
}

proof fn lemma_next_cut(ivs: Seq<Interval>, p: usize, end: usize)
    requires
        p < end,
    ensures
        p < next_cut(ivs, p, end) <= end,
        forall|k: int|
            0 <= k < ivs.len() ==> !(p < #[trigger] ivs[k].0.start && ivs[k].0.start < next_cut(
                ivs,
                p,
                end,
            )) && !(p < ivs[k].0.end && ivs[k].0.end < next_cut(ivs, p, end)),
    decreases ivs.len(),
{
    if ivs.len() > 0 {
        lemma_next_cut(ivs.drop_last(), p, end);
        assert forall|k: int| 0 <= k < ivs.len() - 1 implies ivs.drop_last()[k] == ivs[k] by {}
    }
}

/// The cut point after `p`, computed by scanning the intervals.
fn next_cut_exec(ivs: &[Interval], p: usize, end: usize) -> (res: usize)
    ensures
        res == next_cut(ivs@, p, end),
{
    let mut cur = end;
    let mut i: usize = 0;
    while i < ivs.len()
        invariant
            i <= ivs@.len(),
            cur == next_cut(ivs@.take(i as int), p, end),
        decreases ivs@.len() - i,
    {
        proof {
            assert(ivs@.take(i + 1).drop_last() =~= ivs@.take(i as int));
            assert(ivs@.take(i + 1).last() == ivs@[i as int]);
        }
        let a = ivs[i].0.start;
        let b = ivs[i].0.end;
        if p < a && a < cur {
            cur = a;
        }
        if p < b && b < cur {
            cur = b;
        }
        i = i + 1;
    }
    assert(ivs@.take(ivs@.len() as int) =~= ivs@);
    cur
}

/// The background of the piece `a..b`, computed by scanning the intervals.
fn covering_exec(ivs: &[Interval], a: usize, b: usize) -> (res: Background)
    ensures
        res == covering(ivs@, a, b),
{
    let mut i: usize = 0;
    assert(ivs@.skip(0) =~= ivs@);
    while i < ivs.len()
        invariant
            i <= ivs@.len(),
            covering(ivs@, a, b) == covering(ivs@.skip(i as int), a, b),
        decreases ivs@.len() - i,
    {
        assert(ivs@.skip(i as int)[0] == ivs@[i as int]);
        if ivs[i].0.start <= a && ivs[i].0.end >= b {
            return if ivs[i].1 {
                Background::ActiveMatch
            } else {
                Background::Match
            };
        }
        assert(ivs@.skip(i as int).drop_first() =~= ivs@.skip(i + 1));
        i = i + 1;
    }
    Background::Unchanged
}

/// Rewrite `job`'s sections so that any byte range covered by `intervals`
/// gets the match background (or the active-match background for the
/// active match), splitting existing sections at the interval boundaries as
/// needed. All other formatting is kept: each piece carries the format of
/// the section it came from, and only the first piece of a section keeps
/// its leading space.
///
/// Does nothing if there are no intervals.
pub fn apply_search_highlights(job: &mut HighlightJob, intervals: &[Interval])
    ensures
        intervals@.len() == 0 || old(job).sections@.len() == 0 ==> *final(job) == *old(job),
        !(intervals@.len() == 0 || old(job).sections@.len() == 0) ==> {
            &&& final(job).text_len == old(job).text_len
            &&& final(job).sections@ == split_sections(
                old(job).sections@,
                old(job).text_len,
                intervals@,
            )
        },
{
    if intervals.len() == 0 || job.sections.len() == 0 {
        return;
    }
    let text_len = job.text_len;
    let mut new_sections: Vec<LayoutSection> = Vec::new();
    let mut i: usize = 0;
    while i < job.sections.len()
        invariant
            i <= job.sections@.len(),
            job.text_len == text_len,
            new_sections@ == split_sections(job.sections@.take(i as int), text_len, intervals@),
        decreases job.sections@.len() - i,
    {
        let ghost sec = job.sections@[i as int];
        let sec_format = job.sections[i].format;
        let sec_background = job.sections[i].background;
        let sec_leading = job.sections[i].leading_space;
        let raw_start = job.sections[i].byte_range.start;
        let raw_end = job.sections[i].byte_range.end;
        let sec_start = if raw_start <= text_len { raw_start } else { text_len };
        let sec_end = if raw_end <= text_len { raw_end } else { text_len };
        let ghost before = new_sections@;
        let mut p = sec_start;
        while p < sec_end
            invariant
                sec_start <= p,
                p <= sec_end || sec_start >= sec_end,
                sec_format == sec.format,
                sec_background == sec.background,
                sec_leading == sec.leading_space,
                new_sections@ + section_pieces(sec, sec_start, p, sec_end, intervals@) == before
                    + section_pieces(sec, sec_start, sec_start, sec_end, intervals@),
            decreases sec_end - p,
        {
            let nx = next_cut_exec(intervals, p, sec_end);
            proof {
                lemma_next_cut(intervals@, p, sec_end);
            }
            let bg = match covering_exec(intervals, p, nx) {
                Background::Unchanged => sec_background,
                other => other,
            };
            let pc = LayoutSection {
                byte_range: Range { start: p, end: nx },
                format: sec_format,
                background: bg,
                leading_space: sec_leading && p == sec_start,
            };
            assert(pc == piece(sec, sec_start, p, nx, intervals@));
            let ghost old_new = new_sections@;
            new_sections.push(pc);
            assert(section_pieces(sec, sec_start, p, sec_end, intervals@) == seq![pc]
                + section_pieces(sec, sec_start, nx, sec_end, intervals@));
            assert(old_new.push(pc) + section_pieces(sec, sec_start, nx, sec_end, intervals@)
                =~= old_new + (seq![pc] + section_pieces(sec, sec_start, nx, sec_end, intervals@)));
            p = nx;
        }
        proof {
            assert(section_pieces(sec, sec_start, p, sec_end, intervals@) =~= Seq::empty());
            assert(new_sections@ =~= before + split_section(sec, text_len, intervals@));
            let t = job.sections@.take(i + 1);
            assert(t.drop_last() =~= job.sections@.take(i as int));
            assert(t.last() == job.sections@[i as int]);
        }
        i = i + 1;
    }
    assert(job.sections@.take(job.sections@.len() as int) =~= job.sections@);
    job.sections = new_sections;
}

/// The pieces of a section tile it: they are non-empty, follow one another
/// without gap or overlap, and run from the section's start to its end.
pub proof fn lemma_section_pieces_tile(
    sec: LayoutSection,
    sec_start: usize,
    from: usize,
    end: usize,
    ivs: Seq<Interval>,
)
    requires
        from < end,
    ensures
        ({
            let ps = section_pieces(sec, sec_start, from, end, ivs);
            &&& ps.len() > 0
            &&& ps[0].byte_range.start == from
            &&& ps.last().byte_range.end == end
            &&& forall|k: int| 0 <= k < ps.len() ==> ps[k].byte_range.start < ps[k].byte_range.end
            &&& forall|k: int|
                0 <= k < ps.len() - 1 ==> ps[k].byte_range.end == ps[k + 1].byte_range.start
        }),
    decreases end - from,
{
    lemma_next_cut(ivs, from, end);
    let nx = next_cut(ivs, from, end);
    if nx < end {
        lemma_section_pieces_tile(sec, sec_start, nx, end, ivs);
    }
}

/// No piece crosses an interval boundary: every piece lies either wholly
/// inside or wholly outside each highlight interval, so each byte of a
/// piece is highlighted the same way.
pub proof fn lemma_section_pieces_respect_intervals(
    sec: LayoutSection,
    sec_start: usize,
    from: usize,
    end: usize,
    ivs: Seq<Interval>,
)
    ensures
        ({
            let ps = section_pieces(sec, sec_start, from, end, ivs);
            forall|k: int, q: int|
                #![trigger ps[k], ivs[q]]
                0 <= k < ps.len() && 0 <= q < ivs.len() ==> {
                    let r = ps[k].byte_range;
                    let iv = ivs[q].0;
                    !(r.start < iv.start && iv.start < r.end) && !(r.start < iv.end && iv.end
                        < r.end)
                }
        }),
    decreases end - from,
{
    if from < end {
        lemma_next_cut(ivs, from, end);
        let nx = next_cut(ivs, from, end);
        lemma_section_pieces_respect_intervals(sec, sec_start, nx, end, ivs);
        let ps = section_pieces(sec, sec_start, from, end, ivs);
        let rest = section_pieces(sec, sec_start, nx, end, ivs);
        assert forall|k: int, q: int|
            #![trigger ps[k], ivs[q]]
            0 <= k < ps.len() && 0 <= q < ivs.len() implies {
            let r = ps[k].byte_range;
            let iv = ivs[q].0;
            !(r.start < iv.start && iv.start < r.end) && !(r.start < iv.end && iv.end < r.end)
        } by {
            if k > 0 {
                assert(ps[k] == rest[k - 1]);
            }
        }
    }
}

} // verus!
