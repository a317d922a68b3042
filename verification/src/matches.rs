//! Finding search matches in the rendered text of a markdown document.
//!
//! Only the text that the viewer renders is searched (text and code
//! events), so link destinations, heading attributes and alert markers are
//! never matched. Consecutive text and code events of one inline context
//! form a run that is searched as a unit, so a match may span a change of
//! style; soft breaks join a run as a space. Each match is reported as the
//! byte range of the source that it covers.

use crate::alerts::{spec_to_uppercase, try_get_alert, AlertBundle};
use crate::pulldown::{MdEvent, MdTag, SpannedEvent};
use std::ops::Range;
use vstd::prelude::*;

verus! {

#[verifier::external_type_specification]
#[verifier::external_body]
pub struct ExRegex(regex::Regex);

/// The number of bytes of the UTF-8 encoding of `s`.
pub open spec fn byte_len(s: Seq<char>) -> nat {
    vstd::utf8::encode_utf8(s).len()
}

/// The UTF-8 encoding of a concatenation is the concatenation of the
/// encodings.
pub proof fn lemma_encode_utf8_concat(a: Seq<char>, b: Seq<char>)
    ensures
        vstd::utf8::encode_utf8(a + b) == vstd::utf8::encode_utf8(a) + vstd::utf8::encode_utf8(b),
    decreases a.len(),
{
    if a.len() == 0 {
        assert(a + b =~= b);
        assert(vstd::utf8::encode_utf8(a) =~= Seq::<u8>::empty());
        assert(vstd::utf8::encode_utf8(a) + vstd::utf8::encode_utf8(b) =~= vstd::utf8::encode_utf8(b));
    } else {
        lemma_encode_utf8_concat(a.drop_first(), b);
        assert((a + b).drop_first() =~= a.drop_first() + b);
        assert((a + b)[0] == a[0]);
        let head = vstd::utf8::encode_scalar(a[0] as u32);
        assert(head + (vstd::utf8::encode_utf8(a.drop_first()) + vstd::utf8::encode_utf8(b)) =~= (
        head + vstd::utf8::encode_utf8(a.drop_first())) + vstd::utf8::encode_utf8(b));
    }
}

/// The UTF-8 length of a concatenation is the sum of the lengths.
pub proof fn lemma_byte_len_concat(a: Seq<char>, b: Seq<char>)
    ensures
        byte_len(a + b) == byte_len(a) + byte_len(b),
{
    lemma_encode_utf8_concat(a, b);
}

/// The matches that `regex` finds in `haystack`, built from `pattern` with
/// case-insensitive matching as `case_insensitive` says: the byte offsets
/// of each match's start and end, in order.
pub uninterp spec fn spec_regex_matches(
    pattern: Seq<char>,
    case_insensitive: bool,
    haystack: Seq<char>,
) -> Seq<(usize, usize)>;

/// The error message of building a regex from `pattern`, `None` if it
/// builds.
pub uninterp spec fn spec_regex_error(pattern: Seq<char>, case_insensitive: bool) -> Option<
    Seq<char>,
>;

/// Whether `c` has a meaning of its own in a regex, as
/// `regex_syntax::is_meta_character` lists them.
pub open spec fn is_meta_character(c: char) -> bool {
    c == '\\' || c == '.' || c == '+' || c == '*' || c == '?' || c == '(' || c == ')' || c == '|'
        || c == '[' || c == ']' || c == '{' || c == '}' || c == '^' || c == '$' || c == '#'
        || c == '&' || c == '-' || c == '~'
}

/// `pattern` with a backslash put before every regex meta character, as
/// `regex::escape` computes it.
pub open spec fn spec_regex_escape(pattern: Seq<char>) -> Seq<char>
    decreases pattern.len(),
{
    if pattern.len() == 0 {
        Seq::empty()
    } else {
        let c = pattern.last();
        let rest = spec_regex_escape(pattern.drop_last());
        if is_meta_character(c) {
            rest + seq!['\\', c]
        } else {
            rest.push(c)
        }
    }
}

/// A regex together with what it was built from.
pub struct SearchRegex {
    regex: regex::Regex,
    pattern: String,
    case_insensitive: bool,
}

/// What a regex was built from: the pattern and whether it matches case
/// insensitively.
pub struct RegexSpec {
    pub pattern: Seq<char>,
    pub case_insensitive: bool,
}

impl RegexSpec {
    /// The matches of this regex in `haystack`.
    pub open spec fn matches(self, haystack: Seq<char>) -> Seq<(usize, usize)> {
        spec_regex_matches(self.pattern, self.case_insensitive, haystack)
    }
}

impl SearchRegex {
    pub closed spec fn pattern(&self) -> Seq<char> {
        self.pattern@
    }

    pub closed spec fn case_insensitive(&self) -> bool {
        self.case_insensitive
    }

    /// What the regex was built from.
    pub open spec fn spec(&self) -> RegexSpec {
        RegexSpec { pattern: self.pattern(), case_insensitive: self.case_insensitive() }
    }
}

/// Calls `regex::escape`. Trusted: the result is the pattern with each
/// meta character escaped, as [`spec_regex_escape`] states it.
#[verifier::external_body]
pub(crate) fn regex_escape(pattern: &str) -> (res: String)
    ensures
        res@ == spec_regex_escape(pattern@),
{
    regex::escape(pattern)
}

/// Builds a regex with `regex::RegexBuilder::new(pattern)`, setting
/// `case_insensitive`, and turns a build error into its message. Trusted:
/// whether it builds and the message are named [`spec_regex_error`]; on
/// success the regex is kept with the pattern and flag it was built from.
#[verifier::external_body]
pub(crate) fn build_regex(pattern: &str, case_insensitive: bool) -> (res: Result<SearchRegex, String>)
    ensures
        match res {
            Ok(r) => spec_regex_error(pattern@, case_insensitive) is None && r.pattern() == pattern@
                && r.case_insensitive() == case_insensitive,
            Err(e) => spec_regex_error(pattern@, case_insensitive) == Some(e@),
        },
{
    match regex::RegexBuilder::new(pattern).case_insensitive(case_insensitive).build() {
        Ok(regex) => Ok(SearchRegex { regex, pattern: pattern.to_string(), case_insensitive }),
        Err(err) => Err(err.to_string()),
    }
}

/// The matches of `re` in `haystack`, by `regex::Regex::find_iter`, each
/// as its start and end byte offsets. Trusted: the result is named
/// [`spec_regex_matches`] over the pattern and flag the regex was built
/// from; the regex crate documents that a match's start is not after its
/// end and both are byte offsets into the haystack, and that the matches
/// are successive and do not overlap.
#[verifier::external_body]
pub(crate) fn find_matches(re: &SearchRegex, haystack: &str) -> (res: Vec<(usize, usize)>)
    ensures
        res@ == spec_regex_matches(re.pattern(), re.case_insensitive(), haystack@),
        forall|k: int|
            0 <= k < res@.len() ==> res@[k].0 <= res@[k].1 && res@[k].1 <= byte_len(haystack@),
        forall|k: int| 0 <= k < res@.len() - 1 ==> res@[k].1 <= res@[k + 1].0,
{
    re.regex.find_iter(haystack).map(|m| (m.start(), m.end())).collect()
}


/// A run segment: where a text event's text starts in the run (in bytes),
/// and the event's source range.
pub type Segment = (usize, Range<usize>);

/// The state of the search while it walks the events.
pub struct CollectState {
    /// The text of the current inline run.
    pub run_text: Seq<char>,
    /// The segments of the current run.
    pub run_segs: Seq<Segment>,
    /// One entry per open blockquote: whether its first paragraph was
    /// decided on.
    pub bq_stack: Seq<bool>,
    /// Whether the text being read may be an alert marker.
    pub in_bq_first_run: bool,
    /// The text events held back until the marker is decided on.
    pub pending: Seq<(Seq<char>, Range<usize>)>,
    /// The source ranges of the matches found so far.
    pub out: Seq<Range<usize>>,
}

pub open spec fn initial_state() -> CollectState {
    CollectState {
        run_text: Seq::empty(),
        run_segs: Seq::empty(),
        bq_stack: Seq::empty(),
        in_bq_first_run: false,
        pending: Seq::empty(),
        out: Seq::empty(),
    }
}

/// The number of leading segments that start at or before `x`.
pub open spec fn count_le(segs: Seq<Segment>, x: usize) -> nat
    decreases segs.len(),
{
    if segs.len() == 0 {
        0
    } else if segs[0].0 <= x {
        1 + count_le(segs.drop_first(), x)
    } else {
        0
    }
}

/// The number of leading segments that start before `x`.
pub open spec fn count_lt(segs: Seq<Segment>, x: usize) -> nat
    decreases segs.len(),
{
    if segs.len() == 0 {
        0
    } else if segs[0].0 < x {
        1 + count_lt(segs.drop_first(), x)
    } else {
        0
    }
}

/// The source range of a match at `m` in the run text: each end is placed
/// in the segment that holds it (the last segment that starts at or before
/// the match's first byte, and before its end). `None` when an end would
/// lie before its segment or past the largest offset.
pub open spec fn match_source(segs: Seq<Segment>, m: (usize, usize)) -> Option<Range<usize>> {
    let cl = count_le(segs, m.0);
    let ct = count_lt(segs, m.1);
    let si = if cl > 0 {
        cl - 1
    } else {
        0
    };
    let ei = if ct > 0 {
        ct - 1
    } else {
        0
    };
    let start = segs[si].1.start + (m.0 - segs[si].0);
    let end = segs[ei].1.start + (m.1 - segs[ei].0);
    if m.0 >= segs[si].0 && m.1 >= segs[ei].0 && start <= usize::MAX && end <= usize::MAX {
        Some(Range { start: start as usize, end: end as usize })
    } else {
        None
    }
}

/// The source ranges of the matches `ms` of a run.
pub open spec fn run_ranges(segs: Seq<Segment>, ms: Seq<(usize, usize)>) -> Seq<Range<usize>>
    decreases ms.len(),
{
    if ms.len() == 0 {
        Seq::empty()
    } else {
        let prev = run_ranges(segs, ms.drop_last());
        match match_source(segs, ms.last()) {
            Some(r) => prev.push(r),
            None => prev,
        }
    }
}

/// The source ranges of the matches `ms` in the text of one event whose
/// source range starts at `base`; those past the largest offset are left
/// out.
pub open spec fn event_ranges(base: usize, ms: Seq<(usize, usize)>) -> Seq<Range<usize>>
    decreases ms.len(),
{
    if ms.len() == 0 {
        Seq::empty()
    } else {
        let prev = event_ranges(base, ms.drop_last());
        let m = ms.last();
        if base + m.1 <= usize::MAX {
            prev.push(Range { start: (base + m.0) as usize, end: (base + m.1) as usize })
        } else {
            prev
        }
    }
}

/// Searches the current run as a unit and empties it.
pub open spec fn flush_run(st: CollectState, re: RegexSpec) -> CollectState {
    if st.run_segs.len() == 0 {
        st
    } else {
        CollectState {
            out: st.out + run_ranges(st.run_segs, re.matches(st.run_text)),
            run_text: Seq::empty(),
            run_segs: Seq::empty(),
            ..st
        }
    }
}

/// The matches of each held-back event, searched on its own.
pub open spec fn pending_ranges(pending: Seq<(Seq<char>, Range<usize>)>, re: RegexSpec) -> Seq<
    Range<usize>,
>
    decreases pending.len(),
{
    if pending.len() == 0 {
        Seq::empty()
    } else {
        pending_ranges(pending.drop_last(), re) + event_ranges(
            pending.last().1.start,
            re.matches(pending.last().0),
        )
    }
}

/// Searches each held-back event on its own and empties the buffer.
pub open spec fn flush_pending(st: CollectState, re: RegexSpec) -> CollectState {
    CollectState { out: st.out + pending_ranges(st.pending, re), pending: Seq::empty(), ..st }
}

/// The texts of the held-back events, one after the other.
pub open spec fn pending_text(pending: Seq<(Seq<char>, Range<usize>)>) -> Seq<char>
    decreases pending.len(),
{
    if pending.len() == 0 {
        Seq::empty()
    } else {
        pending_text(pending.drop_last()) + pending.last().0
    }
}

/// The smallest start of the held-back events' ranges (0 if none).
pub open spec fn pending_start(pending: Seq<(Seq<char>, Range<usize>)>) -> usize
    decreases pending.len(),
{
    if pending.len() == 0 {
        0
    } else if pending.len() == 1 {
        pending[0].1.start
    } else {
        let m = pending_start(pending.drop_last());
        if pending.last().1.start < m {
            pending.last().1.start
        } else {
            m
        }
    }
}

/// The largest end of the held-back events' ranges (0 if none).
pub open spec fn pending_end(pending: Seq<(Seq<char>, Range<usize>)>) -> usize
    decreases pending.len(),
{
    if pending.len() == 0 {
        0
    } else {
        let m = pending_end(pending.drop_last());
        if pending.last().1.end > m {
            pending.last().1.end
        } else {
            m
        }
    }
}

/// The sequence holding `n` copies of `r`.
pub open spec fn repeated(r: Range<usize>, n: nat) -> Seq<Range<usize>> {
    Seq::new(n, |i: int| r)
}

/// Decides what the held-back text of a blockquote's first line is. If it
/// is an alert marker, the viewer shows the alert's title instead, so the
/// title is searched, and each match covers the marker's source range.
/// Otherwise each held-back event is searched on its own.
pub open spec fn decide_alert(st: CollectState, re: RegexSpec, alerts: &AlertBundle) -> CollectState {
    match alerts.get(spec_to_uppercase(pending_text(st.pending))) {
        Some(alert) => CollectState {
            out: st.out + repeated(
                Range { start: pending_start(st.pending), end: pending_end(st.pending) },
                re.matches(alert.identifier_rendered@).len(),
            ),
            pending: Seq::empty(),
            ..st
        },
        None => flush_pending(st, re),
    }
}

/// Marks the innermost blockquote's first line as decided on.
pub open spec fn mark_seen(bq: Seq<bool>) -> Seq<bool> {
    if bq.len() > 0 {
        bq.update(bq.len() - 1, true)
    } else {
        bq
    }
}

/// Whether `t` only styles text, without breaking the visual line.
pub open spec fn is_inline_marker(t: MdTag) -> bool {
    t == MdTag::Emphasis || t == MdTag::Strong || t == MdTag::Strikethrough || t == MdTag::Link
}

/// The blockquote bookkeeping of an event, and whether the event is done
/// with after it (a line break that ends a possible alert marker).
pub open spec fn blockquote_step(
    st: CollectState,
    e: MdEvent,
    re: RegexSpec,
    alerts: &AlertBundle,
) -> (CollectState, bool) {
    match e {
        MdEvent::Start(MdTag::BlockQuote) => {
            let s1 = flush_pending(flush_run(st, re), re);
            (CollectState { bq_stack: s1.bq_stack.push(false), in_bq_first_run: false, ..s1 }, false)
        },
        MdEvent::End(MdTag::BlockQuote) => {
            let s1 = flush_pending(flush_run(st, re), re);
            (
                CollectState {
                    in_bq_first_run: false,
                    bq_stack: if s1.bq_stack.len() > 0 {
                        s1.bq_stack.drop_last()
                    } else {
                        s1.bq_stack
                    },
                    ..s1
                },
                false,
            )
        },
        MdEvent::Start(MdTag::Paragraph) => if st.bq_stack.len() > 0 && !st.bq_stack.last() {
            (CollectState { in_bq_first_run: true, pending: Seq::empty(), ..st }, false)
        } else {
            (st, false)
        },
        MdEvent::End(MdTag::Paragraph) => if st.in_bq_first_run {
            let s1 = decide_alert(st, re, alerts);
            (CollectState { in_bq_first_run: false, bq_stack: mark_seen(s1.bq_stack), ..s1 }, false)
        } else {
            (st, false)
        },
        MdEvent::SoftBreak | MdEvent::HardBreak => if st.in_bq_first_run {
            let s1 = decide_alert(st, re, alerts);
            (CollectState { in_bq_first_run: false, bq_stack: mark_seen(s1.bq_stack), ..s1 }, true)
        } else {
            (st, false)
        },
        _ => (st, false),
    }
}

/// The inline-run bookkeeping of an event.
pub open spec fn run_step(st: CollectState, e: MdEvent, range: Range<usize>, re: RegexSpec) -> CollectState {
    match e {
        MdEvent::Text(t) | MdEvent::Code(t) => if st.in_bq_first_run {
            CollectState { pending: st.pending.push((t@, range)), ..st }
        } else {
            CollectState {
                run_segs: st.run_segs.push((byte_len(st.run_text) as usize, range)),
                run_text: st.run_text + t@,
                ..st
            }
        },
        MdEvent::SoftBreak => if !st.in_bq_first_run {
            CollectState { run_text: st.run_text.push(' '), ..st }
        } else {
            st
        },
        MdEvent::Start(t) => if is_inline_marker(t) {
            st
        } else {
            flush_run(st, re)
        },
        MdEvent::End(t) => if is_inline_marker(t) {
            st
        } else {
            flush_run(st, re)
        },
        _ => flush_run(st, re),
    }
}

/// One event of the walk.
pub open spec fn collect_step(
    st: CollectState,
    e: SpannedEvent,
    re: RegexSpec,
    alerts: &AlertBundle,
) -> CollectState {
    let (s1, done) = blockquote_step(st, e.0, re, alerts);
    if done {
        s1
    } else {
        run_step(s1, e.0, e.1, re)
    }
}

/// The state after walking `events`.
pub open spec fn collect_events(
    events: Seq<SpannedEvent>,
    re: RegexSpec,
    alerts: &AlertBundle,
) -> CollectState
    decreases events.len(),
{
    if events.len() == 0 {
        initial_state()
    } else {
        collect_step(collect_events(events.drop_last(), re, alerts), events.last(), re, alerts)
    }
}

/// The source ranges of the matches of `re` in the rendered text of
/// `events`, in the order they are found.
pub open spec fn spec_collect_search_ranges(
    events: Seq<SpannedEvent>,
    re: RegexSpec,
    alerts: &AlertBundle,
) -> Seq<Range<usize>> {
    decide_alert(flush_run(collect_events(events, re, alerts), re), re, alerts).out
}


/// The state of the search while it walks the events (see
/// [`CollectState`]).
struct Collector {
    run_text: String,
    run_segs: Vec<Segment>,
    bq_stack: Vec<bool>,
    in_bq_first_run: bool,
    pending: Vec<(String, Range<usize>)>,
    out: Vec<Range<usize>>,
}

/// The views of the held-back texts.
pub open spec fn pending_view(p: Seq<(String, Range<usize>)>) -> Seq<(Seq<char>, Range<usize>)> {
    p.map_values(|e: (String, Range<usize>)| (e.0@, e.1))
}

impl Collector {
    spec fn view(&self) -> CollectState {
        CollectState {
            run_text: self.run_text@,
            run_segs: self.run_segs@,
            bq_stack: self.bq_stack@,
            in_bq_first_run: self.in_bq_first_run,
            pending: pending_view(self.pending@),
            out: self.out@,
        }
    }

    fn new() -> (res: Self)
        ensures
            res.view() == initial_state(),
    {
        let res = Collector {
            run_text: String::new(),
            run_segs: Vec::new(),
            bq_stack: Vec::new(),
            in_bq_first_run: false,
            pending: Vec::new(),
            out: Vec::new(),
        };
        assert(pending_view(res.pending@) =~= Seq::empty());
        res
    }

    fn flush_run(&mut self, re: &SearchRegex)
        ensures
            final(self).view() == flush_run(old(self).view(), re.spec()),
    {
        if self.run_segs.len() == 0 {
            return;
        }
        let ms = find_matches(re, self.run_text.as_str());
        let ghost before = self.out@;
        let ghost s0 = self.view();
        let mut k: usize = 0;
        while k < ms.len()
            invariant
                k <= ms@.len(),
                self.run_segs@.len() > 0,
                ms@ == re.spec().matches(s0.run_text),
                self.view() == (CollectState { out: self.out@, ..s0 }),
                before == s0.out,
                self.out@ == before + run_ranges(self.run_segs@, ms@.take(k as int)),
            decreases ms@.len() - k,
        {
            let m = ms[k];
            let r = match_source_exec(&self.run_segs, m);
            proof {
                assert(ms@.take(k + 1).drop_last() =~= ms@.take(k as int));
                assert(ms@.take(k + 1).last() == m);
            }
            match r {
                Some(r) => {
                    self.out.push(r);
                },
                None => {},
            }
            k = k + 1;
        }
        assert(ms@.take(ms@.len() as int) =~= ms@);
        self.run_text = String::new();
        self.run_segs = Vec::new();
    }

    fn flush_pending(&mut self, re: &SearchRegex)
        ensures
            final(self).view() == flush_pending(old(self).view(), re.spec()),
    {
        let ghost before = self.out@;
        let ghost s0 = self.view();
        let mut i: usize = 0;
        while i < self.pending.len()
            invariant
                i <= self.pending@.len(),
                self.view() == (CollectState { out: self.out@, ..s0 }),
                before == s0.out,
                self.out@ == before + pending_ranges(
                    pending_view(self.pending@).take(i as int),
                    re.spec(),
                ),
            decreases self.pending@.len() - i,
        {
            let base = self.pending[i].1.start;
            let ms = find_matches(re, self.pending[i].0.as_str());
            let ghost mid = self.out@;
            let ghost s1 = self.view();
            let mut k: usize = 0;
            while k < ms.len()
                invariant
                    k <= ms@.len(),
                    self.view() == (CollectState { out: self.out@, ..s1 }),
                    self.out@ == mid + event_ranges(base, ms@.take(k as int)),
                    forall|q: int| 0 <= q < ms@.len() ==> ms@[q].0 <= ms@[q].1,
                decreases ms@.len() - k,
            {
                let m = ms[k];
                proof {
                    assert(ms@.take(k + 1).drop_last() =~= ms@.take(k as int));
                    assert(ms@.take(k + 1).last() == m);
                }
                match base.checked_add(m.1) {
                    Some(end) => {
                        self.out.push(Range { start: base + m.0, end });
                    },
                    None => {},
                }
                k = k + 1;
            }
            proof {
                assert(ms@.take(ms@.len() as int) =~= ms@);
                let pv = pending_view(self.pending@);
                assert(pv.len() == self.pending@.len());
                assert(pv.take(i + 1).drop_last() =~= pv.take(i as int));
                assert(pv.take(i + 1).last() == pv[i as int]);
                assert(ms@ == re.spec().matches(pv[i as int].0));
                assert(self.out@ =~= before + pending_ranges(pv.take(i + 1), re.spec()));
            }
            i = i + 1;
        }
        assert(pending_view(self.pending@).take(self.pending@.len() as int) =~= pending_view(
            self.pending@,
        ));
        self.pending = Vec::new();
        assert(pending_view(self.pending@) =~= Seq::empty());
    }

    fn decide_alert(&mut self, re: &SearchRegex, alerts: &AlertBundle)
        ensures
            final(self).view() == decide_alert(old(self).view(), re.spec(), alerts),
    {
        let mut ident = String::new();
        let mut start: usize = 0;
        let mut end: usize = 0;
        let mut i: usize = 0;
        let ghost pv = pending_view(self.pending@);
        let ghost s0 = self.view();
        assert(ident@ =~= Seq::<char>::empty());
        while i < self.pending.len()
            invariant
                i <= self.pending@.len(),
                pv == pending_view(self.pending@),
                pv.len() == self.pending@.len(),
                self.view() == s0,
                ident@ == pending_text(pv.take(i as int)),
                start == pending_start(pv.take(i as int)),
                end == pending_end(pv.take(i as int)),
            decreases self.pending@.len() - i,
        {
            proof {
                assert(pv.take(i + 1).drop_last() =~= pv.take(i as int));
                assert(pv.take(i + 1).last() == pv[i as int]);
            }
            ident.append(self.pending[i].0.as_str());
            let s = self.pending[i].1.start;
            let e = self.pending[i].1.end;
            if i == 0 || s < start {
                start = s;
            }
            if e > end {
                end = e;
            }
            i = i + 1;
        }
        assert(pv.take(self.pending@.len() as int) =~= pv);
        match try_get_alert(alerts, ident.as_str()) {
            Some(alert) => {
                let ms = find_matches(re, alert.identifier_rendered.as_str());
                let ghost before = self.out@;
                let ghost s1 = self.view();
                let mut k: usize = 0;
                while k < ms.len()
                    invariant
                        k <= ms@.len(),
                        self.view() == (CollectState { out: self.out@, ..s1 }),
                        self.out@ == before + repeated(Range { start, end }, k as nat),
                    decreases ms@.len() - k,
                {
                    self.out.push(Range { start, end });
                    assert(self.out@ =~= before + repeated(Range { start, end }, (k + 1) as nat));
                    k = k + 1;
                }
                self.pending = Vec::new();
                assert(pending_view(self.pending@) =~= Seq::empty());
            },
            None => {
                self.flush_pending(re);
            },
        }
    }

    fn mark_seen(&mut self)
        ensures
            final(self).view() == (CollectState {
                bq_stack: mark_seen(old(self).view().bq_stack),
                ..old(self).view()
            }),
    {
        let n = self.bq_stack.len();
        if n > 0 {
            self.bq_stack.set(n - 1, true);
        }
    }

    fn blockquote_step(&mut self, e: &MdEvent, re: &SearchRegex, alerts: &AlertBundle) -> (done:
        bool)
        ensures
            (final(self).view(), done) == blockquote_step(old(self).view(), *e, re.spec(), alerts),
    {
        match e {
            MdEvent::Start(MdTag::BlockQuote) => {
                self.flush_run(re);
                self.flush_pending(re);
                self.bq_stack.push(false);
                self.in_bq_first_run = false;
                false
            },
            MdEvent::End(MdTag::BlockQuote) => {
                self.flush_run(re);
                self.flush_pending(re);
                self.in_bq_first_run = false;
                let _ = self.bq_stack.pop();
                assert(self.bq_stack@ =~= (if old(self).bq_stack@.len() > 0 {
                    old(self).bq_stack@.drop_last()
                } else {
                    old(self).bq_stack@
                }));
                false
            },
            MdEvent::Start(MdTag::Paragraph) => {
                let n = self.bq_stack.len();
                if n > 0 && !self.bq_stack[n - 1] {
                    self.in_bq_first_run = true;
                    self.pending = Vec::new();
                    assert(pending_view(self.pending@) =~= Seq::empty());
                }
                false
            },
            MdEvent::End(MdTag::Paragraph) => {
                if self.in_bq_first_run {
                    self.decide_alert(re, alerts);
                    self.in_bq_first_run = false;
                    self.mark_seen();
                }
                false
            },
            MdEvent::SoftBreak | MdEvent::HardBreak => {
                if self.in_bq_first_run {
                    self.decide_alert(re, alerts);
                    self.in_bq_first_run = false;
                    self.mark_seen();
                    true
                } else {
                    false
                }
            },
            _ => false,
        }
    }

    fn run_step(&mut self, e: &SpannedEvent, re: &SearchRegex)
        ensures
            final(self).view() == run_step(old(self).view(), e.0, e.1, re.spec()),
    {
        let range = Range { start: e.1.start, end: e.1.end };
        match &e.0 {
            MdEvent::Text(t) | MdEvent::Code(t) => {
                if self.in_bq_first_run {
                    self.pending.push((t.clone(), range));
                    assert(pending_view(self.pending@) =~= pending_view(old(self).pending@).push(
                        (t@, e.1),
                    ));
                } else {
                    let off = self.run_text.as_str().len();
                    self.run_segs.push((off, range));
                    self.run_text.append(t.as_str());
                }
            },
            MdEvent::SoftBreak => {
                if !self.in_bq_first_run {
                    self.run_text.append(" ");
                    proof {
                        reveal_strlit(" ");
                    }
                    assert(self.run_text@ =~= old(self).run_text@.push(' '));
                }
            },
            MdEvent::Start(t) | MdEvent::End(t) => {
                match t {
                    MdTag::Emphasis | MdTag::Strong | MdTag::Strikethrough | MdTag::Link => {},
                    _ => {
                        self.flush_run(re);
                    },
                }
            },
            _ => {
                self.flush_run(re);
            },
        }
    }
}

/// The number of leading segments that start at or before `x`.
fn count_le_exec(segs: &Vec<Segment>, x: usize) -> (res: usize)
    ensures
        res == count_le(segs@, x),
        res <= segs@.len(),
{
    let mut i: usize = 0;
    assert(segs@.skip(0) =~= segs@);
    while i < segs.len()
        invariant
            i <= segs@.len(),
            count_le(segs@, x) == i + count_le(segs@.skip(i as int), x),
        decreases segs@.len() - i,
    {
        assert(segs@.skip(i as int)[0] == segs@[i as int]);
        if segs[i].0 > x {
            return i;
        }
        assert(segs@.skip(i as int).drop_first() =~= segs@.skip(i + 1));
        i = i + 1;
    }
    i
}

/// The number of leading segments that start before `x`.
fn count_lt_exec(segs: &Vec<Segment>, x: usize) -> (res: usize)
    ensures
        res == count_lt(segs@, x),
        res <= segs@.len(),
{
    let mut i: usize = 0;
    assert(segs@.skip(0) =~= segs@);
    while i < segs.len()
        invariant
            i <= segs@.len(),
            count_lt(segs@, x) == i + count_lt(segs@.skip(i as int), x),
        decreases segs@.len() - i,
    {
        assert(segs@.skip(i as int)[0] == segs@[i as int]);
        if segs[i].0 >= x {
            return i;
        }
        assert(segs@.skip(i as int).drop_first() =~= segs@.skip(i + 1));
        i = i + 1;
    }
    i
}

/// The source range of the match `m` of a run (see [`match_source`]).
fn match_source_exec(segs: &Vec<Segment>, m: (usize, usize)) -> (res: Option<Range<usize>>)
    requires
        segs@.len() > 0,
    ensures
        res == match_source(segs@, m),
{
    let cl = count_le_exec(segs, m.0);
    let ct = count_lt_exec(segs, m.1);
    let si = if cl > 0 {
        cl - 1
    } else {
        0
    };
    let ei = if ct > 0 {
        ct - 1
    } else {
        0
    };
    let so = segs[si].0;
    let eo = segs[ei].0;
    if m.0 < so || m.1 < eo {
        return None;
    }
    match (segs[si].1.start.checked_add(m.0 - so), segs[ei].1.start.checked_add(m.1 - eo)) {
        (Some(start), Some(end)) => Some(Range { start, end }),
        _ => None,
    }
}

/// The source ranges of the matches of `re` in the rendered text of
/// `events`: text and code events of one inline context are searched as a
/// unit (soft breaks join as a space), and the first line of a blockquote
/// that is an alert marker is searched as the alert's title, each title
/// match covering the marker's source range.
pub fn collect_search_ranges(
    events: &[SpannedEvent],
    re: &SearchRegex,
    alerts: &AlertBundle,
) -> (res: Vec<Range<usize>>)
    ensures
        res@ == spec_collect_search_ranges(events@, re.spec(), alerts),
{
    let mut c = Collector::new();
    let mut i: usize = 0;
    while i < events.len()
        invariant
            i <= events@.len(),
            c.view() == collect_events(events@.take(i as int), re.spec(), alerts),
        decreases events@.len() - i,
    {
        proof {
            assert(events@.take(i + 1).drop_last() =~= events@.take(i as int));
            assert(events@.take(i + 1).last() == events@[i as int]);
        }
        let done = c.blockquote_step(&events[i].0, re, alerts);
        if !done {
            c.run_step(&events[i], re);
        }
        i = i + 1;
    }
    assert(events@.take(events@.len() as int) =~= events@);
    c.flush_run(re);
    c.decide_alert(re, alerts);
    c.out
}

} // verus!
