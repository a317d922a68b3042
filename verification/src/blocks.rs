//! The pieces of markdown that the renderer gathers before it draws them as
//! one widget: styled text runs, links, images and code blocks, and what
//! each of them shows of the search matches.

use crate::matches::{byte_len, lemma_byte_len_concat};
use crate::misc::LinkHooks;
use crate::options::CommonMarkOptions;
use crate::search::{
    chunked_search_intervals, local_interval, min_usize, sat_sub, spec_chunked_search_intervals,
    Interval,
};
use std::ops::Range;
use vstd::prelude::*;

verus! {

/// The text style that a run of markdown text is drawn in.
#[derive(Clone, Copy, PartialEq, Eq, Structural, Debug)]
pub struct Style {
    /// The heading level, counted from 0 for `#`.
    pub heading: Option<u8>,
    pub strong: bool,
    pub emphasis: bool,
    pub strikethrough: bool,
    pub quote: bool,
    pub code: bool,
}

/// Body text: no heading, no emphasis of any kind.
pub open spec fn plain_style() -> Style {
    Style {
        heading: None,
        strong: false,
        emphasis: false,
        strikethrough: false,
        quote: false,
        code: false,
    }
}

impl Default for Style {
    fn default() -> (res: Self)
        ensures
            res == plain_style(),
    {
        Style {
            heading: None,
            strong: false,
            emphasis: false,
            strikethrough: false,
            quote: false,
            code: false,
        }
    }
}

/// How a heading's text is sized: as the theme's heading style, or
/// between the body size and the heading size.
#[derive(Clone, Copy, PartialEq, Eq, Structural, Debug)]
pub enum HeadingSize {
    /// The theme's own heading style, in bold.
    Heading,
    /// `body + (heading - body) * thousandths / 1000`, in bold when `strong`.
    Scaled { strong: bool, thousandths: u16 },
}

/// The size of a heading of `level`: the first level takes the heading
/// style, the next five shrink towards the body size, and every deeper
/// level is drawn as the sixth.
pub open spec fn spec_heading_size(level: u8) -> HeadingSize {
    if level == 0 {
        HeadingSize::Heading
    } else if level == 1 {
        HeadingSize::Scaled { strong: true, thousandths: 835 }
    } else if level == 2 {
        HeadingSize::Scaled { strong: true, thousandths: 668 }
    } else if level == 3 {
        HeadingSize::Scaled { strong: true, thousandths: 501 }
    } else if level == 4 {
        HeadingSize::Scaled { strong: false, thousandths: 334 }
    } else {
        HeadingSize::Scaled { strong: false, thousandths: 167 }
    }
}

impl Style {
    /// How the text is sized, if it is a heading.
    pub fn heading_size(&self) -> (res: Option<HeadingSize>)
        ensures
            res == match self.heading {
                Some(level) => Some(spec_heading_size(level)),
                None => None,
            },
    {
        match self.heading {
            Some(level) => {
                let size = if level == 0 {
                    HeadingSize::Heading
                } else if level == 1 {
                    HeadingSize::Scaled { strong: true, thousandths: 835 }
                } else if level == 2 {
                    HeadingSize::Scaled { strong: true, thousandths: 668 }
                } else if level == 3 {
                    HeadingSize::Scaled { strong: true, thousandths: 501 }
                } else if level == 4 {
                    HeadingSize::Scaled { strong: false, thousandths: 334 }
                } else {
                    HeadingSize::Scaled { strong: false, thousandths: 167 }
                };
                Some(size)
            },
            None => None,
        }
    }
}

/// A run of text with the style it is drawn in.
#[derive(PartialEq, Eq, Debug)]
pub struct StyledText {
    pub style: Style,
    pub text: String,
}

impl StyledText {
    pub fn new(style: Style, text: String) -> (res: Self)
        ensures
            res.style == style,
            res.text == text,
    {
        StyledText { style, text }
    }
}

/// A link's destination and the styled runs of its text.
#[derive(PartialEq, Eq, Debug)]
pub struct StyledLink {
    pub destination: String,
    pub text: Vec<StyledText>,
}

/// An image's location and the styled runs of its alt text.
#[derive(PartialEq, Eq, Debug)]
pub struct StyledImage {
    pub uri: String,
    pub alt_text: Vec<StyledText>,
}

/// A fenced code block: its language tag and its text.
#[derive(PartialEq, Eq, Debug)]
pub struct FencedCodeBlock {
    pub lang: String,
    pub content: String,
}

/// A code block gathered from the text events inside it.
#[derive(PartialEq, Eq, Debug)]
pub struct CodeBlock {
    pub lang: Option<String>,
    pub content: String,
    /// For each piece of text appended to `content`, its byte range within
    /// `content` and its byte range in the markdown source.
    pub chunks: Vec<(Range<usize>, Range<usize>)>,
}

impl Default for CodeBlock {
    fn default() -> (res: Self)
        ensures
            res.lang is None,
            res.content@ == Seq::<char>::empty(),
            res.chunks@ == Seq::<(Range<usize>, Range<usize>)>::empty(),
    {
        CodeBlock { lang: None, content: String::new(), chunks: Vec::new() }
    }
}

impl CodeBlock {
    /// Appends `text` to the content and records where it went, with its
    /// source span.
    pub fn push_text(&mut self, text: &str, src_span: Range<usize>)
        requires
            byte_len(old(self).content@) + byte_len(text@) <= usize::MAX,
        ensures
            final(self).lang == old(self).lang,
            final(self).content@ == old(self).content@ + text@,
            final(self).chunks@ == old(self).chunks@.push(
                (
                    Range {
                        start: byte_len(old(self).content@) as usize,
                        end: (byte_len(old(self).content@) + byte_len(text@)) as usize,
                    },
                    src_span,
                ),
            ),
    {
        let start = self.content.as_str().len();
        self.content.append(text);
        proof {
            lemma_byte_len_concat(old(self).content@, text@);
        }
        let end = self.content.as_str().len();
        self.chunks.push((Range { start, end }, src_span));
    }
}

/// The matches that cover some of one chunk's text: each match's index in
/// `ranges` and the bytes of the assembled text that it covers.
pub open spec fn chunk_matches(
    local: Range<usize>,
    src: Range<usize>,
    ranges: Seq<Range<usize>>,
) -> Seq<(usize, Range<usize>)>
    decreases ranges.len(),
{
    if ranges.len() == 0 {
        Seq::empty()
    } else {
        let rest = chunk_matches(local, src, ranges.drop_last());
        match local_interval(ranges.last(), None, src, sat_sub(local.end, local.start)) {
            Some(iv) => rest.push(
                (
                    (ranges.len() - 1) as usize,
                    Range {
                        start: (iv.0.start + local.start) as usize,
                        end: (iv.0.end + local.start) as usize,
                    },
                ),
            ),
            None => rest,
        }
    }
}

/// The matches of every chunk, chunk by chunk.
pub open spec fn code_block_matches(
    chunks: Seq<(Range<usize>, Range<usize>)>,
    ranges: Seq<Range<usize>>,
) -> Seq<(usize, Range<usize>)>
    decreases chunks.len(),
{
    if chunks.len() == 0 {
        Seq::empty()
    } else {
        code_block_matches(chunks.drop_last(), ranges) + chunk_matches(
            chunks.last().0,
            chunks.last().1,
            ranges,
        )
    }
}

/// The range of the first active interval.
pub open spec fn first_active(ivs: Seq<Interval>) -> Option<Range<usize>>
    decreases ivs.len(),
{
    if ivs.len() == 0 {
        None
    } else if ivs[0].1 {
        Some(ivs[0].0)
    } else {
        first_active(ivs.drop_first())
    }
}

/// What a code block shows of the search matches.
#[derive(PartialEq, Eq, Debug)]
pub struct CodeBlockPlan {
    /// The highlight intervals, in the block's bytes, sorted by start.
    pub intervals: Vec<Interval>,
    /// The bytes to scroll to: the active match's, when a scroll to it was
    /// asked for and it is in this block.
    pub scroll_to: Option<Range<usize>>,
    /// Each match in the block: its index among the search matches and the
    /// bytes of the block that it covers.
    pub matches: Vec<(usize, Range<usize>)>,
}

fn chunk_matches_exec(
    local: &Range<usize>,
    src: &Range<usize>,
    ranges: &[Range<usize>],
    out: &mut Vec<(usize, Range<usize>)>,
)
    ensures
        final(out)@ == old(out)@ + chunk_matches(*local, *src, ranges@),
{
    let chunk_len = local.end.saturating_sub(local.start);
    let ghost before = old(out)@;
    let mut i: usize = 0;
    while i < ranges.len()
        invariant
            i <= ranges@.len(),
            chunk_len == sat_sub(local.end, local.start),
            out@ == before + chunk_matches(*local, *src, ranges@.take(i as int)),
        decreases ranges@.len() - i,
    {
        let r = &ranges[i];
        proof {
            let t = ranges@.take(i + 1);
            assert(t.drop_last() =~= ranges@.take(i as int));
            assert(t.last() == ranges@[i as int]);
        }
        if r.start < r.end && r.start < src.end && r.end > src.start {
            let s0 = r.start.saturating_sub(src.start);
            let e0 = r.end.saturating_sub(src.start);
            let s = if s0 <= chunk_len { s0 } else { chunk_len };
            let e = if e0 <= chunk_len { e0 } else { chunk_len };
            if s < e {
                out.push((i, Range { start: s + local.start, end: e + local.start }));
            }
        }
        i = i + 1;
    }
    assert(ranges@.take(ranges@.len() as int) =~= ranges@);
}

impl CodeBlock {
    /// What the block shows of the search matches `ranges`, of which
    /// `active` is the active one; `want_scroll` says whether a scroll to
    /// the active match was asked for.
    pub fn plan(
        &self,
        ranges: &[Range<usize>],
        active: Option<&Range<usize>>,
        want_scroll: bool,
    ) -> (res: CodeBlockPlan)
        ensures
            res.intervals@ == spec_chunked_search_intervals(self.chunks@, ranges@, active),
            res.scroll_to == (if want_scroll {
                first_active(res.intervals@)
            } else {
                None
            }),
            res.matches@ == code_block_matches(self.chunks@, ranges@),
    {
        let intervals = chunked_search_intervals(self.chunks.as_slice(), ranges, active);
        let mut scroll_to: Option<Range<usize>> = None;
        if want_scroll {
            let mut k: usize = 0;
            assert(intervals@.skip(0) =~= intervals@);
            while k < intervals.len()
                invariant_except_break
                    k <= intervals@.len(),
                    scroll_to is None,
                    first_active(intervals@) == first_active(intervals@.skip(k as int)),
                ensures
                    scroll_to == first_active(intervals@),
                decreases intervals@.len() - k,
            {
                proof {
                    assert(intervals@.skip(k as int).drop_first() =~= intervals@.skip(k + 1));
                    assert(intervals@.skip(k as int)[0] == intervals@[k as int]);
                }
                if intervals[k].1 {
                    scroll_to = Some(Range { start: intervals[k].0.start, end: intervals[k].0.end });
                    break;
                }
                k = k + 1;
            }
        }
        let mut matches: Vec<(usize, Range<usize>)> = Vec::new();
        let mut c: usize = 0;
        while c < self.chunks.len()
            invariant
                c <= self.chunks@.len(),
                matches@ == code_block_matches(self.chunks@.take(c as int), ranges@),
            decreases self.chunks@.len() - c,
        {
            proof {
                let t = self.chunks@.take(c + 1);
                assert(t.drop_last() =~= self.chunks@.take(c as int));
                assert(t.last() == self.chunks@[c as int]);
            }
            chunk_matches_exec(&self.chunks[c].0, &self.chunks[c].1, ranges, &mut matches);
            c = c + 1;
        }
        assert(self.chunks@.take(self.chunks@.len() as int) =~= self.chunks@);
        CodeBlockPlan { intervals, scroll_to, matches }
    }
}

/// The total UTF-8 length of the runs' text.
pub open spec fn runs_byte_len(runs: Seq<StyledText>) -> nat
    decreases runs.len(),
{
    if runs.len() == 0 {
        0
    } else {
        runs_byte_len(runs.drop_last()) + byte_len(runs.last().text@)
    }
}

proof fn lemma_runs_prefix(runs: Seq<StyledText>, i: int)
    requires
        0 <= i <= runs.len(),
    ensures
        runs_byte_len(runs.take(i)) <= runs_byte_len(runs),
    decreases runs.len(),
{
    if i < runs.len() {
        assert(runs.drop_last().take(i) =~= runs.take(i));
        lemma_runs_prefix(runs.drop_last(), i);
    } else {
        assert(runs.take(i) =~= runs);
    }
}

/// The smallest source start of the chunks, `usize::MAX` if there are none.
pub open spec fn chunks_src_start(chunks: Seq<(Range<usize>, Range<usize>)>) -> usize
    decreases chunks.len(),
{
    if chunks.len() == 0 {
        usize::MAX
    } else {
        min_usize(chunks_src_start(chunks.drop_last()), chunks.last().1.start)
    }
}

/// The largest source end of the chunks, 0 if there are none.
pub open spec fn chunks_src_end(chunks: Seq<(Range<usize>, Range<usize>)>) -> usize
    decreases chunks.len(),
{
    if chunks.len() == 0 {
        0
    } else if chunks_src_end(chunks.drop_last()) >= chunks.last().1.end {
        chunks_src_end(chunks.drop_last())
    } else {
        chunks.last().1.end
    }
}

/// The indices, in order, of the ranges that start before `hi` and end
/// after `lo`.
pub open spec fn indices_touching(ranges: Seq<Range<usize>>, lo: usize, hi: usize) -> Seq<usize>
    decreases ranges.len(),
{
    if ranges.len() == 0 {
        Seq::empty()
    } else {
        let rest = indices_touching(ranges.drop_last(), lo, hi);
        if ranges.last().start < hi && ranges.last().end > lo {
            rest.push((ranges.len() - 1) as usize)
        } else {
            rest
        }
    }
}

fn indices_touching_exec(ranges: &[Range<usize>], lo: usize, hi: usize) -> (res: Vec<usize>)
    ensures
        res@ == indices_touching(ranges@, lo, hi),
{
    let mut out: Vec<usize> = Vec::new();
    let mut i: usize = 0;
    while i < ranges.len()
        invariant
            i <= ranges@.len(),
            out@ == indices_touching(ranges@.take(i as int), lo, hi),
        decreases ranges@.len() - i,
    {
        proof {
            let t = ranges@.take(i + 1);
            assert(t.drop_last() =~= ranges@.take(i as int));
            assert(t.last() == ranges@[i as int]);
        }
        if ranges[i].start < hi && ranges[i].end > lo {
            out.push(i);
        }
        i = i + 1;
    }
    assert(ranges@.take(ranges@.len() as int) =~= ranges@);
    out
}

/// Whether some interval is the active match.
pub open spec fn any_active(ivs: Seq<Interval>) -> bool {
    exists|k: int| 0 <= k < ivs.len() && #[trigger] ivs[k].1
}

fn any_active_exec(ivs: &[Interval]) -> (res: bool)
    ensures
        res == any_active(ivs@),
{
    let mut k: usize = 0;
    while k < ivs.len()
        invariant
            k <= ivs@.len(),
            forall|q: int| 0 <= q < k ==> !(#[trigger] ivs@[q].1),
        decreases ivs@.len() - k,
    {
        if ivs[k].1 {
            assert(ivs@[k as int].1);
            return true;
        }
        k = k + 1;
    }
    false
}

/// Where a click on a link leads.
#[derive(PartialEq, Eq, Debug)]
pub enum LinkTarget {
    /// The destination is a link hook: the click is recorded on it.
    Hook,
    /// The heading with this id, scrolled to.
    Heading(String),
    /// The destination itself, opened as a hyperlink.
    External,
}

/// How a link is drawn, and what it shows of the search matches.
#[derive(PartialEq, Eq, Debug)]
pub struct LinkPlan {
    /// The highlight intervals, in the bytes of the link's text.
    pub intervals: Vec<Interval>,
    /// Whether the active match is in the link's text.
    pub has_active_match: bool,
    pub target: LinkTarget,
    /// The indices of the search matches that touch the link's source.
    pub matched: Vec<usize>,
}

/// A link being gathered: its destination and the styled runs of its text,
/// each with its place in the text and its source span.
#[derive(PartialEq, Eq, Debug)]
pub struct Link {
    pub destination: String,
    pub text: Vec<StyledText>,
    /// For each run, its byte range within the link's text and its byte
    /// range in the markdown source.
    pub chunks: Vec<(Range<usize>, Range<usize>)>,
}

impl Link {
    /// A link to `destination` with no text yet.
    pub fn new(destination: String) -> (res: Self)
        ensures
            res.destination == destination,
            res.text@.len() == 0,
            res.chunks@.len() == 0,
    {
        Link { destination, text: Vec::new(), chunks: Vec::new() }
    }

    /// Appends a run of link text, recording where it goes in the link's
    /// text and its source span.
    pub fn push_text(&mut self, text: StyledText, src_span: Range<usize>)
        requires
            runs_byte_len(old(self).text@) + byte_len(text.text@) <= usize::MAX,
        ensures
            final(self).destination == old(self).destination,
            final(self).text@ == old(self).text@.push(text),
            final(self).chunks@ == old(self).chunks@.push(
                (
                    Range {
                        start: runs_byte_len(old(self).text@) as usize,
                        end: (runs_byte_len(old(self).text@) + byte_len(text.text@)) as usize,
                    },
                    src_span,
                ),
            ),
    {
        let mut total: usize = 0;
        let mut i: usize = 0;
        while i < self.text.len()
            invariant
                i <= self.text@.len(),
                total == runs_byte_len(self.text@.take(i as int)),
                runs_byte_len(self.text@) + byte_len(text.text@) <= usize::MAX,
            decreases self.text@.len() - i,
        {
            proof {
                let t = self.text@.take(i + 1);
                assert(t.drop_last() =~= self.text@.take(i as int));
                assert(t.last() == self.text@[i as int]);
                lemma_runs_prefix(self.text@, i + 1);
            }
            total = total + self.text[i].text.as_str().len();
            i = i + 1;
        }
        assert(self.text@.take(self.text@.len() as int) =~= self.text@);
        let len = text.text.as_str().len();
        self.chunks.push((Range { start: total, end: total + len }, src_span));
        self.text.push(text);
    }

    /// How the link is drawn, given the search matches `ranges` (of which
    /// `active` is the active one), the link hooks and whether links to
    /// `#id` scroll to headings; `None` where the link has no text (a link
    /// around an image), which draws nothing.
    pub fn plan(
        &self,
        ranges: &[Range<usize>],
        active: Option<&Range<usize>>,
        hooks: &LinkHooks,
        enable_scroll_to_heading: bool,
    ) -> (res: Option<LinkPlan>)
        ensures
            res is None <==> self.text@.len() == 0,
            res matches Some(p) ==> {
                &&& p.intervals@ == (if ranges@.len() == 0 {
                    Seq::<Interval>::empty()
                } else {
                    spec_chunked_search_intervals(self.chunks@, ranges@, active)
                })
                &&& p.has_active_match == any_active(p.intervals@)
                &&& p.matched@ == indices_touching(
                    ranges@,
                    chunks_src_start(self.chunks@),
                    chunks_src_end(self.chunks@),
                )
                &&& hooks@.contains_key(self.destination@) ==> p.target is Hook
                &&& (!hooks@.contains_key(self.destination@) && enable_scroll_to_heading
                    && self.destination@.len() > 0 && self.destination@[0] == '#') ==> (
                p.target matches LinkTarget::Heading(id) && id@ == self.destination@.drop_first())
                &&& (!hooks@.contains_key(self.destination@) && !(enable_scroll_to_heading
                    && self.destination@.len() > 0 && self.destination@[0] == '#'))
                    ==> p.target is External
            },
    {
        if self.text.len() == 0 {
            return None;
        }
        let intervals = if ranges.len() == 0 {
            Vec::new()
        } else {
            chunked_search_intervals(self.chunks.as_slice(), ranges, active)
        };
        let has_active_match = any_active_exec(intervals.as_slice());
        let dest = self.destination.as_str();
        let target = if hooks.contains_key(dest) {
            LinkTarget::Hook
        } else if enable_scroll_to_heading && dest.unicode_len() > 0 && dest.get_char(0) == '#' {
            let n = dest.unicode_len();
            LinkTarget::Heading(String::from_str(dest.substring_char(1, n)))
        } else {
            LinkTarget::External
        };
        let mut lo: usize = usize::MAX;
        let mut hi: usize = 0;
        let mut c: usize = 0;
        while c < self.chunks.len()
            invariant
                c <= self.chunks@.len(),
                lo == chunks_src_start(self.chunks@.take(c as int)),
                hi == chunks_src_end(self.chunks@.take(c as int)),
            decreases self.chunks@.len() - c,
        {
            proof {
                let t = self.chunks@.take(c + 1);
                assert(t.drop_last() =~= self.chunks@.take(c as int));
                assert(t.last() == self.chunks@[c as int]);
            }
            if self.chunks[c].1.start < lo {
                lo = self.chunks[c].1.start;
            }
            if self.chunks[c].1.end > hi {
                hi = self.chunks[c].1.end;
            }
            c = c + 1;
        }
        assert(self.chunks@.take(self.chunks@.len() as int) =~= self.chunks@);
        let matched = indices_touching_exec(ranges, lo, hi);
        Some(LinkPlan { intervals, has_active_match, target, matched })
    }
}

/// The UTF-8 bytes of `b` contain `://`.
pub open spec fn has_scheme_separator(b: Seq<u8>) -> bool {
    exists|i: int|
        0 <= i && i + 3 <= b.len() && #[trigger] b[i] == 58u8 && b[i + 1] == 47u8 && b[i + 2]
            == 47u8
}

/// The UTF-8 bytes of `b` start with `data:`.
pub open spec fn is_data_url(b: Seq<u8>) -> bool {
    &&& b.len() >= 5
    &&& b[0] == 100u8
    &&& b[1] == 97u8
    &&& b[2] == 116u8
    &&& b[3] == 97u8
    &&& b[4] == 58u8
}

/// The image location `uri` names its scheme: it contains `://` or is a
/// `data:` URL.
pub open spec fn has_scheme(uri: Seq<char>) -> bool {
    has_scheme_separator(vstd::utf8::encode_utf8(uri)) || is_data_url(vstd::utf8::encode_utf8(uri))
}

fn has_scheme_exec(uri: &str) -> (res: bool)
    ensures
        res == has_scheme(uri@),
{
    let b = uri.as_bytes();
    let mut i: usize = 0;
    while 3 <= b.len() - i
        invariant
            i <= b@.len(),
            b@ == vstd::utf8::encode_utf8(uri@),
            forall|j: int|
                0 <= j < i && j + 3 <= b@.len() ==> !(#[trigger] b@[j] == 58u8 && b@[j + 1] == 47u8
                    && b@[j + 2] == 47u8),
        decreases b@.len() - i,
    {
        if b[i] == 58u8 && b[i + 1] == 47u8 && b[i + 2] == 47u8 {
            assert(has_scheme_separator(b@));
            return true;
        }
        i = i + 1;
    }
    proof {
        assert forall|j: int| 0 <= j && j + 3 <= b@.len() implies !(#[trigger] b@[j] == 58u8 && b@[j
            + 1] == 47u8 && b@[j + 2] == 47u8) by {
            assert(j < i);
        }
    }
    b.len() >= 5 && b[0] == 100u8 && b[1] == 97u8 && b[2] == 116u8 && b[3] == 97u8 && b[4] == 58u8
}

/// What an image shows of the search matches.
#[derive(PartialEq, Eq, Debug)]
pub struct ImagePlan {
    /// Whether the active match touches the image's alt text.
    pub has_active_match: bool,
    /// The indices of the non-empty search matches that touch the alt text.
    pub matched: Vec<usize>,
}

/// Whether `r` starts before the end of some span and ends after its start.
pub open spec fn touches_any(r: Range<usize>, spans: Seq<Range<usize>>) -> bool {
    exists|k: int| 0 <= k < spans.len() && r.start < (#[trigger] spans[k]).end && r.end > spans[k].start
}

fn touches_any_exec(r: &Range<usize>, spans: &[Range<usize>]) -> (res: bool)
    ensures
        res == touches_any(*r, spans@),
{
    let mut k: usize = 0;
    while k < spans.len()
        invariant
            k <= spans@.len(),
            forall|q: int| 0 <= q < k ==> !(r.start < (#[trigger] spans@[q]).end && r.end > spans@[q].start),
        decreases spans@.len() - k,
    {
        if r.start < spans[k].end && r.end > spans[k].start {
            assert(r.start < spans@[k as int].end);
            return true;
        }
        k = k + 1;
    }
    false
}

/// The indices, in order, of the non-empty ranges that touch some span.
pub open spec fn indices_touching_spans(ranges: Seq<Range<usize>>, spans: Seq<Range<usize>>) -> Seq<
    usize,
>
    decreases ranges.len(),
{
    if ranges.len() == 0 {
        Seq::empty()
    } else {
        let rest = indices_touching_spans(ranges.drop_last(), spans);
        let r = ranges.last();
        if r.start < r.end && touches_any(r, spans) {
            rest.push((ranges.len() - 1) as usize)
        } else {
            rest
        }
    }
}

/// An image being gathered: its location and the styled runs of its alt
/// text, with the source span of each.
#[derive(PartialEq, Eq, Debug)]
pub struct Image {
    pub uri: String,
    pub alt_text: Vec<StyledText>,
    pub alt_src_spans: Vec<Range<usize>>,
}

/// Where an image written as `uri` is loaded from: `uri` as written where
/// explicit schemes are in use or it names its scheme, else with the
/// default scheme put in front.
pub open spec fn image_uri(uri: Seq<char>, options: &CommonMarkOptions) -> Seq<char> {
    if options.use_explicit_uri_scheme || has_scheme(uri) {
        uri
    } else {
        options.default_implicit_uri_scheme@ + uri
    }
}

impl Image {
    /// An image at `uri`: taken as written where explicit schemes are in
    /// use or it names its scheme, else with the default scheme put in
    /// front.
    pub fn new(uri: &str, options: &CommonMarkOptions) -> (res: Self)
        ensures
            res.uri@ == image_uri(uri@, options),
            res.alt_text@.len() == 0,
            res.alt_src_spans@.len() == 0,
    {
        let full = if options.use_explicit_uri_scheme || has_scheme_exec(uri) {
            String::from_str(uri)
        } else {
            let mut s = options.default_implicit_uri_scheme.clone();
            s.append(uri);
            s
        };
        Image { uri: full, alt_text: Vec::new(), alt_src_spans: Vec::new() }
    }

    /// Appends a run of alt text with its source span.
    pub fn push_alt_text(&mut self, text: StyledText, src_span: Range<usize>)
        ensures
            final(self).uri == old(self).uri,
            final(self).alt_text@ == old(self).alt_text@.push(text),
            final(self).alt_src_spans@ == old(self).alt_src_spans@.push(src_span),
    {
        self.alt_text.push(text);
        self.alt_src_spans.push(src_span);
    }

    /// What the image shows of the search matches `ranges`, of which
    /// `active` is the active one: nothing where there are no matches or
    /// no alt text.
    pub fn plan(&self, ranges: &[Range<usize>], active: Option<&Range<usize>>) -> (res: ImagePlan)
        ensures
            ranges@.len() == 0 || self.alt_src_spans@.len() == 0 ==> {
                &&& !res.has_active_match
                &&& res.matched@.len() == 0
            },
            ranges@.len() > 0 && self.alt_src_spans@.len() > 0 ==> {
                &&& res.has_active_match == match active {
                    Some(a) => touches_any(*a, self.alt_src_spans@),
                    None => false,
                }
                &&& res.matched@ == indices_touching_spans(ranges@, self.alt_src_spans@)
            },
    {
        if ranges.len() == 0 || self.alt_src_spans.len() == 0 {
            return ImagePlan { has_active_match: false, matched: Vec::new() };
        }
        let spans = self.alt_src_spans.as_slice();
        let has_active_match = match active {
            Some(a) => touches_any_exec(a, spans),
            None => false,
        };
        let mut matched: Vec<usize> = Vec::new();
        let mut i: usize = 0;
        while i < ranges.len()
            invariant
                i <= ranges@.len(),
                spans@ == self.alt_src_spans@,
                matched@ == indices_touching_spans(ranges@.take(i as int), spans@),
            decreases ranges@.len() - i,
        {
            proof {
                let t = ranges@.take(i + 1);
                assert(t.drop_last() =~= ranges@.take(i as int));
                assert(t.last() == ranges@[i as int]);
            }
            if ranges[i].start < ranges[i].end && touches_any_exec(&ranges[i], spans) {
                matched.push(i);
            }
            i = i + 1;
        }
        assert(ranges@.take(ranges@.len() as int) =~= ranges@);
        ImagePlan { has_active_match, matched }
    }
}

} // verus!
