//! Markdown events as the library reads them, the parser that produces
//! them, and the grouping of events that the renderer draws as one widget.

use pulldown_cmark::CodeBlockKind as K;
use pulldown_cmark::Event as E;
use pulldown_cmark::HeadingLevel as H;
use pulldown_cmark::Tag as P;
use pulldown_cmark::TagEnd as T;
use crate::render::{EndTag, StartTag};
use crate::alerts::{spec_to_uppercase, try_get_alert, Alert, AlertBundle};
use std::ops::Range;
use vstd::prelude::*;

verus! {

#[verifier::external_type_specification]
#[verifier::external_body]
pub struct ExEvent<'a>(pulldown_cmark::Event<'a>);

#[verifier::external_type_specification]
#[verifier::external_body]
pub struct ExTag<'a>(pulldown_cmark::Tag<'a>);

#[verifier::external_type_specification]
#[verifier::external_body]
pub struct ExTagEnd(pulldown_cmark::TagEnd);

#[verifier::external_type_specification]
pub struct ExHeadingLevel(pulldown_cmark::HeadingLevel);

/// A markdown event as the renderer reads it: what the parser reports,
/// with its text as owned strings.
#[derive(PartialEq, Eq, Debug)]
pub enum RenderEvent {
    /// Start of an element.
    Start(StartTag),
    /// End of an element.
    End(EndTag),
    /// Plain text.
    Text(String),
    /// An inline code span.
    Code(String),
    /// Inline math (`$..$`).
    InlineMath(String),
    /// Display math (`$$..$$`).
    DisplayMath(String),
    /// A piece of an HTML block.
    Html(String),
    /// Inline HTML.
    InlineHtml(String),
    /// A reference to a footnote, by its label.
    FootnoteReference(String),
    /// A soft line break.
    SoftBreak,
    /// A hard line break.
    HardBreak,
    /// A horizontal rule.
    Rule,
    /// A task-list checkbox, and whether it is checked.
    TaskListMarker(bool),
}

/// The kinds of markdown elements that the library tells apart. Elements
/// that none of its logic distinguishes are `Other`.
#[derive(Clone, Copy, PartialEq, Eq, Structural, Debug)]
pub enum MdTag {
    Paragraph,
    BlockQuote,
    Emphasis,
    Strong,
    Strikethrough,
    Link,
    Table,
    TableHead,
    TableRow,
    TableCell,
    List,
    Item,
    DefinitionListDefinition,
    Other,
}

/// A markdown event as the library reads it.
#[derive(PartialEq, Eq, Debug)]
pub enum MdEvent {
    /// Start of an element.
    Start(MdTag),
    /// End of an element.
    End(MdTag),
    /// Plain text.
    Text(String),
    /// An inline code span.
    Code(String),
    /// Inline HTML.
    InlineHtml(String),
    /// A soft line break.
    SoftBreak,
    /// A hard line break.
    HardBreak,
    /// Any other event (rules, math, footnote references, task markers,
    /// HTML blocks).
    Other,
}

/// An event with its byte range in the markdown source.
pub type SpannedEvent = (MdEvent, Range<usize>);

impl MdEvent {
    /// A copy of the event.
    pub fn duplicate(&self) -> (res: MdEvent)
        ensures
            res == *self,
    {
        match self {
            MdEvent::Start(t) => MdEvent::Start(*t),
            MdEvent::End(t) => MdEvent::End(*t),
            MdEvent::Text(s) => MdEvent::Text(s.clone()),
            MdEvent::Code(s) => MdEvent::Code(s.clone()),
            MdEvent::InlineHtml(s) => MdEvent::InlineHtml(s.clone()),
            MdEvent::SoftBreak => MdEvent::SoftBreak,
            MdEvent::HardBreak => MdEvent::HardBreak,
            MdEvent::Other => MdEvent::Other,
        }
    }
}

/// A copy of an event and its span.
pub fn duplicate_spanned(e: &SpannedEvent) -> (res: SpannedEvent)
    ensures
        res == *e,
{
    (e.0.duplicate(), Range { start: e.1.start, end: e.1.end })
}

/// Tables, task lists, strikethrough, footnotes and definition lists.
pub const PARSER_OPTIONS: u32 = 0b1_0000_0001_1110;

/// Strikethrough, task lists, tables, footnotes and heading attributes: the
/// options that the search parses with.
pub const SEARCH_PARSER_OPTIONS: u32 = 0b0_0000_0101_1110;

/// Math support for the parser.
pub const ENABLE_MATH: u32 = 0b100_0000_0000;

/// Heading attributes (`{#id}`) for the parser.
pub const ENABLE_HEADING_ATTRIBUTES: u32 = 0b100_0000;

/// Supported parser options, as the bits of `pulldown_cmark::Options`.
pub fn parser_options() -> (res: u32)
    ensures
        res == PARSER_OPTIONS,
{
    PARSER_OPTIONS
}

/// The parser options, with math and heading attributes added on request.
pub open spec fn spec_parser_options_extras(
    is_math_enabled: bool,
    is_scroll_to_heading_enabled: bool,
) -> u32 {
    let with_math = if is_math_enabled {
        PARSER_OPTIONS | ENABLE_MATH
    } else {
        PARSER_OPTIONS
    };
    if is_scroll_to_heading_enabled {
        with_math | ENABLE_HEADING_ATTRIBUTES
    } else {
        with_math
    }
}

/// The parser options with math and heading attributes added on request.
pub fn parser_options_extras(is_math_enabled: bool, is_scroll_to_heading_enabled: bool) -> (res:
    u32)
    ensures
        res == spec_parser_options_extras(is_math_enabled, is_scroll_to_heading_enabled),
{
    let mut result = parser_options();
    if is_math_enabled {
        result = result | ENABLE_MATH;
    }
    if is_scroll_to_heading_enabled {
        result = result | ENABLE_HEADING_ATTRIBUTES;
    }
    result
}

/// The events that `pulldown_cmark` produces for `text` with the option
/// bits `options`, each with its source range, as the renderer reads them.
pub uninterp spec fn spec_render_events(text: Seq<char>, options: u32) -> Seq<(RenderEvent, Range<usize>)>;

/// The heading level of `pulldown_cmark::HeadingLevel`, counted from 0 for
/// `#`: one less than the number of `#`.
pub open spec fn spec_heading_level(l: pulldown_cmark::HeadingLevel) -> u8 {
    match l {
        H::H1 => 0,
        H::H2 => 1,
        H::H3 => 2,
        H::H4 => 3,
        H::H5 => 4,
        H::H6 => 5,
    }
}

/// The heading level of `pulldown_cmark::HeadingLevel`, counted from 0 for `#`.
fn heading_level(l: pulldown_cmark::HeadingLevel) -> (res: u8)
    ensures
        res == spec_heading_level(l),
{
    match l {
        H::H1 => 0,
        H::H2 => 1,
        H::H3 => 2,
        H::H4 => 3,
        H::H5 => 4,
        H::H6 => 5,
    }
}

/// The next deeper heading, with one `#` more; `None` after `######`.
pub open spec fn deeper_heading(l: pulldown_cmark::HeadingLevel) -> Option<pulldown_cmark::HeadingLevel> {
    match l {
        H::H1 => Some(H::H2),
        H::H2 => Some(H::H3),
        H::H3 => Some(H::H4),
        H::H4 => Some(H::H5),
        H::H5 => Some(H::H6),
        H::H6 => None,
    }
}

/// Heading levels count the `#` from 0: a `#` heading is level 0, each
/// `#` more adds one level, so the six headings get six different levels
/// 0 to 5.
pub proof fn lemma_heading_levels_count_hashes(a: pulldown_cmark::HeadingLevel, b: pulldown_cmark::HeadingLevel)
    ensures
        spec_heading_level(H::H1) == 0,
        deeper_heading(a) matches Some(d) ==> spec_heading_level(d) == spec_heading_level(a) + 1,
        deeper_heading(a) is None ==> spec_heading_level(a) == 5,
        spec_heading_level(a) == spec_heading_level(b) ==> a == b,
        spec_heading_level(a) < 6,
{
}

/// Reads a `pulldown_cmark::Tag` as a [`StartTag`], moving its text out:
/// the tags that carry text or numbers here, the others in
/// [`plain_start_tag`].
#[verifier::external_body]
fn start_tag(t: pulldown_cmark::Tag<'_>) -> StartTag {
    match t {
        P::Heading { level, id, .. } => StartTag::Heading { level: heading_level(level), id: id.map(String::from) },
        P::CodeBlock(K::Fenced(l)) => StartTag::CodeBlock { lang: Some(l.into_string()) },
        P::CodeBlock(K::Indented) => StartTag::CodeBlock { lang: None },
        P::List(start) => StartTag::List { start },
        P::FootnoteDefinition(n) => StartTag::FootnoteDefinition(n.into_string()),
        P::Link { dest_url, .. } => StartTag::Link { dest: dest_url.into_string() },
        P::Image { dest_url, .. } => StartTag::Image { dest: dest_url.into_string() },
        other => plain_start_tag(other),
    }
}

/// Reads a `pulldown_cmark::Tag` that carries nothing the renderer reads
/// as a [`StartTag`]; the others go to [`start_tag`].
#[verifier::external_body]
fn plain_start_tag(t: pulldown_cmark::Tag<'_>) -> StartTag {
    match t {
        P::Paragraph => StartTag::Paragraph, P::BlockQuote(_) => StartTag::BlockQuote, P::Item => StartTag::Item,
        P::Table(_) => StartTag::Table, P::TableHead => StartTag::TableHead, P::TableRow => StartTag::TableRow,
        P::TableCell => StartTag::TableCell, P::Emphasis => StartTag::Emphasis, P::Strong => StartTag::Strong,
        P::Strikethrough => StartTag::Strikethrough, P::HtmlBlock => StartTag::HtmlBlock,
        P::MetadataBlock(_) => StartTag::MetadataBlock, P::DefinitionList => StartTag::DefinitionList,
        P::DefinitionListTitle => StartTag::DefinitionListTitle,
        P::DefinitionListDefinition => StartTag::DefinitionListDefinition,
        P::Superscript => StartTag::Superscript, P::Subscript => StartTag::Subscript,
        other => start_tag(other),
    }
}

/// Reads a `pulldown_cmark::TagEnd` as an [`EndTag`]: the ends of block
/// elements here, the others in [`inline_end_tag`].
#[verifier::external_body]
fn end_tag(t: pulldown_cmark::TagEnd) -> EndTag {
    match t {
        T::Paragraph => EndTag::Paragraph, T::Heading(_) => EndTag::Heading, T::BlockQuote(_) => EndTag::BlockQuote,
        T::CodeBlock => EndTag::CodeBlock, T::List(_) => EndTag::List, T::Item => EndTag::Item,
        T::FootnoteDefinition => EndTag::FootnoteDefinition, T::Table => EndTag::Table, T::TableHead => EndTag::TableHead,
        T::TableRow => EndTag::TableRow, T::TableCell => EndTag::TableCell, T::HtmlBlock => EndTag::HtmlBlock,
        other => inline_end_tag(other),
    }
}

/// Reads the end of an inline element, a metadata block or a definition
/// list as an [`EndTag`]; the others go to [`end_tag`].
#[verifier::external_body]
fn inline_end_tag(t: pulldown_cmark::TagEnd) -> EndTag {
    match t {
        T::Emphasis => EndTag::Emphasis, T::Strong => EndTag::Strong, T::Strikethrough => EndTag::Strikethrough,
        T::Link => EndTag::Link, T::Image => EndTag::Image, T::MetadataBlock(_) => EndTag::MetadataBlock,
        T::DefinitionList => EndTag::DefinitionList, T::DefinitionListTitle => EndTag::DefinitionListTitle,
        T::DefinitionListDefinition => EndTag::DefinitionListDefinition,
        T::Superscript => EndTag::Superscript, T::Subscript => EndTag::Subscript,
        other => end_tag(other),
    }
}

/// Reads a `pulldown_cmark::Event` as a [`RenderEvent`], moving its text
/// out: tags, text, code and the events without text here, the others in
/// [`other_event`].
#[verifier::external_body]
fn render_event(e: pulldown_cmark::Event<'_>) -> RenderEvent {
    match e {
        E::Start(t) => RenderEvent::Start(start_tag(t)), E::End(t) => RenderEvent::End(end_tag(t)),
        E::Text(s) => RenderEvent::Text(s.into_string()), E::Code(s) => RenderEvent::Code(s.into_string()),
        E::SoftBreak => RenderEvent::SoftBreak, E::HardBreak => RenderEvent::HardBreak, E::Rule => RenderEvent::Rule,
        E::TaskListMarker(b) => RenderEvent::TaskListMarker(b),
        other => other_event(other),
    }
}

/// Reads math, HTML and footnote references as a [`RenderEvent`], moving
/// their text out; the others go to [`render_event`].
#[verifier::external_body]
fn other_event(e: pulldown_cmark::Event<'_>) -> RenderEvent {
    match e {
        E::InlineMath(s) => RenderEvent::InlineMath(s.into_string()),
        E::DisplayMath(s) => RenderEvent::DisplayMath(s.into_string()),
        E::Html(s) => RenderEvent::Html(s.into_string()), E::InlineHtml(s) => RenderEvent::InlineHtml(s.into_string()),
        E::FootnoteReference(s) => RenderEvent::FootnoteReference(s.into_string()),
        other => render_event(other),
    }
}

/// Parses `text` with `pulldown_cmark::Parser::new_ext` and the option bits
/// `options`, walking it with `into_offset_iter`. Trusted: the result is
/// whatever the parser produces, named [`spec_render_events`].
#[verifier::external_body]
fn parse_render_events(text: &str, options: u32) -> (res: Vec<(RenderEvent, Range<usize>)>)
    ensures
        res@ == spec_render_events(text@, options),
{
    let opts = pulldown_cmark::Options::from_bits_truncate(options);
    let mut out = Vec::new();
    for (e, r) in pulldown_cmark::Parser::new_ext(text, opts).into_offset_iter() {
        out.push((render_event(e), r));
    }
    out
}

/// The end tag that closes an element started by `t`.
pub open spec fn spec_end_of_start(t: StartTag) -> EndTag {
    match t {
        StartTag::Paragraph => EndTag::Paragraph,
        StartTag::Heading { .. } => EndTag::Heading,
        StartTag::BlockQuote => EndTag::BlockQuote,
        StartTag::CodeBlock { .. } => EndTag::CodeBlock,
        StartTag::List { .. } => EndTag::List,
        StartTag::Item => EndTag::Item,
        StartTag::FootnoteDefinition(_) => EndTag::FootnoteDefinition,
        StartTag::Table => EndTag::Table,
        StartTag::TableHead => EndTag::TableHead,
        StartTag::TableRow => EndTag::TableRow,
        StartTag::TableCell => EndTag::TableCell,
        StartTag::Emphasis => EndTag::Emphasis,
        StartTag::Strong => EndTag::Strong,
        StartTag::Strikethrough => EndTag::Strikethrough,
        StartTag::Link { .. } => EndTag::Link,
        StartTag::Image { .. } => EndTag::Image,
        StartTag::HtmlBlock => EndTag::HtmlBlock,
        StartTag::MetadataBlock => EndTag::MetadataBlock,
        StartTag::DefinitionList => EndTag::DefinitionList,
        StartTag::DefinitionListTitle => EndTag::DefinitionListTitle,
        StartTag::DefinitionListDefinition => EndTag::DefinitionListDefinition,
        StartTag::Superscript => EndTag::Superscript,
        StartTag::Subscript => EndTag::Subscript,
    }
}

/// The end tag that closes an element started by `t`.
pub fn end_of_start(t: &StartTag) -> (res: EndTag)
    ensures
        res == spec_end_of_start(*t),
{
    match t {
        StartTag::Paragraph => EndTag::Paragraph,
        StartTag::Heading { .. } => EndTag::Heading,
        StartTag::BlockQuote => EndTag::BlockQuote,
        StartTag::CodeBlock { .. } => EndTag::CodeBlock,
        StartTag::List { .. } => EndTag::List,
        StartTag::Item => EndTag::Item,
        StartTag::FootnoteDefinition(_) => EndTag::FootnoteDefinition,
        StartTag::Table => EndTag::Table,
        StartTag::TableHead => EndTag::TableHead,
        StartTag::TableRow => EndTag::TableRow,
        StartTag::TableCell => EndTag::TableCell,
        StartTag::Emphasis => EndTag::Emphasis,
        StartTag::Strong => EndTag::Strong,
        StartTag::Strikethrough => EndTag::Strikethrough,
        StartTag::Link { .. } => EndTag::Link,
        StartTag::Image { .. } => EndTag::Image,
        StartTag::HtmlBlock => EndTag::HtmlBlock,
        StartTag::MetadataBlock => EndTag::MetadataBlock,
        StartTag::DefinitionList => EndTag::DefinitionList,
        StartTag::DefinitionListTitle => EndTag::DefinitionListTitle,
        StartTag::DefinitionListDefinition => EndTag::DefinitionListDefinition,
        StartTag::Superscript => EndTag::Superscript,
        StartTag::Subscript => EndTag::Subscript,
    }
}

/// The kind of element that an end tag closes, as the library's event
/// logic tells kinds apart.
pub open spec fn spec_md_tag(t: EndTag) -> MdTag {
    match t {
        EndTag::Paragraph => MdTag::Paragraph,
        EndTag::BlockQuote => MdTag::BlockQuote,
        EndTag::Emphasis => MdTag::Emphasis,
        EndTag::Strong => MdTag::Strong,
        EndTag::Strikethrough => MdTag::Strikethrough,
        EndTag::Link => MdTag::Link,
        EndTag::Table => MdTag::Table,
        EndTag::TableHead => MdTag::TableHead,
        EndTag::TableRow => MdTag::TableRow,
        EndTag::TableCell => MdTag::TableCell,
        EndTag::List => MdTag::List,
        EndTag::Item => MdTag::Item,
        EndTag::DefinitionListDefinition => MdTag::DefinitionListDefinition,
        _ => MdTag::Other,
    }
}

/// The kind of element that an end tag closes.
pub fn md_tag(t: EndTag) -> (res: MdTag)
    ensures
        res == spec_md_tag(t),
{
    match t {
        EndTag::Paragraph => MdTag::Paragraph,
        EndTag::BlockQuote => MdTag::BlockQuote,
        EndTag::Emphasis => MdTag::Emphasis,
        EndTag::Strong => MdTag::Strong,
        EndTag::Strikethrough => MdTag::Strikethrough,
        EndTag::Link => MdTag::Link,
        EndTag::Table => MdTag::Table,
        EndTag::TableHead => MdTag::TableHead,
        EndTag::TableRow => MdTag::TableRow,
        EndTag::TableCell => MdTag::TableCell,
        EndTag::List => MdTag::List,
        EndTag::Item => MdTag::Item,
        EndTag::DefinitionListDefinition => MdTag::DefinitionListDefinition,
        _ => MdTag::Other,
    }
}

/// An event as the library's event logic reads it: starts and ends by the
/// kind of their element, text, code and inline HTML with their text, line
/// breaks, and everything else as `Other`.
pub open spec fn spec_md_event(e: RenderEvent) -> MdEvent {
    match e {
        RenderEvent::Start(t) => MdEvent::Start(spec_md_tag(spec_end_of_start(t))),
        RenderEvent::End(t) => MdEvent::End(spec_md_tag(t)),
        RenderEvent::Text(s) => MdEvent::Text(s),
        RenderEvent::Code(s) => MdEvent::Code(s),
        RenderEvent::InlineHtml(s) => MdEvent::InlineHtml(s),
        RenderEvent::SoftBreak => MdEvent::SoftBreak,
        RenderEvent::HardBreak => MdEvent::HardBreak,
        _ => MdEvent::Other,
    }
}

/// Reads a renderer event as the library's event logic does.
pub fn md_event(e: &RenderEvent) -> (res: MdEvent)
    ensures
        res == spec_md_event(*e),
{
    match e {
        RenderEvent::Start(t) => MdEvent::Start(md_tag(end_of_start(t))),
        RenderEvent::End(t) => MdEvent::End(md_tag(*t)),
        RenderEvent::Text(s) => MdEvent::Text(s.clone()),
        RenderEvent::Code(s) => MdEvent::Code(s.clone()),
        RenderEvent::InlineHtml(s) => MdEvent::InlineHtml(s.clone()),
        RenderEvent::SoftBreak => MdEvent::SoftBreak,
        RenderEvent::HardBreak => MdEvent::HardBreak,
        _ => MdEvent::Other,
    }
}

/// The events read as the library's event logic reads them, each with its
/// span.
pub open spec fn spec_md_events(events: Seq<(RenderEvent, Range<usize>)>) -> Seq<SpannedEvent> {
    events.map_values(|p: (RenderEvent, Range<usize>)| (spec_md_event(p.0), p.1))
}

/// Reads renderer events as the library's event logic reads them, keeping
/// their spans.
pub fn md_events(events: &[(RenderEvent, Range<usize>)]) -> (res: Vec<SpannedEvent>)
    ensures
        res@ == spec_md_events(events@),
{
    let mut out: Vec<SpannedEvent> = Vec::new();
    let mut i: usize = 0;
    while i < events.len()
        invariant
            i <= events@.len(),
            out@ == spec_md_events(events@.take(i as int)),
        decreases events@.len() - i,
    {
        let e = md_event(&events[i].0);
        out.push((e, Range { start: events[i].1.start, end: events[i].1.end }));
        assert(events@.take(i as int + 1) =~= events@.take(i as int).push(events@[i as int]));
        assert(out@ =~= spec_md_events(events@.take(i as int + 1)));
        i = i + 1;
    }
    assert(events@.take(i as int) =~= events@);
    out
}

/// A parsed document: the events that the renderer draws, and at the same
/// indices the library's reading of them.
pub struct Document {
    pub events: Vec<(RenderEvent, Range<usize>)>,
    pub md: Vec<SpannedEvent>,
}

/// Parses `text` with the option bits `options` (see
/// [`parser_options_extras`]) into the events that the renderer draws.
pub fn parse_document(text: &str, options: u32) -> (res: Document)
    ensures
        res.events@ == spec_render_events(text@, options),
        res.md@ == spec_md_events(res.events@),
{
    let events = parse_render_events(text, options);
    let md = md_events(events.as_slice());
    Document { events, md }
}

/// The events that `pulldown_cmark` produces for `text` with the option
/// bits `options`, each with its source range, as the library's event logic
/// reads them.
pub open spec fn spec_markdown_events(text: Seq<char>, options: u32) -> Seq<SpannedEvent> {
    spec_md_events(spec_render_events(text, options))
}

/// Parses `text` with the option bits `options` into the events as the
/// library's event logic reads them.
pub(crate) fn parse_markdown(text: &str, options: u32) -> (res: Vec<SpannedEvent>)
    ensures
        res@ == spec_markdown_events(text@, options),
{
    let events = parse_render_events(text, options);
    md_events(events.as_slice())
}

/// The marker text at the start of a blockquote's events: the text events
/// before the first end tag or line break, the index of that event (0 if
/// there is none), and whether it was an end tag (the marker then stands
/// on a line of its own).
pub open spec fn alert_scan(events: Seq<SpannedEvent>, i: int, ident: Seq<char>) -> (Seq<char>, int, bool)
    decreases events.len() - i,
{
    if i >= events.len() || i < 0 {
        (ident, 0, false)
    } else {
        match events[i].0 {
            MdEvent::End(_) => (ident, i, true),
            MdEvent::SoftBreak => (ident, i, false),
            MdEvent::HardBreak => (ident, i, false),
            MdEvent::Text(t) => alert_scan(events, i + 1, ident + t@),
            _ => alert_scan(events, i + 1, ident),
        }
    }
}

/// Which events an alert marker occupies, as `(start, count)`: the whole
/// first paragraph when the marker stands on a line of its own, else the
/// events after the paragraph start up to and including the line break.
pub open spec fn alert_removal(events: Seq<SpannedEvent>) -> (usize, usize) {
    let (_, ends_at, extra) = alert_scan(events, 0, Seq::empty());
    if extra {
        (0, (ends_at + 1) as usize)
    } else {
        (1, ends_at as usize)
    }
}

/// How an alert applies to a blockquote: the alert, and the events of the
/// marker that the renderer leaves out.
pub struct AlertPlan<'a> {
    pub alert: &'a Alert,
    /// Index of the first event to leave out.
    pub remove_start: usize,
    /// Number of events to leave out.
    pub remove_count: usize,
}

/// The alert that a blockquote's events start with, and which events its
/// marker occupies; `None` if the bundle is empty or the marker names no
/// alert of the bundle.
pub fn alert_plan<'a>(alerts: &'a AlertBundle, events: &[SpannedEvent]) -> (res: Option<AlertPlan<'a>>)
    ensures
        ({
            let (ident, _, _) = alert_scan(events@, 0, Seq::empty());
            match res {
                Some(p) => alerts.alerts().len() > 0 && alerts.get(spec_to_uppercase(ident))
                    == Some(*p.alert) && (p.remove_start, p.remove_count) == alert_removal(
                    events@,
                ),
                None => alerts.alerts().len() == 0 || alerts.get(spec_to_uppercase(ident))
                    is None,
            }
        }),
        res matches Some(p) ==> p.remove_start + p.remove_count <= events@.len() || (
        p.remove_start == 1 && p.remove_count == 0),
{
    if alerts.is_empty() {
        return None;
    }
    let mut ident = String::new();
    let mut ends_at: usize = 0;
    let mut has_extra_line = false;
    let mut i: usize = 0;
    assert(ident@ =~= Seq::<char>::empty());
    while i < events.len()
        invariant_except_break
            ends_at == 0,
            !has_extra_line,
        invariant
            i <= events@.len(),
            alert_scan(events@, 0, Seq::empty()) == alert_scan(events@, i as int, ident@),
        ensures
            alert_scan(events@, 0, Seq::empty()) == (ident@, ends_at as int, has_extra_line),
            ends_at < events@.len() || ends_at == 0,
            has_extra_line ==> ends_at < events@.len(),
        decreases events@.len() - i,
    {
        match &events[i].0 {
            MdEvent::End(_) => {
                ends_at = i;
                has_extra_line = true;
                break;
            },
            MdEvent::SoftBreak => {
                ends_at = i;
                break;
            },
            MdEvent::HardBreak => {
                ends_at = i;
                break;
            },
            MdEvent::Text(t) => {
                ident.append(t.as_str());
            },
            _ => {},
        }
        i = i + 1;
    }
    let n = events.len();
    assert(n == events@.len());
    match try_get_alert(alerts, ident.as_str()) {
        Some(alert) => {
            if has_extra_line {
                Some(AlertPlan { alert, remove_start: 0, remove_count: ends_at + 1 })
            } else {
                Some(AlertPlan { alert, remove_start: 1, remove_count: ends_at })
            }
        },
        None => None,
    }
}

/// try to parse events as an alert quote block. This will modify the events
/// to remove the parsed text that should not be rendered.
/// Assumes that the first element is a Paragraph
pub fn parse_alerts<'a>(alerts: &'a AlertBundle, events: &mut Vec<SpannedEvent>) -> (res: Option<&'a Alert>)
    ensures
        ({
            let (ident, _, _) = alert_scan(old(events)@, 0, Seq::empty());
            match res {
                Some(a) => alerts.alerts().len() > 0 && alerts.get(spec_to_uppercase(ident))
                    == Some(*a) && {
                    let (start, count) = alert_removal(old(events)@);
                    final(events)@ == old(events)@.take(start as int) + old(events)@.skip(
                        start + count,
                    ) || (start == 1 && count == 0 && final(events)@ == old(events)@)
                },
                None => (alerts.alerts().len() == 0 || alerts.get(spec_to_uppercase(ident))
                    is None) && final(events)@ == old(events)@,
            }
        }),
{
    match alert_plan(alerts, events.as_slice()) {
        Some(plan) => {
            let mut k: usize = 0;
            let ghost orig = events@;
            if plan.remove_count == 0 {
                return Some(plan.alert);
            }
            while k < plan.remove_count
                invariant
                    k <= plan.remove_count,
                    plan.remove_start + plan.remove_count <= orig.len(),
                    events@ == orig.take(plan.remove_start as int) + orig.skip(
                        plan.remove_start + k,
                    ),
                decreases plan.remove_count - k,
            {
                events.remove(plan.remove_start);
                assert(events@ =~= orig.take(plan.remove_start as int) + orig.skip(
                    plan.remove_start + k + 1,
                ));
                k = k + 1;
            }
            Some(plan.alert)
        },
        None => None,
    }
}

/// Where the events gathered from `from` for an element end: just past the
/// first end of `end_at`, else at the end of the events.
pub open spec fn delayed_end(events: Seq<SpannedEvent>, from: int, end_at: MdTag) -> int
    decreases events.len() - from,
{
    if from >= events.len() || from < 0 {
        events.len() as int
    } else if events[from].0 == MdEvent::End(end_at) {
        from + 1
    } else {
        delayed_end(events, from + 1, end_at)
    }
}

/// The events gathered for an element stop at the first end of `end_at`:
/// none before it ends the element, and the last one gathered does unless
/// the events ran out without one.
pub proof fn lemma_delayed_end(events: Seq<SpannedEvent>, from: int, end_at: MdTag)
    requires
        0 <= from <= events.len(),
    ensures
        from <= delayed_end(events, from, end_at) <= events.len(),
        forall|k: int|
            from <= k < delayed_end(events, from, end_at) - 1 ==> events[k].0 != MdEvent::End(
                end_at,
            ),
        (from < delayed_end(events, from, end_at) && events[delayed_end(events, from, end_at)
            - 1].0 == MdEvent::End(end_at)) || (delayed_end(events, from, end_at) == events.len()
            && forall|k: int| from <= k < events.len() ==> events[k].0 != MdEvent::End(end_at)),
    decreases events.len() - from,
{
    if from < events.len() && events[from].0 != MdEvent::End(end_at) {
        lemma_delayed_end(events, from + 1, end_at);
    }
}

/// Gathers the events, from index `from` on, that are rendered inside one
/// widget: up to and including the first end of `end_at`, or to the end of
/// the events. Returns the index just past them.
pub fn delayed_events(events: &[SpannedEvent], from: usize, end_at: MdTag) -> (res: usize)
    requires
        from <= events@.len(),
    ensures
        res == delayed_end(events@, from as int, end_at),
        from <= res <= events@.len(),
        forall|k: int| from <= k < res - 1 ==> events@[k].0 != MdEvent::End(end_at),
        (from < res && events@[res - 1].0 == MdEvent::End(end_at)) || (res == events@.len()
            && forall|k: int| from <= k < events@.len() ==> events@[k].0 != MdEvent::End(end_at)),
{
    let mut i = from;
    while i < events.len()
        invariant
            from <= i <= events@.len(),
            delayed_end(events@, from as int, end_at) == delayed_end(events@, i as int, end_at),
        decreases events@.len() - i,
    {
        if let MdEvent::End(t) = &events[i].0 {
            if *t == end_at {
                proof {
                    lemma_delayed_end(events@, from as int, end_at);
                }
                return i + 1;
            }
        }
        i = i + 1;
    }
    proof {
        lemma_delayed_end(events@, from as int, end_at);
    }
    i
}

/// Where the events of a list item gathered from `from` end: just past the
/// first end of an item or start of a nested list, else at the end.
pub open spec fn list_item_end(events: Seq<SpannedEvent>, from: int) -> int
    decreases events.len() - from,
{
    if from >= events.len() || from < 0 {
        events.len() as int
    } else if events[from].0 == MdEvent::End(MdTag::Item) || events[from].0 == MdEvent::Start(
        MdTag::List,
    ) {
        from + 1
    } else {
        list_item_end(events, from + 1)
    }
}

/// Gathers the events of a list item from index `from` on: up to and
/// including the item's end or the start of a nested list. Returns the
/// index just past them.
pub fn delayed_events_list_item(events: &[SpannedEvent], from: usize) -> (res: usize)
    requires
        from <= events@.len(),
    ensures
        res == list_item_end(events@, from as int),
        from <= res <= events@.len(),
{
    let mut i = from;
    while i < events.len()
        invariant
            from <= i <= events@.len(),
            list_item_end(events@, from as int) == list_item_end(events@, i as int),
        decreases events@.len() - i,
    {
        match &events[i].0 {
            MdEvent::End(MdTag::Item) | MdEvent::Start(MdTag::List) => {
                return i + 1;
            },
            _ => {},
        }
        i = i + 1;
    }
    i
}

/// One row of a table read from index `i` up to `to`, as the indices of
/// the events of each cell, with the cells `row` and the cell `column` read
/// so far; and the index where reading stops. A cell's end closes it (and
/// opens the next cell with itself); the end of the head or of a row ends
/// the row, and the cell still open then is left out.
pub open spec fn row_from(
    events: Seq<SpannedEvent>,
    i: int,
    to: int,
    column: Seq<usize>,
    row: Seq<Seq<usize>>,
) -> (Seq<Seq<usize>>, int)
    decreases to - i,
{
    if i >= to || i < 0 || to > events.len() {
        (row, to)
    } else {
        let e = events[i].0;
        let closes = e == MdEvent::End(MdTag::TableCell);
        let row2 = if closes {
            row.push(column)
        } else {
            row
        };
        let column2 = if closes {
            Seq::empty()
        } else {
            column
        };
        if e == MdEvent::End(MdTag::TableHead) || e == MdEvent::End(MdTag::TableRow) {
            (row2, i + 1)
        } else {
            row_from(events, i + 1, to, column2.push(i as usize), row2)
        }
    }
}

/// Reading a row moves forward and stays within the events read.
pub proof fn lemma_row_from_advances(
    events: Seq<SpannedEvent>,
    i: int,
    to: int,
    column: Seq<usize>,
    row: Seq<Seq<usize>>,
)
    requires
        0 <= i < to <= events.len(),
    ensures
        i < row_from(events, i, to, column, row).1 <= to,
    decreases to - i,
{
    let e = events[i].0;
    let closes = e == MdEvent::End(MdTag::TableCell);
    let row2 = if closes {
        row.push(column)
    } else {
        row
    };
    let column2 = if closes {
        Seq::empty()
    } else {
        column
    };
    if !(e == MdEvent::End(MdTag::TableHead) || e == MdEvent::End(MdTag::TableRow)) {
        if i + 1 < to {
            lemma_row_from_advances(events, i + 1, to, column2.push(i as usize), row2);
        } else {
            assert(row_from(events, i + 1, to, column2.push(i as usize), row2).1 == to);
        }
    }
}

/// The rows of a table read from index `i` up to `to`.
pub open spec fn rows_from(events: Seq<SpannedEvent>, i: int, to: int) -> Seq<Seq<Seq<usize>>>
    decreases to - i,
{
    if i >= to || i < 0 || to > events.len() {
        Seq::empty()
    } else {
        let (row, next) = row_from(events, i, to, Seq::empty(), Seq::empty());
        proof {
            lemma_row_from_advances(events, i, to, Seq::empty(), Seq::empty());
        }
        seq![row] + rows_from(events, next, to)
    }
}

/// A table, as the indices of the events of each cell: the head's cells
/// and each row's cells.
#[derive(PartialEq, Eq, Debug)]
pub struct Table {
    pub header: Vec<Vec<usize>>,
    pub rows: Vec<Vec<Vec<usize>>>,
}

/// Reads one row from index `from` up to `to`; returns its cells and the
/// index where reading stopped.
fn parse_row(events: &[SpannedEvent], from: usize, to: usize) -> (res: (Vec<Vec<usize>>, usize))
    requires
        from < to <= events@.len(),
    ensures
        res.0@.map_values(|c: Vec<usize>| c@) == row_from(
            events@,
            from as int,
            to as int,
            Seq::empty(),
            Seq::empty(),
        ).0,
        res.1 == row_from(events@, from as int, to as int, Seq::empty(), Seq::empty()).1,
{
    let mut row: Vec<Vec<usize>> = Vec::new();
    let mut column: Vec<usize> = Vec::new();
    let mut i = from;
    assert(row@.map_values(|c: Vec<usize>| c@) =~= Seq::<Seq<usize>>::empty());
    assert(column@ =~= Seq::<usize>::empty());
    while i < to
        invariant
            from <= i <= to,
            to <= events@.len(),
            row_from(events@, from as int, to as int, Seq::empty(), Seq::empty()) == row_from(
                events@,
                i as int,
                to as int,
                column@,
                row@.map_values(|c: Vec<usize>| c@),
            ),
        decreases to - i,
    {
        let closes = match &events[i].0 {
            MdEvent::End(MdTag::TableCell) => true,
            _ => false,
        };
        let ends = match &events[i].0 {
            MdEvent::End(MdTag::TableHead) | MdEvent::End(MdTag::TableRow) => true,
            _ => false,
        };
        let ghost before_row = row@.map_values(|c: Vec<usize>| c@);
        let ghost before_col = column@;
        if closes {
            let mut done: Vec<usize> = Vec::new();
            std::mem::swap(&mut done, &mut column);
            row.push(done);
            assert(row@.map_values(|c: Vec<usize>| c@) =~= before_row.push(before_col));
        }
        if ends {
            return (row, i + 1);
        }
        column.push(i);
        i = i + 1;
    }
    (row, i)
}

/// Reads a table from the events from index `from` up to `to` (those that
/// [`delayed_events`] gathers for it): the head's row, then row after row.
pub fn parse_table(events: &[SpannedEvent], from: usize, to: usize) -> (res: Table)
    requires
        from <= to <= events@.len(),
    ensures
        from < to ==> res.header@.map_values(|c: Vec<usize>| c@) == row_from(
            events@,
            from as int,
            to as int,
            Seq::empty(),
            Seq::empty(),
        ).0,
        from < to ==> res.rows@.map_values(
            |r: Vec<Vec<usize>>| r@.map_values(|c: Vec<usize>| c@),
        ) == rows_from(
            events@,
            row_from(events@, from as int, to as int, Seq::empty(), Seq::empty()).1,
            to as int,
        ),
        from == to ==> res.header@.len() == 0 && res.rows@.len() == 0,
{
    if from == to {
        return Table { header: Vec::new(), rows: Vec::new() };
    }
    let (header, mut i) = parse_row(events, from, to);
    proof {
        lemma_row_from_advances(events@, from as int, to as int, Seq::empty(), Seq::empty());
    }
    let ghost start = i;
    let mut rows: Vec<Vec<Vec<usize>>> = Vec::new();
    while i < to
        invariant
            start <= i <= to,
            to <= events@.len(),
            rows_from(events@, start as int, to as int) == rows@.map_values(
                |r: Vec<Vec<usize>>| r@.map_values(|c: Vec<usize>| c@),
            ) + rows_from(events@, i as int, to as int),
        decreases to - i,
    {
        let (row, next) = parse_row(events, i, to);
        proof {
            lemma_row_from_advances(events@, i as int, to as int, Seq::empty(), Seq::empty());
        }
        let ghost before = rows@.map_values(|r: Vec<Vec<usize>>| r@.map_values(|c: Vec<usize>| c@));
        rows.push(row);
        assert(rows@.map_values(|r: Vec<Vec<usize>>| r@.map_values(|c: Vec<usize>| c@)) =~= before
            + seq![row@.map_values(|c: Vec<usize>| c@)]);
        assert(rows_from(events@, i as int, to as int) == seq![row@.map_values(|c: Vec<usize>| c@)] + rows_from(events@, next as int, to as int));
        i = next;
    }
    assert(rows@.map_values(|r: Vec<Vec<usize>>| r@.map_values(|c: Vec<usize>| c@)) =~= rows@.map_values(|r: Vec<Vec<usize>>| r@.map_values(|c: Vec<usize>| c@)) + Seq::<Seq<Seq<usize>>>::empty());
    Table { header, rows }
}

} // verus!
