//! The renderer's decisions, event by event: which text style is in force,
//! which element is being gathered, and where line breaks, list markers and
//! scrolls go. The caller draws what each step returns.

use crate::blocks::{
    image_uri, indices_touching_spans, plain_style, runs_byte_len, CodeBlock, Image, Link, Style,
    StyledText,
};
use crate::matches::{byte_len, lemma_byte_len_concat};
use crate::pulldown::{MdEvent, SpannedEvent};
use crate::search::{search_intervals, spec_search_intervals, Interval};
use std::ops::Range;
use crate::elements::{advance_item, item_start, List, ListItemStart, Newline};
use crate::misc::CommonMarkCache;
use crate::options::CommonMarkOptions;
use vstd::prelude::*;

verus! {

/// The start of a markdown element, as the renderer reads it.
#[derive(Clone, PartialEq, Eq, Debug)]
pub enum StartTag {
    Paragraph,
    /// A heading: `level` counts from 0 for `#`; `id` is its `{#id}`.
    Heading { level: u8, id: Option<String> },
    BlockQuote,
    /// A code block, with the language of a fenced one.
    CodeBlock { lang: Option<String> },
    /// A list, with the number of its first item when it is numbered.
    List { start: Option<u64> },
    Item,
    FootnoteDefinition(String),
    Table,
    TableHead,
    TableRow,
    TableCell,
    Emphasis,
    Strong,
    Strikethrough,
    Link { dest: String },
    Image { dest: String },
    HtmlBlock,
    MetadataBlock,
    DefinitionList,
    DefinitionListTitle,
    DefinitionListDefinition,
    Superscript,
    Subscript,
}

/// The end of a markdown element, as the renderer reads it.
#[derive(Clone, Copy, PartialEq, Eq, Structural, Debug)]
pub enum EndTag {
    Paragraph,
    Heading,
    BlockQuote,
    CodeBlock,
    List,
    Item,
    FootnoteDefinition,
    Table,
    TableHead,
    TableRow,
    TableCell,
    Emphasis,
    Strong,
    Strikethrough,
    Link,
    Image,
    HtmlBlock,
    MetadataBlock,
    DefinitionList,
    DefinitionListTitle,
    DefinitionListDefinition,
    Superscript,
    Subscript,
}

/// Where the renderer is inside a definition list.
#[derive(Clone, Copy, PartialEq, Eq, Structural, Debug)]
pub struct DefinitionList {
    pub is_first_item: bool,
    pub is_def_list_def: bool,
}

/// The renderer's state between events.
#[derive(PartialEq, Eq, Debug)]
pub struct CommonMarkViewerInternal {
    /// How many tables have been drawn.
    pub curr_table: usize,
    pub text_style: Style,
    pub list: List,
    pub link: Option<Link>,
    pub image: Option<Image>,
    pub line: Newline,
    pub code_block: Option<CodeBlock>,
    /// The events of a list item follow and are drawn wrapped together.
    pub is_list_item: bool,
    pub def_list: DefinitionList,
    /// The events of a table follow.
    pub is_table: bool,
    /// The events of a block quote follow.
    pub is_blockquote: bool,
    /// A scroll to the active search match is wanted and not yet done.
    pub want_scroll_to_active_match: bool,
    /// The heading to scroll to once the pass is over.
    pub deferred_scroll_to_heading: Option<String>,
    /// Some image had not loaded yet when it was drawn.
    pub any_image_loading: bool,
}

impl CommonMarkViewerInternal {
    pub fn new() -> (res: Self)
        ensures
            res.curr_table == 0,
            res.text_style == plain_style(),
            res.list.levels().len() == 0,
            !res.list.has_list_begun,
            res.link is None,
            res.image is None,
            res.line == (Newline {
                should_not_start_newline_forced: true,
                should_start_newline: true,
                should_end_newline: true,
                should_end_newline_forced: true,
            }),
            res.code_block is None,
            !res.is_list_item,
            res.def_list == (DefinitionList { is_first_item: false, is_def_list_def: false }),
            !res.is_table,
            !res.is_blockquote,
            !res.want_scroll_to_active_match,
            res.deferred_scroll_to_heading is None,
            !res.any_image_loading,
    {
        CommonMarkViewerInternal {
            curr_table: 0,
            text_style: Style::default(),
            list: List::default(),
            link: None,
            image: None,
            line: Newline::default(),
            code_block: None,
            is_list_item: false,
            def_list: DefinitionList { is_first_item: false, is_def_list_def: false },
            is_table: false,
            is_blockquote: false,
            want_scroll_to_active_match: false,
            deferred_scroll_to_heading: None,
            any_image_loading: false,
        }
    }
}

/// What the caller draws when an element starts, in this order: a scroll
/// that brings the heading to the top, a newline, a list item's marker, a
/// footnote's label.
#[derive(PartialEq, Eq, Debug)]
pub struct StartEffects {
    pub scroll_to_heading: bool,
    pub newline: bool,
    pub item: Option<ListItemStart>,
    pub footnote: Option<String>,
}

/// The text style once `tag` has started.
pub open spec fn start_style(s: Style, tag: &StartTag) -> Style {
    match tag {
        StartTag::Heading { level, .. } => Style { heading: Some(*level), ..s },
        StartTag::Emphasis => Style { emphasis: true, ..s },
        StartTag::Strong => Style { strong: true, ..s },
        StartTag::Strikethrough => Style { strikethrough: true, ..s },
        _ => s,
    }
}

/// Whether a heading that starts with `tag` is the one to scroll to.
pub open spec fn is_scroll_target(tag: &StartTag, target: Option<String>) -> bool {
    match (tag, target) {
        (StartTag::Heading { id: Some(id), .. }, Some(t)) => id@ == t@,
        _ => false,
    }
}

/// Whether starting `tag` asks for a newline, given the line state `line`
/// and whether a list is open.
pub open spec fn start_newline(tag: &StartTag, line: Newline, in_list: bool, first_def_item: bool) -> bool {
    match tag {
        StartTag::Paragraph | StartTag::HtmlBlock | StartTag::FootnoteDefinition(_)
        | StartTag::DefinitionList => line.spec_can_insert_start(),
        StartTag::Heading { .. } => true,
        StartTag::CodeBlock { .. } => !line.should_not_start_newline_forced,
        StartTag::List { .. } => !in_list && line.spec_can_insert_start(),
        StartTag::DefinitionListTitle => !first_def_item && line.spec_can_insert_start(),
        _ => false,
    }
}

/// The list nesting once `tag` has started.
pub open spec fn start_levels(levels: Seq<Option<u64>>, tag: &StartTag) -> Seq<Option<u64>> {
    match tag {
        StartTag::List { start } => levels.push(*start),
        StartTag::Item => advance_item(levels),
        _ => levels,
    }
}

/// The line state once `tag` has started: lists and footnote definitions
/// keep their blocks from starting or ending lines of their own.
pub open spec fn start_line(line: Newline, tag: &StartTag) -> Newline {
    match tag {
        StartTag::List { .. } | StartTag::FootnoteDefinition(_) => Newline {
            should_start_newline: false,
            should_end_newline: false,
            ..line
        },
        _ => line,
    }
}

/// What starting `tag` needs: an item starts inside a list whose number
/// can still grow, at an indentation that fits in memory.
pub open spec fn start_tag_allowed(
    s: &CommonMarkViewerInternal,
    tag: &StartTag,
    options: &CommonMarkOptions,
) -> bool {
    tag is Item ==> {
        &&& s.list.levels().len() > 0
        &&& (s.list.levels().len() - 1) * options.indentation_spaces <= usize::MAX
        &&& s.list.levels().last() != Some(u64::MAX)
    }
}

/// What starting `tag` does to the renderer `s0` and the cache `c0`,
/// giving `s1` and `c1` and the drawing `res`.
pub open spec fn start_tag_done(
    s0: &CommonMarkViewerInternal,
    s1: &CommonMarkViewerInternal,
    c0: &CommonMarkCache,
    c1: &CommonMarkCache,
    tag: &StartTag,
    options: &CommonMarkOptions,
    res: &StartEffects,
) -> bool {
    &&& s1.text_style == start_style(s0.text_style, tag)
    &&& res.scroll_to_heading == is_scroll_target(tag, c0.spec_scroll_to_id_target())
    &&& res.scroll_to_heading ==> c1.spec_scroll_to_id_target() is None
    &&& !res.scroll_to_heading ==> c1.spec_scroll_to_id_target() == c0.spec_scroll_to_id_target()
    &&& c1.same_search(c0)
    &&& c1.spec_active_match() == c0.spec_active_match()
    &&& c1.spec_active_search_range() == c0.spec_active_search_range()
    &&& res.newline == start_newline(
        tag,
        s0.line,
        s0.list.levels().len() > 0,
        s0.def_list.is_first_item,
    )
    &&& res.item == (if tag is Item {
        Some(item_start(s0.list.levels(), s0.list.has_list_begun, options.indentation_spaces))
    } else {
        None
    })
    &&& res.footnote == (match tag {
        StartTag::FootnoteDefinition(n) => Some(*n),
        _ => None,
    })
    &&& s1.line == start_line(s0.line, tag)
    &&& s1.list.levels() == start_levels(s0.list.levels(), tag)
    &&& s1.list.has_list_begun == (s0.list.has_list_begun || tag is Item)
    &&& s1.is_list_item == (s0.is_list_item || tag is Item)
    &&& s1.is_blockquote == (s0.is_blockquote || tag is BlockQuote)
    &&& s1.is_table == (s0.is_table || tag is Table)
    &&& match tag {
        StartTag::CodeBlock { lang } => s1.code_block matches Some(b) && b.lang == *lang
            && b.content@.len() == 0 && b.chunks@.len() == 0,
        _ => s1.code_block == s0.code_block,
    }
    &&& match tag {
        StartTag::Link { dest } => s1.link matches Some(l) && l.destination == *dest
            && l.text@.len() == 0 && l.chunks@.len() == 0,
        _ => s1.link == s0.link,
    }
    &&& match tag {
        StartTag::Image { dest } => s1.image matches Some(i) && i.uri@ == image_uri(dest@, options)
            && i.alt_text@.len() == 0 && i.alt_src_spans@.len() == 0,
        _ => s1.image == s0.image,
    }
    &&& s1.def_list == (match tag {
        StartTag::DefinitionList => DefinitionList { is_first_item: true, ..s0.def_list },
        StartTag::DefinitionListTitle => DefinitionList { is_first_item: false, ..s0.def_list },
        StartTag::DefinitionListDefinition => DefinitionList {
            is_def_list_def: true,
            ..s0.def_list
        },
        _ => s0.def_list,
    })
    &&& s1.curr_table == s0.curr_table
    &&& s1.want_scroll_to_active_match == s0.want_scroll_to_active_match
    &&& s1.deferred_scroll_to_heading == s0.deferred_scroll_to_heading
    &&& s1.any_image_loading == s0.any_image_loading
}

/// Tags of blocks that hold text.
pub open spec fn is_block_tag(tag: &StartTag) -> bool {
    ||| tag is Paragraph
    ||| tag is Heading
    ||| tag is BlockQuote
    ||| tag is CodeBlock
    ||| tag is HtmlBlock
    ||| tag is MetadataBlock
}

/// Tags of lists, footnotes and definition lists.
pub open spec fn is_list_tag(tag: &StartTag) -> bool {
    ||| tag is List
    ||| tag is Item
    ||| tag is FootnoteDefinition
    ||| tag is DefinitionList
    ||| tag is DefinitionListTitle
    ||| tag is DefinitionListDefinition
}

impl CommonMarkViewerInternal {
    fn start_heading(
        &mut self,
        tag: StartTag,
        cache: &mut CommonMarkCache,
        options: &CommonMarkOptions,
    ) -> (res: StartEffects)
        requires
            tag is Heading,
        ensures
            start_tag_done(old(self), final(self), old(cache), final(cache), &tag, options, &res),
    {
        let mut effects = StartEffects {
            scroll_to_heading: false,
            newline: true,
            item: None,
            footnote: None,
        };
        if let StartTag::Heading { level, id } = tag {
            let hit = match (cache.scroll_to_id_target(), &id) {
                (Some(target), Some(id)) => *id == target.to_owned(),
                _ => false,
            };
            if hit {
                effects.scroll_to_heading = true;
                let _ = cache.take_scroll_to_id_target();
            }
            self.text_style.heading = Some(level);
        }
        effects
    }

    fn start_block_tag(
        &mut self,
        tag: StartTag,
        cache: &CommonMarkCache,
        options: &CommonMarkOptions,
    ) -> (res: StartEffects)
        requires
            is_block_tag(&tag),
            !(tag is Heading),
        ensures
            start_tag_done(old(self), final(self), cache, cache, &tag, options, &res),
    {
        let mut effects = StartEffects {
            scroll_to_heading: false,
            newline: false,
            item: None,
            footnote: None,
        };
        match tag {
            StartTag::Paragraph | StartTag::HtmlBlock => {
                effects.newline = self.line.try_insert_start();
            },
            StartTag::BlockQuote => {
                self.is_blockquote = true;
            },
            StartTag::CodeBlock { lang } => {
                self.code_block = Some(CodeBlock { lang, content: String::new(), chunks: Vec::new() });
                effects.newline = !self.line.should_not_start_newline_forced;
            },
            _ => {},
        }
        effects
    }

    fn start_list_tag(
        &mut self,
        tag: StartTag,
        cache: &CommonMarkCache,
        options: &CommonMarkOptions,
    ) -> (res: StartEffects)
        requires
            tag is List || tag is Item || tag is FootnoteDefinition,
            start_tag_allowed(old(self), &tag, options),
        ensures
            start_tag_done(old(self), final(self), cache, cache, &tag, options, &res),
    {
        let mut effects = StartEffects {
            scroll_to_heading: false,
            newline: false,
            item: None,
            footnote: None,
        };
        match tag {
            StartTag::List { start } => {
                effects.newline = !self.list.is_inside_a_list() && self.line.can_insert_start();
                match start {
                    Some(number) => self.list.start_level_with_number(number),
                    None => self.list.start_level_without_number(),
                }
                self.line.should_start_newline = false;
                self.line.should_end_newline = false;
            },
            StartTag::Item => {
                self.is_list_item = true;
                effects.item = Some(self.list.start_item(options.indentation_spaces));
            },
            StartTag::FootnoteDefinition(note) => {
                effects.newline = self.line.try_insert_start();
                self.line.should_start_newline = false;
                self.line.should_end_newline = false;
                effects.footnote = Some(note);
            },
            _ => {},
        }
        effects
    }

    fn start_definition_tag(
        &mut self,
        tag: StartTag,
        cache: &CommonMarkCache,
        options: &CommonMarkOptions,
    ) -> (res: StartEffects)
        requires
            tag is DefinitionList || tag is DefinitionListTitle || tag is DefinitionListDefinition,
        ensures
            start_tag_done(old(self), final(self), cache, cache, &tag, options, &res),
    {
        let mut effects = StartEffects {
            scroll_to_heading: false,
            newline: false,
            item: None,
            footnote: None,
        };
        match tag {
            StartTag::DefinitionList => {
                effects.newline = self.line.try_insert_start();
                self.def_list.is_first_item = true;
            },
            StartTag::DefinitionListTitle => {
                if !self.def_list.is_first_item {
                    effects.newline = self.line.try_insert_start();
                } else {
                    self.def_list.is_first_item = false;
                }
            },
            _ => {
                self.def_list.is_def_list_def = true;
            },
        }
        effects
    }

    fn start_inline_tag(
        &mut self,
        tag: StartTag,
        cache: &CommonMarkCache,
        options: &CommonMarkOptions,
    ) -> (res: StartEffects)
        requires
            !is_block_tag(&tag),
            !is_list_tag(&tag),
        ensures
            start_tag_done(old(self), final(self), cache, cache, &tag, options, &res),
    {
        match tag {
            StartTag::Table => {
                self.is_table = true;
            },
            StartTag::Emphasis => {
                self.text_style.emphasis = true;
            },
            StartTag::Strong => {
                self.text_style.strong = true;
            },
            StartTag::Strikethrough => {
                self.text_style.strikethrough = true;
            },
            StartTag::Link { dest } => {
                self.link = Some(Link::new(dest));
            },
            StartTag::Image { dest } => {
                self.image = Some(Image::new(dest.as_str(), options));
            },
            _ => {},
        }
        StartEffects { scroll_to_heading: false, newline: false, item: None, footnote: None }
    }

    /// Starts the element `tag`: updates the style and the gathering state,
    /// takes the cache's scroll target when `tag` is the heading it names,
    /// and says what to draw.
    pub fn start_tag(
        &mut self,
        tag: StartTag,
        cache: &mut CommonMarkCache,
        options: &CommonMarkOptions,
    ) -> (res: StartEffects)
        requires
            start_tag_allowed(old(self), &tag, options),
        ensures
            start_tag_done(old(self), final(self), old(cache), final(cache), &tag, options, &res),
    {
        let kind: u8 = match &tag {
            StartTag::Heading { .. } => 0,
            StartTag::Paragraph | StartTag::BlockQuote | StartTag::CodeBlock { .. }
            | StartTag::HtmlBlock | StartTag::MetadataBlock => 1,
            StartTag::List { .. } | StartTag::Item | StartTag::FootnoteDefinition(_) => 2,
            StartTag::DefinitionList | StartTag::DefinitionListTitle
            | StartTag::DefinitionListDefinition => 3,
            _ => 4,
        };
        if kind == 0 {
            self.start_heading(tag, cache, options)
        } else if kind == 1 {
            self.start_block_tag(tag, cache, options)
        } else if kind == 2 {
            self.start_list_tag(tag, cache, options)
        } else if kind == 3 {
            self.start_definition_tag(tag, cache, options)
        } else {
            self.start_inline_tag(tag, cache, options)
        }
    }
}

/// What the caller draws when an element ends, in this order: the gathered
/// code block, link or image, the spacing after a table cell, the html
/// gathered for the html renderer, then a newline.
#[derive(PartialEq, Eq, Debug)]
pub struct EndEffects {
    pub code_block: Option<CodeBlock>,
    pub link: Option<Link>,
    pub image: Option<Image>,
    pub cell_spacing: bool,
    pub html_block: bool,
    pub newline: bool,
}

/// The text style once `tag` has ended.
pub open spec fn end_style(s: Style, tag: EndTag) -> Style {
    match tag {
        EndTag::Heading => Style { heading: None, ..s },
        EndTag::Emphasis => Style { emphasis: false, ..s },
        EndTag::Strong => Style { strong: false, ..s },
        EndTag::Strikethrough => Style { strikethrough: false, ..s },
        _ => s,
    }
}

/// The line state once `tag` has ended: when the outermost list or a
/// footnote definition ends, blocks start and end lines again.
pub open spec fn end_line(line: Newline, tag: EndTag, levels: Seq<Option<u64>>) -> Newline {
    if (tag == EndTag::List && levels.len() == 1) || tag == EndTag::FootnoteDefinition {
        Newline { should_start_newline: true, should_end_newline: true, ..line }
    } else {
        line
    }
}

/// What ending `tag` does to the renderer `s0`, giving `s1` and the
/// drawing `res`.
pub open spec fn end_tag_done(
    s0: &CommonMarkViewerInternal,
    s1: &CommonMarkViewerInternal,
    tag: EndTag,
    res: &EndEffects,
) -> bool {
    let line = end_line(s0.line, tag, s0.list.levels());
    let levels = if tag == EndTag::List && s0.list.levels().len() > 0 {
        s0.list.levels().drop_last()
    } else {
        s0.list.levels()
    };
    &&& s1.text_style == end_style(s0.text_style, tag)
    &&& s1.line == line
    &&& s1.list.levels() == levels
    &&& s1.list.has_list_begun == (s0.list.has_list_begun && !(tag == EndTag::List
        && levels.len() == 0))
    &&& res.newline == (match tag {
        EndTag::Paragraph | EndTag::Heading | EndTag::DefinitionList => s0.line.spec_can_insert_end(),
        EndTag::List => levels.len() == 0 && line.spec_can_insert_end(),
        EndTag::FootnoteDefinition => line.spec_can_insert_end(),
        EndTag::CodeBlock => s0.code_block is Some && s0.line.should_end_newline_forced,
        _ => false,
    })
    &&& res.cell_spacing == (tag == EndTag::TableCell)
    &&& res.html_block == (tag == EndTag::HtmlBlock)
    &&& res.code_block == (if tag == EndTag::CodeBlock { s0.code_block } else { None })
    &&& s1.code_block == (if tag == EndTag::CodeBlock { None } else { s0.code_block })
    &&& res.link == (if tag == EndTag::Link { s0.link } else { None })
    &&& s1.link == (if tag == EndTag::Link { None } else { s0.link })
    &&& res.image == (if tag == EndTag::Image { s0.image } else { None })
    &&& s1.image == (if tag == EndTag::Image { None } else { s0.image })
    &&& s1.curr_table == s0.curr_table
    &&& s1.is_list_item == s0.is_list_item
    &&& s1.def_list == s0.def_list
    &&& s1.is_table == s0.is_table
    &&& s1.is_blockquote == s0.is_blockquote
    &&& s1.want_scroll_to_active_match == s0.want_scroll_to_active_match
    &&& s1.deferred_scroll_to_heading == s0.deferred_scroll_to_heading
    &&& s1.any_image_loading == s0.any_image_loading
}

impl CommonMarkViewerInternal {
    fn end_list(&mut self) -> (res: EndEffects)
        ensures
            end_tag_done(old(self), final(self), EndTag::List, &res),
    {
        if self.list.is_last_level() {
            self.line.should_start_newline = true;
            self.line.should_end_newline = true;
        }
        let insert = self.line.can_insert_end();
        let newline = self.list.end_level(insert);
        if !self.list.is_inside_a_list() {
            self.list = List::default();
            assert(self.list.levels() =~= Seq::<Option<u64>>::empty());
        }
        let ghost s0 = *old(self);
        assert(self.list.levels() == (if s0.list.levels().len() > 0 { s0.list.levels().drop_last() } else { s0.list.levels() }));
        assert(self.list.has_list_begun == (s0.list.has_list_begun && !(self.list.levels().len() == 0)));
        EndEffects {
            code_block: None,
            link: None,
            image: None,
            cell_spacing: false,
            html_block: false,
            newline,
        }
    }

    fn end_gathered(&mut self, tag: EndTag) -> (res: EndEffects)
        requires
            tag == EndTag::CodeBlock || tag == EndTag::Link || tag == EndTag::Image,
        ensures
            end_tag_done(old(self), final(self), tag, &res),
    {
        let mut effects = EndEffects {
            code_block: None,
            link: None,
            image: None,
            cell_spacing: false,
            html_block: false,
            newline: false,
        };
        match tag {
            EndTag::CodeBlock => {
                let block = self.code_block.take();
                effects.newline = block.is_some() && self.line.should_end_newline_forced;
                effects.code_block = block;
            },
            EndTag::Link => {
                effects.link = self.link.take();
            },
            _ => {
                effects.image = self.image.take();
            },
        }
        effects
    }

    fn end_line_tag(&mut self, tag: EndTag) -> (res: EndEffects)
        requires
            tag == EndTag::Paragraph || tag == EndTag::DefinitionList || tag == EndTag::Heading
                || tag == EndTag::FootnoteDefinition,
        ensures
            end_tag_done(old(self), final(self), tag, &res),
    {
        if tag == EndTag::FootnoteDefinition {
            self.line.should_start_newline = true;
            self.line.should_end_newline = true;
        }
        let newline = self.line.try_insert_end();
        if tag == EndTag::Heading {
            self.text_style.heading = None;
        }
        EndEffects {
            code_block: None,
            link: None,
            image: None,
            cell_spacing: false,
            html_block: false,
            newline,
        }
    }

    fn end_other(&mut self, tag: EndTag) -> (res: EndEffects)
        requires
            tag != EndTag::CodeBlock && tag != EndTag::Link && tag != EndTag::Image && tag
                != EndTag::List && tag != EndTag::Paragraph && tag != EndTag::DefinitionList && tag
                != EndTag::Heading && tag != EndTag::FootnoteDefinition,
        ensures
            end_tag_done(old(self), final(self), tag, &res),
    {
        match tag {
            EndTag::Emphasis => {
                self.text_style.emphasis = false;
            },
            EndTag::Strong => {
                self.text_style.strong = false;
            },
            EndTag::Strikethrough => {
                self.text_style.strikethrough = false;
            },
            _ => {},
        }
        EndEffects {
            code_block: None,
            link: None,
            image: None,
            cell_spacing: tag == EndTag::TableCell,
            html_block: tag == EndTag::HtmlBlock,
            newline: false,
        }
    }

    /// Ends the element `tag`: hands back the code block, link or image
    /// that was gathered for it, updates the style, the lists and the line
    /// state, and says what else to draw.
    pub fn end_tag(&mut self, tag: EndTag) -> (res: EndEffects)
        ensures
            end_tag_done(old(self), final(self), tag, &res),
    {
        if tag == EndTag::List {
            self.end_list()
        } else if tag == EndTag::CodeBlock || tag == EndTag::Link || tag == EndTag::Image {
            self.end_gathered(tag)
        } else if tag == EndTag::Paragraph || tag == EndTag::DefinitionList || tag
            == EndTag::Heading || tag == EndTag::FootnoteDefinition {
            self.end_line_tag(tag)
        } else {
            self.end_other(tag)
        }
    }
}

/// A run of text that the caller draws as a label: its style, its highlight
/// intervals and the indices of the search matches it shows.
#[derive(PartialEq, Eq, Debug)]
pub struct TextRun {
    pub style: Style,
    pub intervals: Vec<Interval>,
    pub matched: Vec<usize>,
}

/// What a text event needs: room, in memory, for the text in whatever is
/// being gathered.
pub open spec fn text_allowed(s: &CommonMarkViewerInternal, text: Seq<char>) -> bool {
    &&& s.image is None ==> (s.code_block matches Some(b) ==> byte_len(b.content@) + byte_len(text)
        <= usize::MAX)
    &&& s.image is None && s.code_block is None ==> (s.link matches Some(l) ==> runs_byte_len(
        l.text@,
    ) + byte_len(text) <= usize::MAX)
}

/// What a text event `text` at `span`, drawn in `style`, does to `s0`,
/// giving `s1` and `res`: an image being gathered takes it as alt text,
/// else a code block takes it, else a link takes it, else it is drawn.
pub open spec fn text_done(
    s0: &CommonMarkViewerInternal,
    s1: &CommonMarkViewerInternal,
    style: Style,
    text: String,
    span: Range<usize>,
    ranges: Seq<Range<usize>>,
    active: Option<&Range<usize>>,
    res: &Option<TextRun>,
) -> bool {
    &&& match s0.image {
        Some(img) => {
            &&& res is None
            &&& s1.image matches Some(i) && i.uri == img.uri && i.alt_text@ == img.alt_text@.push(
                StyledText { style, text },
            ) && i.alt_src_spans@ == img.alt_src_spans@.push(span)
            &&& s1.code_block == s0.code_block
            &&& s1.link == s0.link
        },
        None => match s0.code_block {
            Some(b) => {
                &&& res is None
                &&& s1.image == s0.image
                &&& s1.code_block matches Some(c) && c.lang == b.lang && c.content@ == b.content@
                    + text@ && c.chunks@ == b.chunks@.push(
                    (
                        Range {
                            start: byte_len(b.content@) as usize,
                            end: (byte_len(b.content@) + byte_len(text@)) as usize,
                        },
                        span,
                    ),
                )
                &&& s1.link == s0.link
            },
            None => match s0.link {
                Some(l) => {
                    &&& res is None
                    &&& s1.image == s0.image
                    &&& s1.code_block == s0.code_block
                    &&& s1.link matches Some(m) && m.destination == l.destination && m.text@
                        == l.text@.push(StyledText { style, text }) && m.chunks@ == l.chunks@.push(
                        (
                            Range {
                                start: runs_byte_len(l.text@) as usize,
                                end: (runs_byte_len(l.text@) + byte_len(text@)) as usize,
                            },
                            span,
                        ),
                    )
                },
                None => {
                    &&& s1.image == s0.image
                    &&& s1.code_block == s0.code_block
                    &&& s1.link == s0.link
                    &&& res matches Some(r) && r.style == style && r.intervals@
                        == spec_search_intervals(ranges, active, span, byte_len(text@) as usize)
                        && r.matched@ == indices_touching_spans(ranges, seq![span])
                },
            },
        },
    }
    &&& s1.curr_table == s0.curr_table
    &&& s1.list == s0.list
    &&& s1.line == s0.line
    &&& s1.is_list_item == s0.is_list_item
    &&& s1.def_list == s0.def_list
    &&& s1.is_table == s0.is_table
    &&& s1.is_blockquote == s0.is_blockquote
    &&& s1.want_scroll_to_active_match == s0.want_scroll_to_active_match
    &&& s1.deferred_scroll_to_heading == s0.deferred_scroll_to_heading
    &&& s1.any_image_loading == s0.any_image_loading
}

fn matches_in_span(ranges: &[Range<usize>], span: &Range<usize>) -> (res: Vec<usize>)
    ensures
        res@ == indices_touching_spans(ranges@, seq![*span]),
{
    let ghost spans = seq![*span];
    let mut out: Vec<usize> = Vec::new();
    let mut i: usize = 0;
    while i < ranges.len()
        invariant
            i <= ranges@.len(),
            spans == seq![*span],
            out@ == indices_touching_spans(ranges@.take(i as int), spans),
        decreases ranges@.len() - i,
    {
        proof {
            let t = ranges@.take(i + 1);
            assert(t.drop_last() =~= ranges@.take(i as int));
            assert(t.last() == ranges@[i as int]);
        }
        let r = &ranges[i];
        let hit = r.start < r.end && r.start < span.end && r.end > span.start;
        proof {
            if r.start < span.end && r.end > span.start {
                assert(spans[0] == *span);
            }
        }
        if hit {
            out.push(i);
        }
        i = i + 1;
    }
    assert(ranges@.take(ranges@.len() as int) =~= ranges@);
    out
}

impl CommonMarkViewerInternal {
    fn text_with_style(
        &mut self,
        style: Style,
        text: String,
        src_span: Range<usize>,
        ranges: &[Range<usize>],
        active: Option<&Range<usize>>,
    ) -> (res: Option<TextRun>)
        requires
            text_allowed(old(self), text@),
        ensures
            text_done(old(self), final(self), style, text, src_span, ranges@, active, &res),
            final(self).text_style == old(self).text_style,
    {
        if let Some(image) = &mut self.image {
            image.push_alt_text(StyledText { style, text }, src_span);
            None
        } else if let Some(block) = &mut self.code_block {
            block.push_text(text.as_str(), src_span);
            None
        } else if let Some(link) = &mut self.link {
            link.push_text(StyledText { style, text }, src_span);
            None
        } else {
            let len = text.as_str().len();
            let intervals = search_intervals(ranges, active, &src_span, len);
            let matched = matches_in_span(ranges, &src_span);
            Some(TextRun { style, intervals, matched })
        }
    }

    /// A text event: alt text of the image being gathered, else text of the
    /// code block, else of the link, else a run for the caller to draw.
    pub fn event_text(
        &mut self,
        text: String,
        src_span: Range<usize>,
        ranges: &[Range<usize>],
        active: Option<&Range<usize>>,
    ) -> (res: Option<TextRun>)
        requires
            text_allowed(old(self), text@),
        ensures
            text_done(
                old(self),
                final(self),
                old(self).text_style,
                text,
                src_span,
                ranges@,
                active,
                &res,
            ),
            final(self).text_style == old(self).text_style,
    {
        let style = self.text_style;
        self.text_with_style(style, text, src_span, ranges, active)
    }

    /// An inline code event: text drawn in the code style, which is off
    /// again afterwards.
    pub fn event_code(
        &mut self,
        text: String,
        src_span: Range<usize>,
        ranges: &[Range<usize>],
        active: Option<&Range<usize>>,
    ) -> (res: Option<TextRun>)
        requires
            text_allowed(old(self), text@),
        ensures
            text_done(
                old(self),
                final(self),
                Style { code: true, ..old(self).text_style },
                text,
                src_span,
                ranges@,
                active,
                &res,
            ),
            final(self).text_style == (Style { code: false, ..old(self).text_style }),
    {
        self.text_style.code = true;
        let style = self.text_style;
        let res = self.text_with_style(style, text, src_span, ranges, active);
        self.text_style.code = false;
        res
    }
}

/// The index of the first text event, if any.
pub open spec fn first_text(events: Seq<SpannedEvent>) -> Option<int>
    decreases events.len(),
{
    if events.len() == 0 {
        None
    } else {
        match first_text(events.drop_last()) {
            Some(i) => Some(i),
            None => if events.last().0 is Text {
                Some(events.len() - 1)
            } else {
                None
            },
        }
    }
}

/// The source span of a block quote's first text event, where an alert's
/// marker stands; `0..0` where there is no text.
pub fn alert_title_span(events: &[SpannedEvent]) -> (res: Range<usize>)
    ensures
        res == (match first_text(events@) {
            Some(i) => events@[i].1,
            None => Range { start: 0, end: 0 },
        }),
{
    let mut i: usize = 0;
    while i < events.len()
        invariant
            i <= events@.len(),
            first_text(events@.take(i as int)) is None,
        decreases events@.len() - i,
    {
        proof {
            let t = events@.take(i + 1);
            assert(t.drop_last() =~= events@.take(i as int));
            assert(t.last() == events@[i as int]);
        }
        if let MdEvent::Text(_) = &events[i].0 {
            proof {
                lemma_first_text_prefix(events@, i as int + 1);
            }
            return Range { start: events[i].1.start, end: events[i].1.end };
        }
        i = i + 1;
    }
    assert(events@.take(events@.len() as int) =~= events@);
    Range { start: 0, end: 0 }
}

proof fn lemma_first_text_prefix(events: Seq<SpannedEvent>, n: int)
    requires
        0 <= n <= events.len(),
        first_text(events.take(n)) is Some,
    ensures
        first_text(events) == first_text(events.take(n)),
    decreases events.len(),
{
    if n < events.len() {
        assert(events.drop_last().take(n) =~= events.take(n));
        lemma_first_text_prefix(events.drop_last(), n);
    } else {
        assert(events.take(n) =~= events);
    }
}

/// The index of the first range that starts before `span` ends and ends
/// after it starts.
pub open spec fn first_touching(ranges: Seq<Range<usize>>, span: Range<usize>) -> Option<int>
    decreases ranges.len(),
{
    if ranges.len() == 0 {
        None
    } else {
        match first_touching(ranges.drop_last(), span) {
            Some(i) => Some(i),
            None => if ranges.last().start < span.end && ranges.last().end > span.start {
                Some(ranges.len() - 1)
            } else {
                None
            },
        }
    }
}

proof fn lemma_first_touching_prefix(ranges: Seq<Range<usize>>, span: Range<usize>, n: int)
    requires
        0 <= n <= ranges.len(),
        first_touching(ranges.take(n), span) is Some,
    ensures
        first_touching(ranges, span) == first_touching(ranges.take(n), span),
    decreases ranges.len(),
{
    if n < ranges.len() {
        assert(ranges.drop_last().take(n) =~= ranges.take(n));
        lemma_first_touching_prefix(ranges.drop_last(), span, n);
    } else {
        assert(ranges.take(n) =~= ranges);
    }
}

/// Whether a search match is on an alert's title, whether the active one
/// is, and which match (the first) it is.
#[derive(PartialEq, Eq, Debug)]
pub struct TitleMatch {
    pub has_match: bool,
    pub is_active: bool,
    pub index: Option<usize>,
}

/// What an alert's title shows of the search matches `ranges`, of which
/// `active` is the active one, where `span` is the source span of the
/// alert's marker.
pub fn alert_title_match(
    ranges: &[Range<usize>],
    active: Option<&Range<usize>>,
    span: &Range<usize>,
) -> (res: TitleMatch)
    ensures
        res.has_match == (first_touching(ranges@, *span) is Some),
        res.is_active == (res.has_match && match active {
            Some(a) => a.start < span.end && a.end > span.start,
            None => false,
        }),
        res.index == (match first_touching(ranges@, *span) {
            Some(i) => Some(i as usize),
            None => None,
        }),
{
    let mut i: usize = 0;
    let mut index: Option<usize> = None;
    while i < ranges.len()
        invariant_except_break
            i <= ranges@.len(),
            index is None,
            first_touching(ranges@.take(i as int), *span) is None,
        ensures
            index is Some ==> index == (match first_touching(ranges@, *span) {
                Some(i) => Some(i as usize),
                None => None,
            }),
            index is None ==> i == ranges@.len() && first_touching(ranges@.take(i as int), *span) is None,
        decreases ranges@.len() - i,
    {
        proof {
            let t = ranges@.take(i + 1);
            assert(t.drop_last() =~= ranges@.take(i as int));
            assert(t.last() == ranges@[i as int]);
        }
        if ranges[i].start < span.end && ranges[i].end > span.start {
            proof {
                lemma_first_touching_prefix(ranges@, *span, i as int + 1);
            }
            index = Some(i);
            break;
        }
        i = i + 1;
    }
    if index.is_none() {
        assert(ranges@.take(i as int) =~= ranges@);
    }
    let has_match = index.is_some();
    let is_active = has_match && match active {
        Some(a) => a.start < span.end && a.end > span.start,
        None => false,
    };
    TitleMatch { has_match, is_active, index }
}

/// What [`split_point_span`] returns.
pub open spec fn spec_split_point_span(
    recorded: Seq<usize>,
    index: usize,
    block_start: Option<usize>,
    end: usize,
) -> Option<Range<usize>> {
    if recorded.contains(index) {
        None
    } else {
        Some(
            Range {
                start: match block_start {
                    Some(s) => s,
                    None => end,
                },
                end,
            },
        )
    }
}

/// The source span to record for a split point at event `index`, the end
/// of a block whose source ends at `end`: from the block's start, or from
/// `end` where no start was seen; `None` where `recorded` (the events of
/// the split points recorded so far) already holds `index`.
pub fn split_point_span(
    recorded: &[usize],
    index: usize,
    block_start: Option<usize>,
    end: usize,
) -> (res: Option<Range<usize>>)
    ensures
        res == spec_split_point_span(recorded@, index, block_start, end),
{
    let mut i: usize = 0;
    while i < recorded.len()
        invariant
            i <= recorded@.len(),
            forall|j: int| 0 <= j < i ==> recorded@[j] != index,
        decreases recorded@.len() - i,
    {
        if recorded[i] == index {
            return None;
        }
        i = i + 1;
    }
    let start = match block_start {
        Some(s) => s,
        None => end,
    };
    Some(Range { start, end })
}

/// The split point, among the blocks with source spans `spans`, whose
/// position stands for byte `offset`: the first block whose span holds
/// it, else the last block that starts at or before it, else the first
/// block; `None` where there are no blocks.
pub fn split_point_for_byte_offset(spans: &[Range<usize>], offset: usize) -> (res: Option<usize>)
    ensures
        match res {
            Some(k) => {
                &&& k < spans@.len()
                &&& if exists|q: int|
                    0 <= q < spans@.len() && #[trigger] spans@[q].start <= offset && offset
                        < spans@[q].end {
                    spans@[k as int].start <= offset && offset < spans@[k as int].end && forall|
                        j: int,
                    | 0 <= j < k ==> !(spans@[j].start <= offset && offset < spans@[j].end)
                } else if exists|q: int| 0 <= q < spans@.len() && #[trigger] spans@[q].start <= offset {
                    spans@[k as int].start <= offset && forall|j: int|
                        k < j < spans@.len() ==> !(spans@[j].start <= offset)
                } else {
                    k == 0
                }
            },
            None => spans@.len() == 0,
        },
{
    let mut i: usize = 0;
    while i < spans.len()
        invariant
            i <= spans@.len(),
            forall|j: int| 0 <= j < i ==> !(spans@[j].start <= offset && offset < spans@[j].end),
        decreases spans@.len() - i,
    {
        if spans[i].start <= offset && offset < spans[i].end {
            return Some(i);
        }
        i = i + 1;
    }
    let mut k: usize = spans.len();
    while k > 0
        invariant
            k <= spans@.len(),
            forall|j: int| 0 <= j < spans@.len() ==> !(spans@[j].start <= offset && offset < spans@[j].end),
            forall|j: int| k <= j < spans@.len() ==> !(spans@[j].start <= offset),
        decreases k,
    {
        if spans[k - 1].start <= offset {
            return Some(k - 1);
        }
        k = k - 1;
    }
    if spans.len() > 0 {
        Some(0)
    } else {
        None
    }
}

impl CommonMarkViewerInternal {
    /// Whether starting `tag` here begins a block at which rendering may
    /// restart: a paragraph, heading or code block outside any list.
    pub fn is_safe_block_start(&self, tag: &StartTag) -> (res: bool)
        ensures
            res == (self.list.levels().len() == 0 && (tag is Paragraph || tag is Heading
                || tag is CodeBlock)),
    {
        !self.list.is_inside_a_list() && match tag {
            StartTag::Paragraph | StartTag::Heading { .. } | StartTag::CodeBlock { .. } => true,
            _ => false,
        }
    }

    /// Whether ending `tag` here ends a block after which rendering may
    /// restart.
    pub fn is_safe_block_end(&self, tag: EndTag) -> (res: bool)
        ensures
            res == (self.list.levels().len() == 0 && (tag == EndTag::Paragraph || tag
                == EndTag::Heading || tag == EndTag::CodeBlock)),
    {
        !self.list.is_inside_a_list() && (tag == EndTag::Paragraph || tag == EndTag::Heading || tag
            == EndTag::CodeBlock)
    }

    /// Starts drawing a block quote: returns whether a newline goes first,
    /// and lets the quote start a line even at the top of the document.
    pub fn begin_blockquote(&mut self) -> (res: bool)
        ensures
            res == old(self).line.spec_can_insert_start(),
            *final(self) == (CommonMarkViewerInternal {
                line: Newline { should_not_start_newline_forced: false, ..old(self).line },
                ..*old(self)
            }),
    {
        let newline = self.line.try_insert_start();
        self.line.should_not_start_newline_forced = false;
        newline
    }

    /// Finishes drawing a block quote, `is_last` when nothing follows it:
    /// returns whether a newline ends it.
    pub fn finish_blockquote(&mut self, is_last: bool) -> (res: bool)
        ensures
            *final(self) == (CommonMarkViewerInternal {
                line: if is_last {
                    Newline { should_end_newline_forced: false, ..old(self).line }
                } else {
                    old(self).line
                },
                is_blockquote: false,
                ..*old(self)
            }),
            res == final(self).line.spec_can_insert_end(),
    {
        if is_last {
            self.line.should_end_newline_forced = false;
        }
        let newline = self.line.try_insert_end();
        self.is_blockquote = false;
        newline
    }

    /// Starts drawing a table: returns whether a newline goes first and the
    /// table's number, and counts it.
    pub fn begin_table(&mut self) -> (res: (bool, usize))
        requires
            old(self).curr_table < usize::MAX,
        ensures
            res.0 == old(self).line.spec_can_insert_start(),
            res.1 == old(self).curr_table,
            *final(self) == (CommonMarkViewerInternal {
                curr_table: (old(self).curr_table + 1) as usize,
                ..*old(self)
            }),
    {
        let newline = self.line.try_insert_start();
        let index = self.curr_table;
        self.curr_table = self.curr_table + 1;
        (newline, index)
    }

    /// Finishes drawing a table, `is_last` when nothing follows it: returns
    /// whether a newline ends it.
    pub fn finish_table(&mut self, is_last: bool) -> (res: bool)
        ensures
            *final(self) == (CommonMarkViewerInternal {
                line: if is_last {
                    Newline { should_end_newline_forced: false, ..old(self).line }
                } else {
                    old(self).line
                },
                is_table: false,
                ..*old(self)
            }),
            res == final(self).line.spec_can_insert_end(),
    {
        if is_last {
            self.line.should_end_newline_forced = false;
        }
        let newline = self.line.try_insert_end();
        self.is_table = false;
        newline
    }

    /// Which events the scrollable view draws: `preceding` is the event
    /// index of the last split point that ends above the viewport, if any,
    /// and `last_event_index` the index of the first split point that
    /// starts below the drawn area (or the number of events). Returns how
    /// many events to skip and how many to take; after a split point the
    /// first drawn block may start a line.
    pub fn viewport_slice(&mut self, preceding: Option<usize>, last_event_index: usize) -> (res: (
        usize,
        usize,
    ))
        requires
            match preceding {
                Some(idx) => idx < usize::MAX,
                None => true,
            },
        ensures
            res == (match preceding {
                Some(idx) => ((idx + 1) as usize, if last_event_index >= idx {
                    (last_event_index - idx) as usize
                } else {
                    0
                }),
                None => (0, last_event_index),
            }),
            *final(self) == (CommonMarkViewerInternal {
                line: match preceding {
                    Some(_) => Newline { should_not_start_newline_forced: false, ..old(self).line },
                    None => old(self).line,
                },
                ..*old(self)
            }),
    {
        match preceding {
            Some(idx) => {
                self.line.should_not_start_newline_forced = false;
                (idx + 1, last_event_index.saturating_sub(idx))
            },
            None => (0, last_event_index),
        }
    }
}

} // verus!
