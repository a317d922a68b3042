use egui_commonmark::blocks::{Style, StyledText};
use egui_commonmark::elements::ItemMarker;
use egui_commonmark::misc::CommonMarkCache;
use egui_commonmark::options::CommonMarkOptions;
use egui_commonmark::pulldown::{MdEvent, SpannedEvent};
use egui_commonmark::render::{
    alert_title_match, alert_title_span, split_point_for_byte_offset, CommonMarkViewerInternal,
    EndTag, StartTag,
};

#[test]
fn emphasis_is_on_between_its_start_and_end() {
    let mut r = CommonMarkViewerInternal::new();
    let mut cache = CommonMarkCache::new();
    let options = CommonMarkOptions::default();
    r.start_tag(StartTag::Emphasis, &mut cache, &options);
    assert!(r.text_style.emphasis);
    let run = r.event_text("hi".to_string(), 0..2, &[], None).unwrap();
    assert!(run.style.emphasis);
    r.end_tag(EndTag::Emphasis);
    assert_eq!(r.text_style, Style::default());
}

#[test]
fn heading_sets_its_level_and_scrolls_when_targeted() {
    let mut r = CommonMarkViewerInternal::new();
    let mut cache = CommonMarkCache::new();
    cache.set_scroll_to_id_target(Some("intro".to_string()));
    let options = CommonMarkOptions::default();
    let fx = r.start_tag(
        StartTag::Heading { level: 1, id: Some("intro".to_string()) },
        &mut cache,
        &options,
    );
    assert!(fx.scroll_to_heading && fx.newline);
    assert_eq!(cache.scroll_to_id_target(), None);
    assert_eq!(r.text_style.heading, Some(1));
    r.end_tag(EndTag::Heading);
    assert_eq!(r.text_style.heading, None);

    cache.set_scroll_to_id_target(Some("other".to_string()));
    let fx = r.start_tag(
        StartTag::Heading { level: 0, id: Some("intro".to_string()) },
        &mut cache,
        &options,
    );
    assert!(!fx.scroll_to_heading);
    assert_eq!(cache.scroll_to_id_target(), Some("other"));
}

#[test]
fn numbered_list_items_count_up() {
    let mut r = CommonMarkViewerInternal::new();
    let mut cache = CommonMarkCache::new();
    let options = CommonMarkOptions::default();
    r.start_tag(StartTag::List { start: Some(3) }, &mut cache, &options);
    let first = r.start_tag(StartTag::Item, &mut cache, &options).item.unwrap();
    assert_eq!(first.marker, ItemMarker::Number(3));
    assert!(!first.newline);
    assert_eq!(first.indent, 0);
    r.start_tag(StartTag::List { start: None }, &mut cache, &options);
    let nested = r.start_tag(StartTag::Item, &mut cache, &options).item.unwrap();
    assert_eq!(nested.marker, ItemMarker::HollowBullet);
    assert_eq!(nested.indent, 4);
    assert!(nested.newline);
    r.end_tag(EndTag::List);
    let second = r.start_tag(StartTag::Item, &mut cache, &options).item.unwrap();
    assert_eq!(second.marker, ItemMarker::Number(4));
    let end = r.end_tag(EndTag::List);
    assert!(!r.list.is_inside_a_list());
    assert!(!r.list.has_list_begun);
    assert!(r.line.should_start_newline && r.line.should_end_newline);
    assert!(end.newline);
}

#[test]
fn text_goes_into_what_is_being_gathered() {
    let mut r = CommonMarkViewerInternal::new();
    let mut cache = CommonMarkCache::new();
    let options = CommonMarkOptions::default();
    r.start_tag(StartTag::CodeBlock { lang: Some("rust".to_string()) }, &mut cache, &options);
    assert!(r.event_text("fn main()".to_string(), 8..17, &[], None).is_none());
    let fx = r.end_tag(EndTag::CodeBlock);
    let block = fx.code_block.unwrap();
    assert_eq!(block.lang, Some("rust".to_string()));
    assert_eq!(block.content, "fn main()");
    assert!(r.code_block.is_none());

    r.start_tag(StartTag::Link { dest: "#a".to_string() }, &mut cache, &options);
    r.event_code("x".to_string(), 1..4, &[], None);
    let link = r.end_tag(EndTag::Link).link.unwrap();
    assert_eq!(link.destination, "#a");
    assert_eq!(
        link.text,
        vec![StyledText::new(Style { code: true, ..Style::default() }, "x".to_string())]
    );
    assert!(!r.text_style.code);

    r.start_tag(StartTag::Image { dest: "a.png".to_string() }, &mut cache, &options);
    r.event_text("alt".to_string(), 2..5, &[], None);
    let image = r.end_tag(EndTag::Image).image.unwrap();
    assert_eq!(image.uri, "file://a.png");
    assert_eq!(image.alt_src_spans, vec![2..5]);
}

#[test]
fn plain_text_run_carries_its_matches() {
    let mut r = CommonMarkViewerInternal::new();
    let ranges = vec![2..4, 20..22];
    let run = r.event_text("hello".to_string(), 0..5, &ranges, Some(&(2..4))).unwrap();
    assert_eq!(run.intervals, vec![(2..4, true)]);
    assert_eq!(run.matched, vec![0]);
}

#[test]
fn paragraph_newlines_follow_the_line_state() {
    let mut r = CommonMarkViewerInternal::new();
    let mut cache = CommonMarkCache::new();
    let options = CommonMarkOptions::default();
    // The first element of the document does not start with a newline.
    assert!(!r.start_tag(StartTag::Paragraph, &mut cache, &options).newline);
    assert!(r.end_tag(EndTag::Paragraph).newline);
    r.line.should_not_start_newline_forced = false;
    assert!(r.start_tag(StartTag::Paragraph, &mut cache, &options).newline);
    assert!(r.end_tag(EndTag::TableCell).cell_spacing);
}

#[test]
fn definition_list_title_newlines() {
    let mut r = CommonMarkViewerInternal::new();
    let mut cache = CommonMarkCache::new();
    let options = CommonMarkOptions::default();
    r.line.should_not_start_newline_forced = false;
    assert!(r.start_tag(StartTag::DefinitionList, &mut cache, &options).newline);
    assert!(!r.start_tag(StartTag::DefinitionListTitle, &mut cache, &options).newline);
    assert!(r.start_tag(StartTag::DefinitionListTitle, &mut cache, &options).newline);
    r.start_tag(StartTag::DefinitionListDefinition, &mut cache, &options);
    assert!(r.def_list.is_def_list_def);
}

#[test]
fn blockquote_and_table_framing() {
    let mut r = CommonMarkViewerInternal::new();
    let mut cache = CommonMarkCache::new();
    let options = CommonMarkOptions::default();
    r.start_tag(StartTag::BlockQuote, &mut cache, &options);
    assert!(r.is_blockquote);
    assert!(!r.begin_blockquote());
    assert!(!r.line.should_not_start_newline_forced);
    assert!(!r.finish_blockquote(true));
    assert!(!r.is_blockquote);
    r.line.should_end_newline_forced = true;
    r.start_tag(StartTag::Table, &mut cache, &options);
    assert_eq!(r.begin_table(), (true, 0));
    assert_eq!(r.begin_table(), (true, 1));
    assert!(r.finish_table(false));
    assert!(!r.is_table);
}

#[test]
fn alert_title_is_found_and_matched() {
    let events: Vec<SpannedEvent> = vec![
        (MdEvent::SoftBreak, 0..1),
        (MdEvent::Text("[!NOTE]".to_string()), 2..9),
        (MdEvent::Text("more".to_string()), 10..14),
    ];
    let span = alert_title_span(&events);
    assert_eq!(span, 2..9);
    assert_eq!(alert_title_span(&[]), 0..0);
    let ranges = vec![0..1, 2..9];
    let title = alert_title_match(&ranges, Some(&(2..9)), &span);
    assert!(title.has_match && title.is_active);
    assert_eq!(title.index, Some(1));
    let miss = alert_title_match(&[20..30], None, &span);
    assert!(!miss.has_match && !miss.is_active && miss.index.is_none());
}

#[test]
fn split_points_place_byte_offsets() {
    let spans = vec![0..10, 20..30, 40..50];
    assert_eq!(split_point_for_byte_offset(&spans, 25), Some(1));
    assert_eq!(split_point_for_byte_offset(&spans, 35), Some(1));
    assert_eq!(split_point_for_byte_offset(&spans, 60), Some(2));
    assert_eq!(split_point_for_byte_offset(&[5..10], 1), Some(0));
    assert_eq!(split_point_for_byte_offset(&[], 1), None);
}

#[test]
fn viewport_slice_starts_after_the_preceding_split() {
    let mut r = CommonMarkViewerInternal::new();
    assert_eq!(r.viewport_slice(None, 12), (0, 12));
    assert!(r.line.should_not_start_newline_forced);
    assert_eq!(r.viewport_slice(Some(4), 12), (5, 8));
    assert!(!r.line.should_not_start_newline_forced);
    assert_eq!(r.viewport_slice(Some(15), 12), (16, 0));
}

#[test]
fn safe_block_boundaries_are_outside_lists() {
    let mut r = CommonMarkViewerInternal::new();
    let mut cache = CommonMarkCache::new();
    let options = CommonMarkOptions::default();
    assert!(r.is_safe_block_start(&StartTag::Paragraph));
    assert!(!r.is_safe_block_start(&StartTag::Table));
    assert!(r.is_safe_block_end(EndTag::CodeBlock));
    r.start_tag(StartTag::List { start: None }, &mut cache, &options);
    assert!(!r.is_safe_block_start(&StartTag::Paragraph));
    assert!(!r.is_safe_block_end(EndTag::Paragraph));
}
