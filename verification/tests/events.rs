use egui_commonmark::blocks::Style;
use egui_commonmark::pulldown::{
    delayed_events, delayed_events_list_item, end_of_start, md_event, md_tag, parse_document,
    parse_table, parser_options, parser_options_extras, MdEvent, MdTag, RenderEvent,
    SpannedEvent, ENABLE_HEADING_ATTRIBUTES, ENABLE_MATH, PARSER_OPTIONS,
};
use egui_commonmark::render::{EndTag, StartTag};
use egui_commonmark::table::cell_text_pieces;

fn at(e: MdEvent, i: usize) -> SpannedEvent {
    (e, i..i + 1)
}

fn text(s: &str, i: usize) -> SpannedEvent {
    at(MdEvent::Text(s.to_string()), i)
}

#[test]
fn parser_options_are_the_supported_extensions() {
    assert_eq!(parser_options(), PARSER_OPTIONS);
    assert_eq!(parser_options_extras(false, false), PARSER_OPTIONS);
    assert_eq!(parser_options_extras(true, false), PARSER_OPTIONS | ENABLE_MATH);
    assert_eq!(
        parser_options_extras(true, true),
        PARSER_OPTIONS | ENABLE_MATH | ENABLE_HEADING_ATTRIBUTES
    );
}

#[test]
fn delayed_events_stop_after_the_end_tag() {
    let events = vec![
        at(MdEvent::Start(MdTag::BlockQuote), 0),
        text("a", 1),
        at(MdEvent::End(MdTag::Paragraph), 2),
        at(MdEvent::End(MdTag::BlockQuote), 3),
        text("after", 4),
    ];
    assert_eq!(delayed_events(&events, 1, MdTag::BlockQuote), 4);
    assert_eq!(delayed_events(&events, 1, MdTag::Table), 5);
    assert_eq!(delayed_events(&events, 5, MdTag::Table), 5);
}

#[test]
fn list_item_events_stop_at_a_nested_list() {
    let events = vec![
        text("a", 0),
        at(MdEvent::Start(MdTag::List), 1),
        at(MdEvent::Start(MdTag::Item), 2),
        text("b", 3),
        at(MdEvent::End(MdTag::Item), 4),
    ];
    assert_eq!(delayed_events_list_item(&events, 0), 2);
    assert_eq!(delayed_events_list_item(&events, 2), 5);
}

#[test]
fn table_is_read_into_head_and_rows() {
    // | a | b |
    // |---|---|
    // | c | d |
    let events = vec![
        at(MdEvent::Start(MdTag::TableHead), 0),
        at(MdEvent::Start(MdTag::TableCell), 1),
        text("a", 2),
        at(MdEvent::End(MdTag::TableCell), 3),
        at(MdEvent::Start(MdTag::TableCell), 4),
        text("b", 5),
        at(MdEvent::End(MdTag::TableCell), 6),
        at(MdEvent::End(MdTag::TableHead), 7),
        at(MdEvent::Start(MdTag::TableRow), 8),
        at(MdEvent::Start(MdTag::TableCell), 9),
        text("c", 10),
        at(MdEvent::End(MdTag::TableCell), 11),
        at(MdEvent::Start(MdTag::TableCell), 12),
        text("d", 13),
        at(MdEvent::End(MdTag::TableCell), 14),
        at(MdEvent::End(MdTag::TableRow), 15),
        at(MdEvent::End(MdTag::Table), 16),
    ];
    let end = delayed_events(&events, 0, MdTag::Table);
    assert_eq!(end, 17);
    let table = parse_table(&events, 0, end);
    // A cell's end tag opens the next cell's events; the table's end tag
    // makes a last, empty row.
    assert_eq!(table.header, vec![vec![0, 1, 2], vec![3, 4, 5]]);
    assert_eq!(
        table.rows,
        vec![vec![vec![8, 9, 10], vec![11, 12, 13]], vec![]]
    );
}

#[test]
fn empty_table_range_reads_nothing() {
    let table = parse_table(&[], 0, 0);
    assert!(table.header.is_empty() && table.rows.is_empty());
}

#[test]
fn cell_text_pieces_follow_the_inline_style() {
    let events = vec![
        at(MdEvent::Start(MdTag::TableCell), 0),
        text("a", 1),
        at(MdEvent::Start(MdTag::Strong), 2),
        at(MdEvent::Code("b".to_string()), 3),
        at(MdEvent::End(MdTag::Strong), 4),
        at(MdEvent::SoftBreak, 5),
        at(MdEvent::InlineHtml("<i>".to_string()), 6),
    ];
    let base = Style::default();
    let pieces = cell_text_pieces(&base, &events).unwrap();
    let strong_code = Style { strong: true, code: true, ..Style::default() };
    assert_eq!(
        pieces,
        vec![
            (base, "a".to_string()),
            (strong_code, "b".to_string()),
            (base, " ".to_string()),
            (base, "<i>".to_string()),
        ]
    );
}

#[test]
fn cell_with_other_content_has_no_pieces() {
    let events = vec![text("a", 0), at(MdEvent::HardBreak, 1)];
    assert!(cell_text_pieces(&Style::default(), &events).is_none());
    let events = vec![at(MdEvent::Start(MdTag::List), 0)];
    assert!(cell_text_pieces(&Style::default(), &events).is_none());
}

#[test]
fn parse_document_reads_the_renderer_events() {
    let opts = parser_options_extras(true, true);
    let doc = parse_document("# Hi {#top}\n\n- [x] *a* `c` $m$\n", opts);
    let kinds: Vec<RenderEvent> = doc.events.into_iter().map(|(e, _)| e).collect();
    assert_eq!(
        kinds,
        vec![
            RenderEvent::Start(StartTag::Heading { level: 0, id: Some("top".to_string()) }),
            RenderEvent::Text("Hi".to_string()),
            RenderEvent::End(EndTag::Heading),
            RenderEvent::Start(StartTag::List { start: None }),
            RenderEvent::Start(StartTag::Item),
            RenderEvent::TaskListMarker(true),
            RenderEvent::Start(StartTag::Emphasis),
            RenderEvent::Text("a".to_string()),
            RenderEvent::End(EndTag::Emphasis),
            RenderEvent::Text(" ".to_string()),
            RenderEvent::Code("c".to_string()),
            RenderEvent::Text(" ".to_string()),
            RenderEvent::InlineMath("m".to_string()),
            RenderEvent::End(EndTag::Item),
            RenderEvent::End(EndTag::List),
        ]
    );
}

#[test]
fn parse_document_keeps_spans_and_the_library_reading() {
    let doc = parse_document("a `b`\n\n> [link](u)\n", PARSER_OPTIONS);
    assert_eq!(doc.events.len(), doc.md.len());
    for (r, m) in doc.events.iter().zip(doc.md.iter()) {
        assert_eq!(r.1, m.1);
        assert_eq!(md_event(&r.0), m.0);
    }
    assert_eq!(doc.events[0].0, RenderEvent::Start(StartTag::Paragraph));
    assert_eq!(doc.events[0].1.start, 0);
    assert_eq!(doc.md[2], (MdEvent::Code("b".to_string()), 2..5));
    assert!(doc.events.iter().any(|(e, _)| *e
        == RenderEvent::Start(StartTag::Link { dest: "u".to_string() })));
    assert!(doc.md.iter().any(|(e, _)| *e == MdEvent::Start(MdTag::Link)));
    assert!(doc.md.iter().any(|(e, _)| *e == MdEvent::End(MdTag::BlockQuote)));
}

#[test]
fn code_blocks_keep_their_language() {
    let doc = parse_document("```rust\nfn x() {}\n```\n\n    indented\n", PARSER_OPTIONS);
    assert_eq!(doc.events[0].0, RenderEvent::Start(StartTag::CodeBlock { lang: Some("rust".to_string()) }));
    assert!(doc.events.iter().any(|(e, _)| *e == RenderEvent::Start(StartTag::CodeBlock { lang: None })));
    assert_eq!(doc.md[0].0, MdEvent::Start(MdTag::Other));
}

#[test]
fn end_tags_close_their_start_tags() {
    assert_eq!(end_of_start(&StartTag::Link { dest: "x".to_string() }), EndTag::Link);
    assert_eq!(md_tag(EndTag::Heading), MdTag::Other);
    assert_eq!(md_tag(EndTag::TableCell), MdTag::TableCell);
    assert_eq!(md_event(&RenderEvent::Rule), MdEvent::Other);
    assert_eq!(md_event(&RenderEvent::Start(StartTag::List { start: Some(3) })), MdEvent::Start(MdTag::List));
}
