use egui_commonmark::blocks::{
    CodeBlock, HeadingSize, Image, Link, LinkTarget, Style, StyledText,
};
use egui_commonmark::misc::LinkHooks;
use egui_commonmark::options::CommonMarkOptions;

fn plain(text: &str) -> StyledText {
    StyledText::new(Style::default(), text.to_string())
}

#[test]
fn default_style_is_plain() {
    let s = Style::default();
    assert_eq!(s.heading, None);
    assert!(!s.strong && !s.emphasis && !s.strikethrough && !s.quote && !s.code);
    assert_eq!(s.heading_size(), None);
}

#[test]
fn heading_sizes_shrink_towards_the_body() {
    let size = |level: u8| {
        Style {
            heading: Some(level),
            ..Style::default()
        }
        .heading_size()
        .unwrap()
    };
    assert_eq!(size(0), HeadingSize::Heading);
    assert_eq!(size(1), HeadingSize::Scaled { strong: true, thousandths: 835 });
    assert_eq!(size(2), HeadingSize::Scaled { strong: true, thousandths: 668 });
    assert_eq!(size(3), HeadingSize::Scaled { strong: true, thousandths: 501 });
    assert_eq!(size(4), HeadingSize::Scaled { strong: false, thousandths: 334 });
    assert_eq!(size(5), HeadingSize::Scaled { strong: false, thousandths: 167 });
    assert_eq!(size(9), HeadingSize::Scaled { strong: false, thousandths: 167 });
}

#[test]
fn code_block_records_chunks_in_bytes() {
    let mut block = CodeBlock::default();
    block.push_text("fn é()", 10..17);
    block.push_text("\n", 17..18);
    assert_eq!(block.content, "fn é()\n");
    assert_eq!(block.chunks, vec![(0..7, 10..17), (7..8, 17..18)]);
    assert_eq!(block.lang, None);
}

#[test]
fn code_block_plan_maps_matches_into_the_block() {
    let mut block = CodeBlock::default();
    block.push_text("let a = 1;", 100..110);
    block.push_text("let b = 2;", 120..130);
    let ranges = vec![104..105, 124..125, 200..201];
    let active = 124..125;
    let plan = block.plan(&ranges, Some(&active), true);
    assert_eq!(plan.intervals, vec![(4..5, false), (14..15, true)]);
    assert_eq!(plan.scroll_to, Some(14..15));
    assert_eq!(plan.matches, vec![(0, 4..5), (1, 14..15)]);
    let no_scroll = block.plan(&ranges, Some(&active), false);
    assert_eq!(no_scroll.scroll_to, None);
}

#[test]
fn link_text_chunks_follow_each_other() {
    let mut link = Link::new("https://example.org".to_string());
    link.push_text(plain("ab"), 1..3);
    link.push_text(plain("cde"), 5..8);
    assert_eq!(link.chunks, vec![(0..2, 1..3), (2..5, 5..8)]);
    assert_eq!(link.text.len(), 2);
}

#[test]
fn link_plan_targets() {
    let mut hooks = LinkHooks::new();
    hooks.insert("#hooked".to_string(), false);

    let mut hooked = Link::new("#hooked".to_string());
    hooked.push_text(plain("x"), 0..1);
    assert_eq!(hooked.plan(&[], None, &hooks, true).unwrap().target, LinkTarget::Hook);

    let mut heading = Link::new("#intro".to_string());
    heading.push_text(plain("x"), 0..1);
    assert_eq!(
        heading.plan(&[], None, &hooks, true).unwrap().target,
        LinkTarget::Heading("intro".to_string())
    );
    assert_eq!(heading.plan(&[], None, &hooks, false).unwrap().target, LinkTarget::External);

    let empty = Link::new("#intro".to_string());
    assert!(empty.plan(&[], None, &hooks, true).is_none());
}

#[test]
fn link_plan_search_matches() {
    let hooks = LinkHooks::new();
    let mut link = Link::new("u".to_string());
    link.push_text(plain("Section 500"), 1..12);
    let ranges = vec![0..1, 9..12, 20..23];
    let active = 9..12;
    let plan = link.plan(&ranges, Some(&active), &hooks, false).unwrap();
    assert_eq!(plan.intervals, vec![(8..11, true)]);
    assert!(plan.has_active_match);
    assert_eq!(plan.matched, vec![1]);
}

#[test]
fn image_uri_gets_the_default_scheme_only_without_one() {
    let options = CommonMarkOptions::default();
    assert_eq!(Image::new("cat.png", &options).uri, "file://cat.png");
    assert_eq!(Image::new("https://x.org/cat.png", &options).uri, "https://x.org/cat.png");
    assert_eq!(Image::new("data:image/png;base64,AA", &options).uri, "data:image/png;base64,AA");
    let explicit = CommonMarkOptions {
        use_explicit_uri_scheme: true,
        ..CommonMarkOptions::default()
    };
    assert_eq!(Image::new("cat.png", &explicit).uri, "cat.png");
}

#[test]
fn image_plan_matches_alt_text() {
    let mut image = Image::new("a.png", &CommonMarkOptions::default());
    image.push_alt_text(plain("a cat"), 2..7);
    assert_eq!(image.alt_src_spans, vec![2..7]);
    let ranges = vec![4..7, 8..9, 5..5];
    let active = 4..7;
    let plan = image.plan(&ranges, Some(&active));
    assert!(plan.has_active_match);
    assert_eq!(plan.matched, vec![0]);
    let none = image.plan(&[], Some(&active));
    assert!(!none.has_active_match && none.matched.is_empty());
}
