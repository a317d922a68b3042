use egui_commonmark::misc::{
    key_scroll, CommonMarkCache, KeyScroll, ScrollKeys, SearchOptions, MAX_SCROLL_RETRIES,
    SEARCH_SCROLL_PROTECTION_FRAMES,
};

fn cache_with_query(query: &str, bits: u8) -> CommonMarkCache {
    let mut cache = CommonMarkCache::new();
    cache.search_query = query.to_string();
    cache.search_options = SearchOptions { bits };
    cache
}

#[test]
fn search_finds_every_match_in_rendered_text() {
    let mut cache = cache_with_query("hello", 0);
    cache.update_search_matches(None, "hello world\n\nhello again");
    assert_eq!(cache.search_ranges(), &[0..5, 13..18]);
    assert_eq!(cache.active_match(), Some(0));
    assert_eq!(cache.active_search_range(), Some(&(0..5)));
    assert!(cache.search_regex_error.is_none());
}

#[test]
fn search_ignores_link_destinations() {
    let mut cache = cache_with_query("500", 0);
    cache.update_search_matches(None, "[Section 500](#section-500)");
    assert_eq!(cache.search_ranges(), &[9..12]);
}

#[test]
fn search_is_case_insensitive_by_default() {
    let mut cache = cache_with_query("HELLO", 0);
    cache.update_search_matches(None, "Hello hello");
    assert_eq!(cache.search_ranges(), &[0..5, 6..11]);
}

#[test]
fn case_sensitive_search_keeps_case() {
    let mut cache = cache_with_query("Hello", SearchOptions::CASE_SENSITIVE);
    cache.update_search_matches(None, "Hello hello");
    assert_eq!(cache.search_ranges(), &[0..5]);
}

#[test]
fn plain_search_escapes_regex_syntax() {
    let mut cache = cache_with_query("a.b", 0);
    cache.update_search_matches(None, "axb a.b");
    assert_eq!(cache.search_ranges(), &[4..7]);
}

#[test]
fn regex_search_uses_the_pattern() {
    let mut cache = cache_with_query("a.b", SearchOptions::REGEX);
    cache.update_search_matches(None, "axb a.b");
    assert_eq!(cache.search_ranges(), &[0..3, 4..7]);
}

#[test]
fn whole_word_search_skips_parts_of_words() {
    let mut cache = cache_with_query("cat", SearchOptions::WHOLE_WORD);
    cache.update_search_matches(None, "cat concatenate cat");
    assert_eq!(cache.search_ranges(), &[0..3, 16..19]);
}

#[test]
fn invalid_regex_records_the_error_and_clears_matches() {
    let mut cache = cache_with_query("(", SearchOptions::REGEX);
    cache.set_search_ranges(vec![0..1]);
    cache.update_search_matches(None, "( text");
    assert!(cache.search_ranges().is_empty());
    assert!(cache.search_regex_error.is_some());
}

#[test]
fn empty_query_clears_matches() {
    let mut cache = cache_with_query("", 0);
    cache.set_search_ranges(vec![0..1]);
    cache.update_search_matches(None, "anything");
    assert!(cache.search_ranges().is_empty());
    assert_eq!(cache.active_match(), None);
}

#[test]
fn search_matches_across_inline_code_boundary() {
    let mut cache = cache_with_query("book example", 0);
    cache.update_search_matches(None, "`book` example");
    // The code span's source starts at its opening backtick.
    assert_eq!(cache.search_ranges(), &[0..14]);
}

#[test]
fn search_matches_across_soft_break() {
    let mut cache = cache_with_query("foo bar", 0);
    cache.update_search_matches(None, "foo\nbar");
    assert_eq!(cache.search_ranges(), &[0..7]);
}

#[test]
fn search_anchors_at_viewport_start() {
    let mut cache = cache_with_query("x", 0);
    cache.update_search_matches(Some(3), "x\n\nx\n\nx");
    assert_eq!(cache.search_ranges(), &[0..1, 3..4, 6..7]);
    assert_eq!(cache.active_match(), Some(1));
    assert!(cache.take_pending_scroll_to_active_match());
}

#[test]
fn search_wraps_to_first_match_after_the_last() {
    let mut cache = cache_with_query("x", 0);
    cache.update_search_matches(Some(100), "x\n\nx");
    assert_eq!(cache.active_match(), Some(0));
}

#[test]
fn search_keeps_its_place_at_the_active_match() {
    let mut cache = cache_with_query("x", 0);
    cache.update_search_matches(None, "x\n\nx\n\nx");
    cache.go_to_match(2);
    assert_eq!(cache.active_match(), Some(2));
    cache.search_query = "x".to_string();
    cache.update_search_matches(None, "x\n\nx\n\nx");
    assert_eq!(cache.active_match(), Some(2));
}

#[test]
fn alert_marker_matches_its_rendered_title() {
    // "[!NOTE]" is drawn as "Note": a search for "note" matches the title,
    // anchored at the marker's source bytes.
    let mut cache = cache_with_query("note", 0);
    cache.update_search_matches(None, "> [!NOTE]\n> body");
    assert_eq!(cache.search_ranges(), &[2..9]);
}

#[test]
fn alert_marker_source_text_is_not_matched() {
    let mut cache = cache_with_query("[!NOTE]", 0);
    cache.update_search_matches(None, "> [!NOTE]\n> body");
    assert!(cache.search_ranges().is_empty());
}

#[test]
fn go_to_match_steps_and_wraps() {
    let mut cache = CommonMarkCache::new();
    cache.set_search_ranges(vec![0..1, 2..3, 4..5]);
    cache.go_to_match(1);
    assert_eq!(cache.active_match(), Some(0));
    cache.go_to_match(1);
    assert_eq!(cache.active_match(), Some(1));
    cache.go_to_match(-2);
    assert_eq!(cache.active_match(), Some(2));
    assert_eq!(cache.active_search_range(), Some(&(4..5)));
    assert!(cache.take_pending_scroll_to_active_match());
}

#[test]
fn go_to_match_backwards_without_active_goes_to_last() {
    let mut cache = CommonMarkCache::new();
    cache.set_search_ranges(vec![0..1, 2..3, 4..5]);
    cache.go_to_match(-1);
    assert_eq!(cache.active_match(), Some(2));
}

#[test]
fn go_to_match_round_trip() {
    let mut cache = CommonMarkCache::new();
    cache.set_search_ranges(vec![0..1, 2..3, 4..5, 6..7]);
    cache.go_to_match(1);
    cache.go_to_match(7);
    cache.go_to_match(-7);
    assert_eq!(cache.active_match(), Some(0));
}

#[test]
fn go_to_match_without_matches_does_nothing() {
    let mut cache = CommonMarkCache::new();
    cache.go_to_match(3);
    assert_eq!(cache.active_match(), None);
    assert!(!cache.take_pending_scroll_to_active_match());
}

#[test]
fn retries_are_bounded() {
    let mut cache = CommonMarkCache::new();
    cache.scroll_to_active_search_match();
    let granted = (0..20).filter(|_| cache.retry_scroll_to_active_match()).count();
    assert_eq!(granted, MAX_SCROLL_RETRIES as usize);
    assert!(!cache.take_pending_scroll_to_active_match());
    cache.scroll_to_active_search_match();
    assert!(cache.retry_scroll_to_active_match());
}

#[test]
fn sync_waits_for_scroll_protection() {
    let mut cache = CommonMarkCache::new();
    cache.search_query = "x".to_string();
    cache.update_search_matches(None, "x\n\nx\n\nx");
    assert_eq!(cache.active_match(), Some(0));
    for _ in 0..SEARCH_SCROLL_PROTECTION_FRAMES {
        cache.sync_active_match(false, Some(2), false);
        assert_eq!(cache.active_match(), Some(0));
    }
    cache.sync_active_match(false, Some(2), false);
    assert_eq!(cache.active_match(), Some(2));
    assert_eq!(cache.active_search_range(), Some(&(6..7)));
}

#[test]
fn sync_keeps_the_active_match_while_visible() {
    let mut cache = CommonMarkCache::new();
    cache.search_query = "x".to_string();
    cache.update_search_matches(None, "x\n\nx\n\nx");
    for _ in 0..SEARCH_SCROLL_PROTECTION_FRAMES {
        cache.sync_active_match(false, Some(1), true);
    }
    // The active match is still on screen: it stays.
    cache.sync_active_match(false, Some(1), true);
    assert_eq!(cache.active_match(), Some(0));
    // A user scroll re-anchors it to the viewport top at once.
    cache.sync_active_match(true, Some(1), true);
    assert_eq!(cache.active_match(), Some(1));
    assert_eq!(cache.active_search_range(), Some(&(3..4)));
}

#[test]
fn user_scroll_reanchors_after_next() {
    let mut cache = CommonMarkCache::new();
    cache.set_search_ranges(vec![0..1, 10..11, 20..21]);
    cache.go_to_match(1);
    cache.go_to_match(1);
    cache.go_to_match(1);
    assert_eq!(cache.active_match(), Some(2));
    // Match 2 is still on screen, match 1 is the first at the viewport top.
    cache.sync_active_match(true, Some(1), true);
    assert_eq!(cache.active_match(), Some(1));
    assert_eq!(cache.active_search_range(), Some(&(10..11)));
}

#[test]
fn scrollable_sync_without_cache_is_plain_sync() {
    let mut cache = CommonMarkCache::new();
    cache.set_search_ranges(vec![0..1, 10..11, 20..21]);
    cache.go_to_match(-1);
    assert_eq!(cache.active_match(), Some(2));
    cache.sync_scrollable_active_match(5, false, false, Some(0), false);
    assert_eq!(cache.active_match(), Some(2));
    cache.sync_scrollable_active_match(5, false, true, Some(0), true);
    assert_eq!(cache.active_match(), Some(0));
    assert_eq!(cache.active_search_range(), Some(&(0..1)));
}

#[test]
fn go_to_match_locks_until_user_scrolls() {
    let mut cache = CommonMarkCache::new();
    cache.set_search_ranges(vec![0..1, 2..3, 4..5]);
    cache.go_to_match(1);
    for _ in 0..(SEARCH_SCROLL_PROTECTION_FRAMES + 10) {
        cache.sync_active_match(false, Some(2), false);
    }
    assert_eq!(cache.active_match(), Some(0));
    cache.sync_active_match(true, Some(2), false);
    assert_eq!(cache.active_match(), Some(2));
}

#[test]
fn scrollable_sync_follows_the_viewport_offset() {
    let mut cache = CommonMarkCache::new();
    cache.set_search_ranges(vec![0..1, 10..11, 20..21]);
    cache.sync_scrollable_active_match(15, true, false, None, false);
    assert_eq!(cache.active_match(), Some(1));
    // Same offset again: nothing moves.
    cache.sync_scrollable_active_match(15, true, false, None, false);
    assert_eq!(cache.active_match(), Some(1));
    // Before every match: the last match.
    cache.sync_scrollable_active_match(0, true, false, None, false);
    assert_eq!(cache.active_match(), Some(2));
}

#[test]
fn link_hooks_record_clicks() {
    let mut cache = CommonMarkCache::new();
    cache.add_link_hook("#next".to_string());
    assert_eq!(cache.get_link_hook("#next"), Some(false));
    cache.link_hooks_mut().insert("#next".to_string(), true);
    assert_eq!(cache.get_link_hook("#next"), Some(true));
    assert!(cache.prepare_show());
    assert_eq!(cache.get_link_hook("#next"), Some(false));
    assert!(!cache.prepare_show());
    assert_eq!(cache.remove_link_hook("#next"), Some(false));
    assert_eq!(cache.get_link_hook("#next"), None);
    assert_eq!(cache.remove_link_hook("#next"), None);
}

#[test]
fn link_hooks_clear_removes_all() {
    let mut cache = CommonMarkCache::new();
    cache.add_link_hook("a".to_string());
    cache.add_link_hook("b".to_string());
    cache.link_hooks_clear();
    assert_eq!(cache.get_link_hook("a"), None);
    assert!(!cache.link_hooks().contains_key("b"));
}

#[test]
fn scroll_target_is_taken_once() {
    let mut cache = CommonMarkCache::new();
    assert_eq!(cache.scroll_to_id_target(), None);
    cache.set_scroll_to_id_target(Some("intro".to_string()));
    assert_eq!(cache.scroll_to_id_target(), Some("intro"));
    assert_eq!(cache.take_scroll_to_id_target(), Some("intro".to_string()));
    assert_eq!(cache.take_scroll_to_id_target(), None);
}

#[test]
fn search_options_flags() {
    let options = SearchOptions {
        bits: SearchOptions::CASE_SENSITIVE | SearchOptions::REGEX,
    };
    assert!(options.contains(SearchOptions::CASE_SENSITIVE));
    assert!(options.contains(SearchOptions::REGEX));
    assert!(!options.contains(SearchOptions::WHOLE_WORD));
    assert!(!SearchOptions::empty().contains(SearchOptions::REGEX));
}

#[test]
fn keys_map_to_scrolls_by_precedence() {
    let none = ScrollKeys {
        home: false,
        end: false,
        page_up: false,
        page_down: false,
        arrow_up: false,
        arrow_down: false,
        command: false,
    };
    assert_eq!(key_scroll(none), None);
    assert_eq!(key_scroll(ScrollKeys { arrow_up: true, ..none }), Some(KeyScroll::LineUp));
    assert_eq!(
        key_scroll(ScrollKeys { arrow_up: true, command: true, ..none }),
        Some(KeyScroll::ToTop)
    );
    assert_eq!(
        key_scroll(ScrollKeys { arrow_down: true, command: true, ..none }),
        Some(KeyScroll::ToBottom)
    );
    assert_eq!(
        key_scroll(ScrollKeys { home: true, end: true, ..none }),
        Some(KeyScroll::ToTop)
    );
    assert_eq!(key_scroll(ScrollKeys { page_down: true, ..none }), Some(KeyScroll::PageDown));
    assert_eq!(key_scroll(ScrollKeys { command: true, ..none }), None);
}

#[test]
fn literal_search_escapes_meta_characters() {
    let mut cache = CommonMarkCache::new();
    cache.search_query = "a.b (c)".to_string();
    cache.update_search_matches(None, "axb (c) a.b (c)");
    assert_eq!(cache.search_ranges(), &[8..15]);
    assert!(cache.search_regex_error.is_none());
}

#[test]
fn search_skips_link_destinations_and_heading_ids() {
    let mut cache = CommonMarkCache::new();
    cache.search_query = "500".to_string();
    cache.update_search_matches(None, "[Section 500](#section-500)");
    assert_eq!(cache.search_ranges(), &[9..12]);
    cache.search_query = "intro".to_string();
    cache.update_search_matches(None, "# Title {#intro}\n");
    assert!(cache.search_ranges().is_empty());
}
