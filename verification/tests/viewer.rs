use egui_commonmark::alerts::AlertBundle;
use egui_commonmark::data_url::{decode_data_url, entry_byte_size, is_data_url, DataUrlData, LoadEntry};
use egui_commonmark::fetch_data::{get_image_data, ImageDataSource};
use egui_commonmark::options::{CommonMarkOptions, CommonMarkViewer};
use egui_commonmark::render::split_point_span;

#[test]
fn viewer_defaults() {
    let viewer = CommonMarkViewer::new();
    let o = &viewer.options;
    assert_eq!(o.indentation_spaces, 4);
    assert_eq!(o.max_image_width, None);
    assert!(o.show_alt_text_on_hover);
    assert_eq!(o.default_implicit_uri_scheme, "file://");
    assert!(!o.use_explicit_uri_scheme);
    assert!(!o.mutable);
    assert!(!o.alerts.is_empty());
}

#[test]
fn viewer_builders_set_one_option_each() {
    let viewer = CommonMarkViewer::new()
        .indentation_spaces(2)
        .max_image_width(Some(300))
        .default_width(Some(500))
        .show_alt_text_on_hover(false)
        .default_implicit_uri_scheme("https://example.org/".to_string())
        .explicit_image_uri_scheme(true)
        .alerts(AlertBundle::empty());
    let o = &viewer.options;
    assert_eq!(o.indentation_spaces, 2);
    assert_eq!(o.max_image_width, Some(300));
    assert_eq!(o.default_width, Some(500));
    assert!(!o.show_alt_text_on_hover);
    assert_eq!(o.default_implicit_uri_scheme, "https://example.org/");
    assert!(o.use_explicit_uri_scheme);
    assert!(o.alerts.is_empty());
    assert_eq!(CommonMarkOptions::default().indentation_spaces, 4);
}

#[test]
fn urls_are_fetched_and_paths_read() {
    assert_eq!(
        get_image_data("https://example.org/a.png", true),
        ImageDataSource::Fetch("https://example.org/a.png".to_string())
    );
    assert_eq!(
        get_image_data("images/a.png", true),
        ImageDataSource::File("images/a.png".to_string())
    );
}

#[test]
fn without_fetching_every_uri_is_a_file() {
    assert_eq!(
        get_image_data("https://example.org/a.png", false),
        ImageDataSource::File("https://example.org/a.png".to_string())
    );
    assert_eq!(
        get_image_data("images/a.png", false),
        ImageDataSource::File("images/a.png".to_string())
    );
}

#[test]
fn data_urls_are_decoded() {
    assert!(is_data_url("data:text/plain,hi"));
    assert!(!is_data_url("https://example.org"));
    let data = decode_data_url("data:text/plain;base64,aGk=").unwrap();
    assert_eq!(data.bytes, b"hi".to_vec());
    assert_eq!(data.mime, Some("text/plain".to_string()));
    assert!(decode_data_url("data:text/plain;base64,%%%").is_err());
    assert!(decode_data_url("nope").is_err());
}

#[test]
fn loader_entries_count_their_bytes() {
    let ready = LoadEntry::Ready(Ok(DataUrlData {
        bytes: vec![1, 2, 3],
        mime: Some("image/png".to_string()),
    }));
    assert_eq!(entry_byte_size(&ready), 12);
    assert_eq!(entry_byte_size(&LoadEntry::Ready(Err("bad".to_string()))), 3);
    assert_eq!(entry_byte_size(&LoadEntry::Pending), 0);
}

#[test]
fn split_points_are_recorded_once_per_event() {
    assert_eq!(split_point_span(&[], 3, Some(10), 20), Some(10..20));
    assert_eq!(split_point_span(&[1, 3], 3, Some(10), 20), None);
    assert_eq!(split_point_span(&[1], 3, None, 20), Some(20..20));
}
