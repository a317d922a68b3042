use egui_commonmark::elements::{
    set_task_marker, Checkbox, ImmutableCheckbox, ItemMarker, List, Newline,
};

#[test]
fn newline_defaults_allow_everything_but_the_first_start() {
    let line = Newline::default();
    assert!(!line.can_insert_start());
    assert!(line.can_insert_end());
    assert!(!line.try_insert_start());
    assert!(line.try_insert_end());
}

#[test]
fn newline_flags_combine() {
    let line = Newline {
        should_not_start_newline_forced: false,
        should_start_newline: true,
        should_end_newline: false,
        should_end_newline_forced: true,
    };
    assert!(line.can_insert_start());
    assert!(!line.can_insert_end());
}

#[test]
fn list_levels_nest_and_unwind() {
    let mut list = List::default();
    assert!(!list.is_inside_a_list());
    list.start_level_with_number(1);
    assert!(list.is_inside_a_list());
    assert!(list.is_last_level());
    let item = list.start_item(2);
    assert_eq!(item.marker, ItemMarker::Number(1));
    assert!(!item.newline);
    list.start_level_without_number();
    assert!(!list.is_last_level());
    let nested = list.start_item(2);
    assert_eq!(nested.marker, ItemMarker::HollowBullet);
    assert_eq!(nested.indent, 2);
    assert!(!list.end_level(true));
    let next = list.start_item(2);
    assert_eq!(next.marker, ItemMarker::Number(2));
    assert!(list.end_level(true));
    assert!(!list.is_inside_a_list());
}

#[test]
fn top_level_unnumbered_items_get_a_filled_bullet() {
    let mut list = List::default();
    list.start_level_without_number();
    assert_eq!(list.start_item(4).marker, ItemMarker::Bullet);
    assert!(!list.end_level(false));
}

#[test]
fn checkboxes_show_their_state() {
    let mut checked = true;
    assert!(ImmutableCheckbox::without_text(&mut checked).is_checked());
    let mut unchecked = false;
    assert!(!Checkbox::without_text(&mut unchecked).is_checked());
}

#[test]
fn task_marker_is_written_over_its_span() {
    let mut text = "- [ ] é todo\n- [x] done".to_string();
    set_task_marker(&mut text, 2..5, true);
    assert_eq!(text, "- [x] é todo\n- [x] done");
    let second = text.rfind('[').unwrap();
    set_task_marker(&mut text, second..second + 3, false);
    assert_eq!(text, "- [x] é todo\n- [ ] done");
}
