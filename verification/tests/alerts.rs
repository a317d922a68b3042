use egui_commonmark::alerts::{try_get_alert, Alert, AlertBundle};
use egui_commonmark::pulldown::{alert_plan, parse_alerts, MdEvent, MdTag, SpannedEvent};

fn alert(id: &str, rendered: &str) -> Alert {
    Alert {
        accent_color: (1, 2, 3),
        icon: '!',
        identifier: id.to_string(),
        identifier_rendered: rendered.to_string(),
    }
}

#[test]
fn gfm_bundle_knows_the_five_github_alerts() {
    let bundle = AlertBundle::gfm();
    assert!(!bundle.is_empty());
    let note = try_get_alert(&bundle, "[!NOTE]").expect("note");
    assert_eq!(note.identifier_rendered, "Note");
    assert_eq!(note.accent_color, (10, 80, 210));
    for (marker, rendered) in [
        ("[!TIP]", "Tip"),
        ("[!IMPORTANT]", "Important"),
        ("[!WARNING]", "Warning"),
        ("[!CAUTION]", "Caution"),
    ] {
        assert_eq!(try_get_alert(&bundle, marker).unwrap().identifier_rendered, rendered);
    }
    assert_eq!(bundle.into_alerts().len(), 5);
}

#[test]
fn alert_lookup_ignores_case() {
    let bundle = AlertBundle::gfm();
    assert_eq!(try_get_alert(&bundle, "[!warning]").unwrap().identifier, "WARNING");
    assert!(try_get_alert(&bundle, "[!WARN]").is_none());
    assert!(try_get_alert(&bundle, "WARNING").is_none());
}

#[test]
fn later_alert_with_the_same_identifier_wins() {
    let bundle = AlertBundle::from_alerts(vec![alert("X", "first"), alert("X", "second")]);
    assert_eq!(try_get_alert(&bundle, "[!X]").unwrap().identifier_rendered, "second");
    assert_eq!(bundle.into_alerts().len(), 1);
}

#[test]
fn empty_bundle_finds_nothing() {
    let bundle = AlertBundle::empty();
    assert!(bundle.is_empty());
    assert!(try_get_alert(&bundle, "[!NOTE]").is_none());
}

fn ev(e: MdEvent, start: usize, end: usize) -> SpannedEvent {
    (e, start..end)
}

#[test]
fn alert_marker_on_its_own_line_removes_the_paragraph() {
    // > [!TIP]
    // >
    // > body
    let bundle = AlertBundle::gfm();
    let mut events = vec![
        ev(MdEvent::Start(MdTag::Paragraph), 2, 9),
        ev(MdEvent::Text("[!TIP]".to_string()), 2, 8),
        ev(MdEvent::End(MdTag::Paragraph), 2, 9),
        ev(MdEvent::Start(MdTag::Paragraph), 13, 17),
        ev(MdEvent::Text("body".to_string()), 13, 17),
        ev(MdEvent::End(MdTag::Paragraph), 13, 17),
    ];
    let found = parse_alerts(&bundle, &mut events);
    assert_eq!(found.unwrap().identifier, "TIP");
    assert_eq!(events.len(), 3);
    assert_eq!(events[1].0, MdEvent::Text("body".to_string()));
}

#[test]
fn alert_marker_before_a_soft_break_keeps_the_paragraph_start() {
    // > [!NOTE]
    // > body
    let bundle = AlertBundle::gfm();
    let mut events = vec![
        ev(MdEvent::Start(MdTag::Paragraph), 2, 16),
        ev(MdEvent::Text("[!NOTE]".to_string()), 2, 9),
        ev(MdEvent::SoftBreak, 9, 10),
        ev(MdEvent::Text("body".to_string()), 12, 16),
        ev(MdEvent::End(MdTag::Paragraph), 2, 16),
    ];
    let plan = alert_plan(&bundle, &events).unwrap();
    assert_eq!((plan.remove_start, plan.remove_count), (1, 2));
    let found = parse_alerts(&bundle, &mut events);
    assert_eq!(found.unwrap().identifier, "NOTE");
    assert_eq!(
        events.iter().map(|e| &e.0).collect::<Vec<_>>(),
        vec![
            &MdEvent::Start(MdTag::Paragraph),
            &MdEvent::Text("body".to_string()),
            &MdEvent::End(MdTag::Paragraph)
        ]
    );
}

#[test]
fn unknown_marker_leaves_the_events() {
    let bundle = AlertBundle::gfm();
    let mut events = vec![
        ev(MdEvent::Start(MdTag::Paragraph), 0, 7),
        ev(MdEvent::Text("[!NOPE]".to_string()), 0, 7),
        ev(MdEvent::End(MdTag::Paragraph), 0, 7),
    ];
    assert!(parse_alerts(&bundle, &mut events).is_none());
    assert_eq!(events.len(), 3);
}

#[test]
fn marker_split_over_text_events_is_joined() {
    let bundle = AlertBundle::gfm();
    let mut events = vec![
        ev(MdEvent::Start(MdTag::Paragraph), 2, 20),
        ev(MdEvent::Text("[".to_string()), 2, 3),
        ev(MdEvent::Text("!Caution".to_string()), 3, 11),
        ev(MdEvent::Text("]".to_string()), 11, 12),
        ev(MdEvent::HardBreak, 12, 14),
        ev(MdEvent::Text("x".to_string()), 16, 17),
        ev(MdEvent::End(MdTag::Paragraph), 2, 20),
    ];
    let found = parse_alerts(&bundle, &mut events);
    assert_eq!(found.unwrap().identifier, "CAUTION");
    assert_eq!(events.len(), 3);
}

#[test]
fn empty_bundle_parses_no_alert() {
    let bundle = AlertBundle::empty();
    let mut events = vec![ev(MdEvent::Text("[!NOTE]".to_string()), 0, 7)];
    assert!(parse_alerts(&bundle, &mut events).is_none());
    assert_eq!(events.len(), 1);
}
