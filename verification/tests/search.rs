use egui_commonmark::search::{
    apply_search_highlights, chunked_search_intervals, search_intervals, Background, HighlightJob,
    LayoutSection,
};

#[test]
fn no_overlap_yields_no_intervals() {
    let ranges = vec![10..15];
    let intervals = search_intervals(&ranges, None, &(0..5), 5);
    assert!(intervals.is_empty());
}

#[test]
fn fully_contained_range_is_translated_to_local_offsets() {
    let ranges = vec![12..15];
    // src_span 10..20 -> local text "0123456789"
    let intervals = search_intervals(&ranges, None, &(10..20), 10);
    assert_eq!(intervals, vec![(2..5, false)]);
}

#[test]
fn range_overlapping_start_is_clipped() {
    let ranges = vec![5..15];
    let intervals = search_intervals(&ranges, None, &(10..20), 10);
    assert_eq!(intervals, vec![(0..5, false)]);
}

#[test]
fn range_overlapping_end_is_clipped() {
    let ranges = vec![15..25];
    let intervals = search_intervals(&ranges, None, &(10..20), 10);
    assert_eq!(intervals, vec![(5..10, false)]);
}

#[test]
fn active_range_is_flagged() {
    let ranges = vec![12..15, 16..18];
    let active = 16..18;
    let intervals = search_intervals(&ranges, Some(&active), &(10..20), 10);
    assert_eq!(intervals, vec![(2..5, false), (6..8, true)]);
}

fn section(range: std::ops::Range<usize>, format: usize) -> LayoutSection {
    LayoutSection {
        byte_range: range,
        format,
        background: Background::Unchanged,
        leading_space: false,
    }
}

#[test]
fn apply_highlights_splits_sections() {
    // "hello world" in one section.
    let mut job = HighlightJob {
        text_len: 11,
        sections: vec![section(0..11, 0)],
    };

    let intervals = vec![(2..5, false)];
    apply_search_highlights(&mut job, &intervals);

    assert_eq!(job.sections.len(), 3);
    assert_eq!(job.sections[0].byte_range, 0..2);
    assert_eq!(job.sections[1].byte_range, 2..5);
    assert_eq!(job.sections[2].byte_range, 5..11);
    assert_eq!(job.sections[1].background, Background::Match);
    assert_eq!(job.sections[0].background, Background::Unchanged);
    assert_eq!(job.sections[2].background, Background::Unchanged);
}

#[test]
fn apply_highlights_handles_interval_spanning_multiple_sections() {
    // "foo" in the plain format 0, "bar" in the italic format 1.
    let mut job = HighlightJob {
        text_len: 6,
        sections: vec![section(0..3, 0), section(3..6, 1)],
    };

    // Highlight "ob" which spans across the section boundary at byte 3.
    let intervals = vec![(2..4, true)];
    apply_search_highlights(&mut job, &intervals);

    assert_eq!(job.sections.len(), 4);
    assert_eq!(job.sections[0].byte_range, 0..2); // "fo"
    assert_eq!(job.sections[1].byte_range, 2..3); // "o"
    assert_eq!(job.sections[2].byte_range, 3..4); // "b"
    assert_eq!(job.sections[3].byte_range, 4..6); // "ar"
    assert_eq!(job.sections[1].background, Background::ActiveMatch);
    assert_eq!(job.sections[2].background, Background::ActiveMatch);
    assert_eq!(job.sections[1].format, 0);
    assert_eq!(job.sections[2].format, 1);
}

#[test]
fn apply_highlights_without_intervals_changes_nothing() {
    let mut job = HighlightJob {
        text_len: 5,
        sections: vec![section(0..5, 3)],
    };
    apply_search_highlights(&mut job, &[]);
    assert_eq!(
        job,
        HighlightJob {
            text_len: 5,
            sections: vec![section(0..5, 3)],
        }
    );
}

#[test]
fn apply_highlights_keeps_leading_space_on_first_piece_only() {
    let mut job = HighlightJob {
        text_len: 6,
        sections: vec![LayoutSection {
            byte_range: 0..6,
            format: 2,
            background: Background::Unchanged,
            leading_space: true,
        }],
    };
    apply_search_highlights(&mut job, &[(1..3, false), (4..6, true)]);
    let ranges: Vec<_> = job.sections.iter().map(|s| s.byte_range.clone()).collect();
    assert_eq!(ranges, vec![0..1, 1..3, 3..4, 4..6]);
    let leading: Vec<bool> = job.sections.iter().map(|s| s.leading_space).collect();
    assert_eq!(leading, vec![true, false, false, false]);
    let backgrounds: Vec<Background> = job.sections.iter().map(|s| s.background).collect();
    assert_eq!(
        backgrounds,
        vec![
            Background::Unchanged,
            Background::Match,
            Background::Unchanged,
            Background::ActiveMatch
        ]
    );
    assert!(job.sections.iter().all(|s| s.format == 2));
}

#[test]
fn search_intervals_are_sorted_by_start() {
    // Matches given out of order come back ordered by their local start.
    let ranges = vec![16..18, 11..12, 13..14];
    let intervals = search_intervals(&ranges, None, &(10..20), 10);
    assert_eq!(intervals, vec![(1..2, false), (3..4, false), (6..8, false)]);
}

#[test]
fn empty_match_yields_no_interval() {
    let ranges = vec![12..12];
    assert!(search_intervals(&ranges, None, &(10..20), 10).is_empty());
}

#[test]
fn match_past_the_text_length_is_clipped_to_it() {
    // The span is longer than the text drawn for it.
    let ranges = vec![12..19];
    let intervals = search_intervals(&ranges, None, &(10..20), 4);
    assert_eq!(intervals, vec![(2..4, false)]);
}

#[test]
fn chunked_intervals_are_shifted_into_the_assembled_text() {
    // Two chunks: "abc" from source 100..103 at 0..3, "defg" from 200..204 at 3..7.
    let chunks = vec![(0..3, 100..103), (3..7, 200..204)];
    let ranges = vec![101..103, 201..203];
    let active = 201..203;
    let intervals = chunked_search_intervals(&chunks, &ranges, Some(&active));
    assert_eq!(intervals, vec![(1..3, false), (4..6, true)]);
}

#[test]
fn chunked_intervals_without_matches_are_empty() {
    let chunks = vec![(0..3, 100..103)];
    assert!(chunked_search_intervals(&chunks, &[], None).is_empty());
}

#[test]
fn chunked_intervals_stay_inside_their_chunks() {
    // Two chunks: local 0..5 from source 100..105, local 5..9 from 200..204.
    let chunks = vec![(0..5, 100..105), (5..9, 200..204)];
    // A match running past the first chunk's end and one covering the second.
    let ranges = vec![103..110, 199..210];
    let intervals = chunked_search_intervals(&chunks, &ranges, None);
    assert_eq!(intervals, vec![(3..5, false), (5..9, false)]);
    for (r, _) in &intervals {
        assert!(r.start < r.end);
        assert!(chunks.iter().any(|(local, _)| local.start <= r.start && r.end <= local.end));
    }
}
