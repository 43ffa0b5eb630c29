use lib::coordinates::{BindingId, ByteOffset, ByteRange, PageId, PageRequestId, SourceRevision};
use lib::page::{PageEdgeFact, RangePage};
use lib::replay::{PlatformMarkedText, PlatformReplay, PlatformReplayKind, ReplayProgress};
use lib::request::{PageDirection, PagePurpose, PageRequestKey};

fn key(id: u64, anchor: u64) -> PageRequestKey {
    PageRequestKey::adjacent(
        PageRequestId::new(id),
        BindingId::new(1),
        SourceRevision::new(1),
        PagePurpose::PlatformRange,
        ByteOffset::new(anchor),
        PageDirection::Forward,
        64,
    )
    .unwrap()
}

fn page(id: u64, start: u64, text: &str, last: bool) -> RangePage {
    let end = start + text.len() as u64;
    RangePage::new(
        PageId::new(id),
        key(id, start),
        ByteRange::from_u64(start, end).unwrap(),
        text.to_string(),
        Vec::new(),
        if start == 0 { PageEdgeFact::DocumentBoundary } else { PageEdgeFact::Continues },
        if last { PageEdgeFact::DocumentBoundary } else { PageEdgeFact::Continues },
        last,
    )
    .unwrap()
}

fn progress(result: Result<(PlatformReplay, Option<ReplayProgress>), ()>) -> (PlatformReplay, ReplayProgress) {
    match result {
        Ok((replay, Some(progress))) => (replay, progress),
        Ok((_, None)) => panic!("no progress"),
        Err(()) => panic!("replay failed"),
    }
}

#[test]
fn replay_starts_waiting_for_its_first_page() {
    let mut replay = PlatformReplay::new(1..3, PlatformReplayKind::Query, key(1, 0), 64);
    assert_eq!(replay.pending_key(), key(1, 0));
    assert_eq!(replay.utf16, 1..3);
    replay.set_pending(key(2, 0));
    assert_eq!(replay.pending_key(), key(2, 0));
}

#[test]
fn query_collects_the_text_of_the_range() {
    let replay = PlatformReplay::new(1..3, PlatformReplayKind::Query, key(1, 0), 64);
    let (replay, step) = progress(replay.admit_page(&page(1, 0, "h\u{e9}llo", false)));
    match step {
        ReplayProgress::QueryReady(text) => assert_eq!(text, "\u{e9}l"),
        other => panic!("unexpected progress {other:?}"),
    }
    assert!(matches!(replay.kind, PlatformReplayKind::Query));
}

#[test]
fn replacement_spans_pages_and_counts_removed_line_breaks() {
    let kind = PlatformReplayKind::Replace {
        text: "X".to_string(),
        marked: Some(PlatformMarkedText { selected: Some(0..1) }),
    };
    let replay = PlatformReplay::new(0..3, kind, key(1, 0), 64);
    let (mut replay, step) = progress(replay.admit_page(&page(1, 0, "a", false)));
    match step {
        ReplayProgress::Continue(next) => assert_eq!(next, ByteOffset::new(1)),
        other => panic!("unexpected progress {other:?}"),
    }
    replay.set_pending(key(2, 1));
    let (_, step) = progress(replay.admit_page(&page(2, 1, "b\n", true)));
    match step {
        ReplayProgress::ReplaceReady {
            bytes,
            text,
            marked,
            removed_line_breaks,
        } => {
            assert_eq!(bytes, 0..3);
            assert_eq!(text, "X");
            assert_eq!(marked.unwrap().selected, Some(0..1));
            assert_eq!(removed_line_breaks, 1);
        }
        other => panic!("unexpected progress {other:?}"),
    }
}

#[test]
fn replay_refuses_a_page_for_another_request() {
    let replay = PlatformReplay::new(0..1, PlatformReplayKind::Query, key(1, 0), 64);
    assert!(replay.admit_page(&page(2, 0, "a", true)).is_err());
}

#[test]
fn replay_refuses_a_range_end_inside_a_surrogate_pair() {
    let replay = PlatformReplay::new(1..2, PlatformReplayKind::Query, key(1, 0), 64);
    assert!(replay.admit_page(&page(1, 0, "\u{1f600}", true)).is_err());
}

#[test]
fn replay_refuses_queries_beyond_the_output_ceiling() {
    let replay = PlatformReplay::new(0..3, PlatformReplayKind::Query, key(1, 0), 2);
    assert!(replay.admit_page(&page(1, 0, "abc", true)).is_err());
    let fits = PlatformReplay::new(0..2, PlatformReplayKind::Query, key(1, 0), 2);
    assert!(fits.admit_page(&page(1, 0, "abc", true)).is_ok());
}

#[test]
fn replay_refuses_a_range_past_the_source_end() {
    let replay = PlatformReplay::new(0..10, PlatformReplayKind::Query, key(1, 0), 64);
    assert!(replay.admit_page(&page(1, 0, "ab", true)).is_err());
}

#[test]
fn replay_and_resident_translation_agree() {
    let text = "a\u{e9}\u{1f600}b";
    let replay = PlatformReplay::new(1..4, PlatformReplayKind::Query, key(1, 0), 64);
    let (_, step) = progress(replay.admit_page(&page(1, 0, text, true)));
    let expected = lib::utf16::utf16_range_in_text(text, 1..4).unwrap();
    match step {
        ReplayProgress::QueryReady(found) => {
            assert_eq!(found, &text[expected]);
        }
        other => panic!("unexpected progress {other:?}"),
    }
}

#[test]
fn replay_over_pages_agrees_with_translating_the_whole_text() {
    let whole = "a\u{e9}\u{1f600}b";
    let kind = PlatformReplayKind::Replace { text: String::new(), marked: None };
    let replay = PlatformReplay::new(1..4, kind, key(1, 0), 64);
    let (mut replay, step) = progress(replay.admit_page(&page(1, 0, "a\u{e9}", false)));
    assert!(matches!(step, ReplayProgress::Continue(next) if next == ByteOffset::new(3)));
    replay.set_pending(key(2, 3));
    let (_, step) = progress(replay.admit_page(&page(2, 3, "\u{1f600}b", true)));
    let expected = lib::utf16::utf16_range_in_text(whole, 1..4).unwrap();
    match step {
        ReplayProgress::ReplaceReady { bytes, removed_line_breaks, .. } => {
            assert_eq!(bytes, expected.start as u64..expected.end as u64);
            assert_eq!(bytes, 1..7);
            assert_eq!(removed_line_breaks, 0);
        }
        other => panic!("unexpected progress {other:?}"),
    }
}
