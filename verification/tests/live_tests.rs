use iori::live::{
    advance_cursor, mix, new_segments, poll_delay_ms, HlsLiveSource, SourceState, StreamSession,
};
use iori::{IoriError, SegmentFormat, SegmentInfo};

fn media_seg(rendition: u64, media_sequence: u64, duration_ms: u64) -> SegmentInfo {
    SegmentInfo {
        sequence: 0,
        media_sequence,
        rendition,
        duration_ms,
        format: SegmentFormat::Mpeg2TS,
    }
}

#[test]
fn poll_delay_matches_two_second_average() {
    let lists = vec![vec![
        media_seg(0, 1, 2000),
        media_seg(0, 2, 2000),
        media_seg(0, 3, 2000),
    ]];
    assert_eq!(poll_delay_ms(&lists), 2000);
}

#[test]
fn poll_delay_clamped_to_upper_bound() {
    let lists = vec![vec![media_seg(0, 1, 10000), media_seg(0, 2, 10000)]];
    assert_eq!(poll_delay_ms(&lists), 5000);
}

#[test]
fn poll_delay_clamped_to_lower_bound() {
    let lists = vec![vec![media_seg(0, 1, 200), media_seg(0, 2, 200)]];
    assert_eq!(poll_delay_ms(&lists), 1000);
}

#[test]
fn poll_delay_defaults_without_new_segments() {
    let empty: Vec<Vec<SegmentInfo>> = vec![vec![]];
    assert_eq!(poll_delay_ms(&empty), 5000);
    let none: Vec<Vec<SegmentInfo>> = vec![];
    assert_eq!(poll_delay_ms(&none), 5000);
}

#[test]
fn poll_delay_takes_minimum_across_renditions() {
    let lists = vec![
        vec![media_seg(0, 1, 4000)],
        vec![media_seg(1, 1, 1500)],
        vec![],
    ];
    assert_eq!(poll_delay_ms(&lists), 1500);
}

#[test]
fn new_segments_filters_past_cursor() {
    let rendition = vec![
        media_seg(0, 4, 0),
        media_seg(0, 5, 0),
        media_seg(0, 6, 0),
        media_seg(0, 7, 0),
    ];
    let fresh = new_segments(&rendition, Some(5));
    assert_eq!(fresh.len(), 2);
    assert_eq!(fresh[0].media_sequence, 6);
    assert_eq!(fresh[1].media_sequence, 7);
    let all = new_segments(&rendition, None);
    assert_eq!(all.len(), 4);
}

#[test]
fn advance_cursor_moves_to_last_new_segment() {
    let fresh = vec![media_seg(0, 6, 0), media_seg(0, 7, 0)];
    assert_eq!(advance_cursor(&fresh, Some(5)), Some(7));
    let none: Vec<SegmentInfo> = vec![];
    assert_eq!(advance_cursor(&none, Some(5)), Some(5));
    assert_eq!(advance_cursor(&none, None), None);
}

#[test]
fn mix_keeps_each_renditions_order() {
    let lists = vec![
        vec![media_seg(0, 1, 0), media_seg(0, 2, 0)],
        vec![media_seg(1, 1, 0)],
    ];
    let batch = mix(&lists);
    assert_eq!(batch.len(), 3);
    assert_eq!((batch[0].rendition, batch[0].media_sequence), (0, 1));
    assert_eq!((batch[1].rendition, batch[1].media_sequence), (0, 2));
    assert_eq!((batch[2].rendition, batch[2].media_sequence), (1, 1));
}

#[test]
fn source_rejects_invalid_url() {
    let r = HlsLiveSource::new("not a url", None, None);
    assert!(matches!(r, Err(IoriError::InvalidUrl)));
}

#[test]
fn source_parses_url_and_defaults_retry() {
    let source = HlsLiveSource::new("https://example.com/live.m3u8", Some("k"), None).unwrap();
    assert_eq!(source.retry(), 3);
    assert_eq!(source.key().as_deref(), Some("k"));
    let source = source.with_retry(5);
    assert_eq!(source.retry(), 5);
}

#[test]
fn init_failures_exhaust_budget_of_three() {
    let source = HlsLiveSource::new("https://example.com/live.m3u8", None, None).unwrap();
    let mut session = source.start_session();
    assert_eq!(session.state(), SourceState::Initializing);
    assert!(session.on_manifest_failure().is_ok());
    assert!(session.on_manifest_failure().is_ok());
    let third = session.on_manifest_failure();
    assert!(matches!(third, Err(IoriError::ManifestFetchError)));
    assert_eq!(session.state(), SourceState::Terminated);
    assert!(session.has_failed());
    assert_eq!(session.next_sequence(), 0);
}

#[test]
fn poll_failures_reset_after_success() {
    let mut session = StreamSession::new(2);
    session.on_init_loaded(vec![None]);
    assert!(session.on_manifest_failure().is_ok());
    let out = session.on_manifest(&vec![vec![media_seg(0, 1, 2000)]], false);
    assert_eq!(out.batch.len(), 1);
    assert!(session.on_manifest_failure().is_ok());
    assert!(matches!(
        session.on_manifest_failure(),
        Err(IoriError::ManifestFetchError)
    ));
}

#[test]
fn consumer_close_terminates_without_error() {
    let mut session = StreamSession::new(3);
    session.on_init_loaded(vec![None]);
    let out = session.on_manifest(&vec![vec![media_seg(0, 1, 2000)]], false);
    assert_eq!(out.batch.len(), 1);
    assert_eq!(session.state(), SourceState::Waiting);
    session.on_consumer_closed();
    assert_eq!(session.state(), SourceState::Terminated);
    assert!(!session.has_failed());
}

#[test]
fn batches_carry_strictly_increasing_sequences() {
    let mut session = StreamSession::new(3);
    session.on_init_loaded(vec![None, None]);
    let first = session.on_manifest(
        &vec![
            vec![media_seg(0, 1, 2000), media_seg(0, 2, 2000)],
            vec![media_seg(1, 1, 2000)],
        ],
        false,
    );
    assert_eq!(first.batch.len(), 3);
    let sequences: Vec<u64> = first.batch.iter().map(|s| s.sequence).collect();
    assert_eq!(sequences, vec![0, 1, 2]);
    session.on_wake();
    let second = session.on_manifest(
        &vec![
            vec![
                media_seg(0, 1, 2000),
                media_seg(0, 2, 2000),
                media_seg(0, 3, 2000),
            ],
            vec![media_seg(1, 1, 2000), media_seg(1, 2, 2000)],
        ],
        false,
    );
    assert_eq!(second.batch.len(), 2);
    let max_first = first.batch.iter().map(|s| s.sequence).max().unwrap();
    for s in &second.batch {
        assert!(s.sequence > max_first);
    }
    let later: Vec<u64> = second.batch.iter().map(|s| s.sequence).collect();
    assert_eq!(later, vec![3, 4]);
}

#[test]
fn cursors_deduplicate_across_polls() {
    let mut session = StreamSession::new(3);
    session.on_init_loaded(vec![None]);
    let first = session.on_manifest(&vec![vec![media_seg(0, 1, 0), media_seg(0, 2, 0)]], false);
    assert_eq!(first.batch.len(), 2);
    session.on_wake();
    let second = session.on_manifest(&vec![vec![media_seg(0, 1, 0), media_seg(0, 2, 0)]], false);
    assert_eq!(second.batch.len(), 0);
    session.on_wake();
    let third = session.on_manifest(&vec![vec![media_seg(0, 2, 0), media_seg(0, 3, 0)]], false);
    assert_eq!(third.batch.len(), 1);
    assert_eq!(third.batch[0].media_sequence, 3);
    assert_eq!(third.batch[0].sequence, 2);
}

#[test]
fn end_of_stream_terminates_cleanly() {
    let mut session = StreamSession::new(3);
    session.on_init_loaded(vec![None]);
    let out = session.on_manifest(&vec![vec![media_seg(0, 1, 2000)]], true);
    assert_eq!(out.batch.len(), 1);
    assert_eq!(session.state(), SourceState::Terminated);
    assert!(!session.has_failed());
}
