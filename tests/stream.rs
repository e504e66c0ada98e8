use yatta::stream::{
    retention_margin_for, storage_name_for, ArtifactOp, ClockSample, FragmentBuffer, MediaPlaylist, StreamError,
    StreamPublisher, DEFAULT_TARGET_SEGMENT_DURATION, DEFAULT_WINDOW,
};

const SECOND: u64 = 1_000_000_000;
const T0: i64 = 1_700_000_000_000_000_000;

fn buffer(data: &[u8], header: bool, discont: bool, pts: Option<u64>, duration: Option<u64>) -> FragmentBuffer {
    FragmentBuffer {
        data: data.to_vec(),
        header,
        discont,
        delta_unit: false,
        pts,
        duration,
    }
}

fn init_buffer() -> FragmentBuffer {
    buffer(b"ftypmoov", true, true, Some(0), None)
}

/// A media group for segment `k`: a segment header and one further buffer.
fn media_group(k: u64, duration: u64) -> Vec<FragmentBuffer> {
    vec![
        buffer(&[b'h', k as u8], true, false, Some(k * duration), Some(duration)),
        buffer(&[b'm', k as u8], false, false, None, None),
    ]
}

fn clock_at(running_time: u64) -> ClockSample {
    ClockSample { running_time, wall_time: T0 + running_time as i64 }
}

fn playlist_of(ops: &[ArtifactOp]) -> &MediaPlaylist {
    match ops.last() {
        Some(ArtifactOp::PublishPlaylist { name, playlist }) => {
            assert_eq!(name, "manifest.m3u8");
            playlist
        }
        other => panic!("expected a playlist, got {:?}", other),
    }
}

#[test]
fn first_group_with_init_publishes_header_segment_and_playlist() {
    let mut p = StreamPublisher::new(DEFAULT_WINDOW, DEFAULT_TARGET_SEGMENT_DURATION);
    let mut group = vec![init_buffer()];
    group.extend(media_group(0, 2 * SECOND));
    let ops = p.push_fragment_group_at(group, clock_at(SECOND / 2)).unwrap();
    assert_eq!(ops.len(), 3);
    match &ops[0] {
        ArtifactOp::PublishHeader { name, contents } => {
            assert_eq!(name, "init.mp4");
            assert_eq!(contents, b"ftypmoov");
        }
        other => panic!("unexpected {:?}", other),
    }
    match &ops[1] {
        ArtifactOp::PublishSegment { name, contents } => {
            assert_eq!(name, "00000.mp4");
            assert_eq!(contents, &vec![b'h', 0, b'm', 0]);
        }
        other => panic!("unexpected {:?}", other),
    }
    let playlist = playlist_of(&ops);
    assert_eq!(playlist.version, 7);
    assert_eq!(playlist.target_duration, 2);
    assert_eq!(playlist.media_sequence, 0);
    assert!(playlist.independent_segments);
    assert!(!playlist.end_list);
    assert_eq!(playlist.segments.len(), 1);
    assert_eq!(playlist.segments[0].uri, "00000.mp4");
    assert_eq!(playlist.segments[0].duration, 2 * SECOND);
    assert_eq!(playlist.segments[0].map_uri.as_deref(), Some("init.mp4"));
    // anchor: wall clock now minus the time elapsed since the timestamp
    assert_eq!(playlist.segments[0].program_date_time, Some(T0));
    assert!(p.init_written());
    let anchor = p.anchor().unwrap();
    assert_eq!(anchor.pts, 0);
    assert_eq!(anchor.wall_clock, T0);
}

#[test]
fn header_only_group_publishes_only_the_header() {
    let mut p = StreamPublisher::new(DEFAULT_WINDOW, DEFAULT_TARGET_SEGMENT_DURATION);
    let ops = p.push_fragment_group_at(vec![init_buffer()], clock_at(0)).unwrap();
    assert_eq!(ops.len(), 1);
    assert!(matches!(&ops[0], ArtifactOp::PublishHeader { name, .. } if name == "init.mp4"));
    assert!(p.init_written());
    assert_eq!(p.segment_count(), 0);
    assert_eq!(p.next_index(), 0);
    assert!(p.anchor().is_none());
}

#[test]
fn window_scenario_seven_segments_of_two_seconds() {
    let mut p = StreamPublisher::new(5, 2 * SECOND);
    for k in 0..7u64 {
        let ops = p
            .push_fragment_group_at(media_group(k, 2 * SECOND), clock_at(k * 2 * SECOND))
            .unwrap();
        assert!(p.segment_count() <= 5);
        // no segment is old enough to be deleted yet
        assert!(!ops.iter().any(|op| matches!(op, ArtifactOp::DeleteSegment { .. })));
    }
    assert_eq!(p.media_sequence(), 2);
    assert_eq!(p.segment_count(), 5);
    for i in 0..5usize {
        let seg = p.segment(i);
        assert_eq!(seg.index, i as u64 + 2);
        assert_eq!(seg.storage_name, format!("{:05}.mp4", i + 2));
        assert_eq!(seg.wall_clock_start, T0 + ((i as i64 + 2) * 2 * SECOND as i64));
    }
    assert_eq!(p.pending_count(), 2);
    assert_eq!(p.retention_margin(), 20 * SECOND);
    let margin = p.retention_margin() as i64;
    let first = p.pending_deletion(0);
    assert_eq!(first.storage_name, "00000.mp4");
    assert_eq!(first.removal_time, T0 + 2 * SECOND as i64 + margin);
    let second = p.pending_deletion(1);
    assert_eq!(second.storage_name, "00001.mp4");
    assert_eq!(second.removal_time, T0 + 4 * SECOND as i64 + margin);

    let playlist = p.playlist();
    assert_eq!(playlist.media_sequence, 2);
    let uris: Vec<&str> = playlist.segments.iter().map(|e| e.uri.as_str()).collect();
    assert_eq!(uris, ["00002.mp4", "00003.mp4", "00004.mp4", "00005.mp4", "00006.mp4"]);
    assert_eq!(playlist.segments[0].map_uri.as_deref(), Some("init.mp4"));
    assert_eq!(playlist.segments[0].program_date_time, Some(T0 + 4 * SECOND as i64));
    for entry in &playlist.segments[1..] {
        assert!(entry.map_uri.is_none());
        assert!(entry.program_date_time.is_none());
    }
}

#[test]
fn expired_segments_are_deleted_in_order() {
    let mut p = StreamPublisher::new(2, 2 * SECOND);
    assert_eq!(p.retention_margin(), 8 * SECOND);
    let mut deleted = Vec::new();
    for k in 0..12u64 {
        let ops = p
            .push_fragment_group_at(media_group(k, 2 * SECOND), clock_at(k * 2 * SECOND))
            .unwrap();
        for op in &ops {
            if let ArtifactOp::DeleteSegment { name } = op {
                deleted.push((k, name.clone()));
            }
        }
        assert!(p.segment_count() <= 2);
        assert_eq!(p.media_sequence() + p.segment_count() as u64, k + 1);
    }
    // Segment j is evicted when j + 2 arrives; its removal time is
    // start(j) + 2 s + 8 s, which lies before the oldest start once that
    // oldest is segment j + 6, i.e. when segment j + 7 arrives.
    let expected: Vec<(u64, String)> = (0..5u64).map(|j| (j + 7, storage_name_for(j))).collect();
    assert_eq!(deleted, expected);
    assert_eq!(p.media_sequence(), 10);
    assert_eq!(p.pending_count(), 5);
}

#[test]
fn deletions_come_before_the_playlist() {
    let mut p = StreamPublisher::new(1, SECOND);
    assert_eq!(p.retention_margin(), 2 * SECOND);
    for k in 0..4u64 {
        let ops = p.push_fragment_group_at(media_group(k, SECOND), clock_at(k * SECOND)).unwrap();
        assert_eq!(ops.len(), 2);
    }
    let ops = p.push_fragment_group_at(media_group(4, SECOND), clock_at(4 * SECOND)).unwrap();
    // segment 0 is due at T0 + 1 s + 2 s, before segment 4 starts at T0 + 4 s;
    // segment 1 is due exactly at that start and is kept
    assert_eq!(ops.len(), 3);
    assert!(matches!(&ops[0], ArtifactOp::PublishSegment { name, .. } if name == "00004.mp4"));
    assert!(matches!(&ops[1], ArtifactOp::DeleteSegment { name } if name == "00000.mp4"));
    assert!(matches!(&ops[2], ArtifactOp::PublishPlaylist { .. }));
    assert_eq!(p.pending_count(), 3);
    assert_eq!(p.pending_deletion(0).storage_name, "00001.mp4");
}

#[test]
fn group_without_segment_header_is_a_protocol_violation() {
    let mut p = StreamPublisher::new(DEFAULT_WINDOW, DEFAULT_TARGET_SEGMENT_DURATION);
    let group = vec![buffer(b"x", false, false, Some(0), Some(SECOND))];
    assert_eq!(
        p.push_fragment_group_at(group, clock_at(0)).unwrap_err(),
        StreamError::MissingSegmentHeader
    );
    // also after an init buffer
    let group = vec![init_buffer(), buffer(b"x", false, false, Some(0), Some(SECOND))];
    assert_eq!(
        p.push_fragment_group_at(group, clock_at(0)).unwrap_err(),
        StreamError::MissingSegmentHeader
    );
    // a discont buffer without header is no init group either
    let group = vec![buffer(b"x", false, true, Some(0), Some(SECOND))];
    assert_eq!(
        p.push_fragment_group_at(group, clock_at(0)).unwrap_err(),
        StreamError::MissingSegmentHeader
    );
    assert!(!p.init_written());
    assert_eq!(p.segment_count(), 0);
}

#[test]
fn empty_group_is_end_of_stream() {
    let mut p = StreamPublisher::new(DEFAULT_WINDOW, DEFAULT_TARGET_SEGMENT_DURATION);
    assert_eq!(
        p.push_fragment_group_at(Vec::new(), clock_at(0)).unwrap_err(),
        StreamError::EndOfStream
    );
}

#[test]
fn delta_unit_start_is_refused() {
    let mut p = StreamPublisher::new(DEFAULT_WINDOW, DEFAULT_TARGET_SEGMENT_DURATION);
    let mut group = media_group(0, SECOND);
    group[0].delta_unit = true;
    assert_eq!(
        p.push_fragment_group_at(group, clock_at(0)).unwrap_err(),
        StreamError::DeltaUnitStart
    );
}

#[test]
fn missing_timestamp_is_refused() {
    let mut p = StreamPublisher::new(DEFAULT_WINDOW, DEFAULT_TARGET_SEGMENT_DURATION);
    let group = vec![buffer(b"h", true, false, None, Some(SECOND))];
    assert_eq!(
        p.push_fragment_group_at(group, clock_at(0)).unwrap_err(),
        StreamError::MissingTimestamp
    );
    let group = vec![buffer(b"h", true, false, Some(0), None)];
    assert_eq!(
        p.push_fragment_group_at(group, clock_at(0)).unwrap_err(),
        StreamError::MissingTimestamp
    );
}

#[test]
fn clock_behind_first_timestamp_is_refused() {
    let mut p = StreamPublisher::new(DEFAULT_WINDOW, DEFAULT_TARGET_SEGMENT_DURATION);
    assert_eq!(
        p.push_fragment_group_at(media_group(3, SECOND), clock_at(SECOND)).unwrap_err(),
        StreamError::ClockBehindTimestamp
    );
    assert!(p.anchor().is_none());
}

#[test]
fn timestamp_before_anchor_is_refused() {
    let mut p = StreamPublisher::new(DEFAULT_WINDOW, DEFAULT_TARGET_SEGMENT_DURATION);
    p.push_fragment_group_at(media_group(5, SECOND), clock_at(5 * SECOND)).unwrap();
    assert_eq!(
        p.push_fragment_group_at(media_group(4, SECOND), clock_at(6 * SECOND)).unwrap_err(),
        StreamError::TimestampBeforeAnchor
    );
    assert_eq!(p.segment_count(), 1);
}

#[test]
fn wall_time_beyond_range_is_refused() {
    let mut p = StreamPublisher::new(DEFAULT_WINDOW, DEFAULT_TARGET_SEGMENT_DURATION);
    let clock = ClockSample { running_time: 0, wall_time: i64::MAX - SECOND as i64 };
    assert_eq!(
        p.push_fragment_group_at(media_group(0, SECOND), clock).unwrap_err(),
        StreamError::TimeOverflow
    );
}

#[test]
fn anchor_is_kept_and_starts_follow_timestamps() {
    let mut p = StreamPublisher::new(DEFAULT_WINDOW, DEFAULT_TARGET_SEGMENT_DURATION);
    // one second of delay between the fragment and the clock sample
    let clock = ClockSample { running_time: 11 * SECOND, wall_time: T0 };
    p.push_fragment_group_at(media_group(5, 2 * SECOND), clock).unwrap();
    assert_eq!(p.segment(0).wall_clock_start, T0 - SECOND as i64);
    // a later, jittery clock sample does not move the anchor
    let later = ClockSample { running_time: 100 * SECOND, wall_time: 0 };
    p.push_fragment_group_at(media_group(6, 2 * SECOND), later).unwrap();
    assert_eq!(p.segment(1).wall_clock_start, T0 + SECOND as i64);
    assert!(p.segment(1).wall_clock_start >= p.segment(0).wall_clock_start);
}

#[test]
fn target_duration_rounds_up() {
    let mut p = StreamPublisher::new(DEFAULT_WINDOW, DEFAULT_TARGET_SEGMENT_DURATION);
    let ops = p
        .push_fragment_group_at(media_group(0, 2 * SECOND + 1), clock_at(0))
        .unwrap();
    assert_eq!(playlist_of(&ops).target_duration, 3);
}

#[test]
fn storage_names_are_zero_padded() {
    assert_eq!(storage_name_for(0), "00000.mp4");
    assert_eq!(storage_name_for(42), "00042.mp4");
    assert_eq!(storage_name_for(123456), "123456.mp4");
}

#[test]
fn retention_margin_follows_window_and_duration() {
    assert_eq!(retention_margin_for(5, 2 * SECOND), 20 * SECOND);
    assert_eq!(retention_margin_for(3, SECOND), 6 * SECOND);
    assert_eq!(retention_margin_for(0, SECOND), 0);
    assert_eq!(retention_margin_for(usize::MAX, SECOND), u64::MAX);
}

#[test]
fn new_publisher_derives_its_retention_margin() {
    let p = StreamPublisher::new(DEFAULT_WINDOW, DEFAULT_TARGET_SEGMENT_DURATION);
    assert_eq!(p.window(), 5);
    assert_eq!(p.target_segment_duration(), 2 * SECOND);
    assert_eq!(p.retention_margin(), 20 * SECOND);
    assert!(p.retention_margin() >= p.window() as u64 * p.target_segment_duration());
}
