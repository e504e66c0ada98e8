//! The per-rendition live segment publisher.
//!
//! A `StreamPublisher` consumes the fragment groups of one rendition in order.
//! Each group yields the artifact operations to carry out (publish the
//! initialisation segment, a media segment or the media playlist, or delete an
//! expired segment), in the order in which they must be performed.

use vstd::prelude::*;

use std::collections::VecDeque;

use crate::decimal::{lemma_zero_padded_value, push_zero_padded, zero_padded};

verus! {

/// Number of segments advertised in the playlist unless configured otherwise.
pub const DEFAULT_WINDOW: usize = 5;

/// Duration (in nanoseconds) of segments unless configured otherwise.
pub const DEFAULT_TARGET_SEGMENT_DURATION: u64 = 2_000_000_000;

pub const NANOS_PER_SECOND: u64 = 1_000_000_000;

/// One buffer of a fragment group, as delivered by the muxer. Times are in
/// nanoseconds of the stream's running time.
#[derive(Clone, Debug)]
pub struct FragmentBuffer {
    pub data: Vec<u8>,
    pub header: bool,
    pub discont: bool,
    pub delta_unit: bool,
    pub pts: Option<u64>,
    pub duration: Option<u64>,
}

/// The stream's running time and the wall-clock time (nanoseconds since the Unix
/// epoch), read at the same instant.
#[derive(Clone, Copy, Debug, PartialEq, Eq)]
pub struct ClockSample {
    pub running_time: u64,
    pub wall_time: i64,
}

/// A media timestamp and the wall-clock instant (nanoseconds since the Unix
/// epoch) it corresponds to.
#[derive(Clone, Copy, Debug, PartialEq, Eq)]
pub struct Anchor {
    pub pts: u64,
    pub wall_clock: i64,
}

/// A published media segment of the active window.
#[derive(Clone, Debug)]
pub struct Segment {
    pub index: u64,
    pub wall_clock_start: i64,
    pub duration: u64,
    pub storage_name: String,
}

/// A segment that left the window and waits for deletion.
#[derive(Clone, Debug)]
pub struct PendingDeletion {
    pub removal_time: i64,
    pub storage_name: String,
}

#[derive(Clone, Copy, Debug, PartialEq, Eq)]
pub enum StreamError {
    /// The source delivered an empty group: a live stream has ended.
    EndOfStream,
    /// The group starts with a delta unit.
    DeltaUnitStart,
    /// The media part of the group does not start with a segment header.
    MissingSegmentHeader,
    /// The first media buffer lacks its timestamp or duration.
    MissingTimestamp,
    /// The running clock reads earlier than the first media timestamp.
    ClockBehindTimestamp,
    /// A timestamp lies before the stream's anchor timestamp.
    TimestampBeforeAnchor,
    /// A wall-clock time of the segment does not fit the time range.
    TimeOverflow,
    /// Every segment index has been used.
    IndexExhausted,
}

/// One entry of a media playlist.
#[derive(Clone, Debug)]
pub struct PlaylistEntry {
    pub uri: String,
    pub duration: u64,
    pub map_uri: Option<String>,
    pub program_date_time: Option<i64>,
}

/// A live media playlist, durations in nanoseconds and date-times in
/// nanoseconds since the Unix epoch.
#[derive(Clone, Debug)]
pub struct MediaPlaylist {
    pub version: u64,
    pub target_duration: u64,
    pub media_sequence: u64,
    pub independent_segments: bool,
    pub end_list: bool,
    pub segments: Vec<PlaylistEntry>,
}

/// An operation on the rendition's storage.
#[derive(Clone, Debug)]
pub enum ArtifactOp {
    PublishHeader { name: String, contents: Vec<u8> },
    PublishSegment { name: String, contents: Vec<u8> },
    DeleteSegment { name: String },
    PublishPlaylist { name: String, playlist: MediaPlaylist },
}

pub struct SegmentView {
    pub index: nat,
    pub start: int,
    pub duration: nat,
    pub name: Seq<char>,
}

pub struct PendingView {
    pub removal_time: int,
    pub name: Seq<char>,
}

pub struct EntryView {
    pub uri: Seq<char>,
    pub duration: nat,
    pub map_uri: Option<Seq<char>>,
    pub program_date_time: Option<int>,
}

pub struct PlaylistView {
    pub version: nat,
    pub target_duration: nat,
    pub media_sequence: nat,
    pub independent_segments: bool,
    pub end_list: bool,
    pub segments: Seq<EntryView>,
}

pub enum OpView {
    Header(Seq<char>, Seq<u8>),
    Segment(Seq<char>, Seq<u8>),
    Delete(Seq<char>),
    Playlist(Seq<char>, PlaylistView),
}

impl View for Segment {
    type V = SegmentView;

    open spec fn view(&self) -> SegmentView {
        SegmentView {
            index: self.index as nat,
            start: self.wall_clock_start as int,
            duration: self.duration as nat,
            name: self.storage_name@,
        }
    }
}

impl View for PendingDeletion {
    type V = PendingView;

    open spec fn view(&self) -> PendingView {
        PendingView { removal_time: self.removal_time as int, name: self.storage_name@ }
    }
}

pub open spec fn opt_str_view(o: Option<String>) -> Option<Seq<char>> {
    match o {
        Some(s) => Some(s@),
        None => None,
    }
}

pub open spec fn opt_time_view(o: Option<i64>) -> Option<int> {
    match o {
        Some(t) => Some(t as int),
        None => None,
    }
}

impl View for PlaylistEntry {
    type V = EntryView;

    open spec fn view(&self) -> EntryView {
        EntryView {
            uri: self.uri@,
            duration: self.duration as nat,
            map_uri: opt_str_view(self.map_uri),
            program_date_time: opt_time_view(self.program_date_time),
        }
    }
}

impl View for MediaPlaylist {
    type V = PlaylistView;

    open spec fn view(&self) -> PlaylistView {
        PlaylistView {
            version: self.version as nat,
            target_duration: self.target_duration as nat,
            media_sequence: self.media_sequence as nat,
            independent_segments: self.independent_segments,
            end_list: self.end_list,
            segments: self.segments@.map_values(|e: PlaylistEntry| e@),
        }
    }
}

impl View for ArtifactOp {
    type V = OpView;

    open spec fn view(&self) -> OpView {
        match self {
            ArtifactOp::PublishHeader { name, contents } => OpView::Header(name@, contents@),
            ArtifactOp::PublishSegment { name, contents } => OpView::Segment(name@, contents@),
            ArtifactOp::DeleteSegment { name } => OpView::Delete(name@),
            ArtifactOp::PublishPlaylist { name, playlist } => OpView::Playlist(name@, playlist@),
        }
    }
}

pub open spec fn ops_view(ops: Seq<ArtifactOp>) -> Seq<OpView> {
    ops.map_values(|o: ArtifactOp| o@)
}

pub open spec fn init_name() -> Seq<char> {
    seq!['i', 'n', 'i', 't', '.', 'm', 'p', '4']
}

pub open spec fn manifest_name() -> Seq<char> {
    seq!['m', 'a', 'n', 'i', 'f', 'e', 's', 't', '.', 'm', '3', 'u', '8']
}

/// `00042.mp4` for index 42.
pub open spec fn segment_name(index: nat) -> Seq<char> {
    zero_padded(index, 5) + seq!['.', 'm', 'p', '4']
}

/// Different indices give different storage names.
pub proof fn lemma_segment_name_injective(a: nat, b: nat)
    requires
        segment_name(a) == segment_name(b),
    ensures
        a == b,
{
    let na = segment_name(a);
    assert(na.subrange(0, na.len() - 4) =~= zero_padded(a, 5));
    assert(na.subrange(0, na.len() - 4) =~= zero_padded(b, 5));
    lemma_zero_padded_value(a, 5);
    lemma_zero_padded_value(b, 5);
}

/// The bytes of the buffers, concatenated in order.
pub open spec fn payload(bufs: Seq<FragmentBuffer>) -> Seq<u8>
    decreases bufs.len(),
{
    if bufs.len() == 0 {
        seq![]
    } else {
        payload(bufs.drop_last()) + bufs.last().data@
    }
}

/// The group opens with the container's initialisation data.
pub open spec fn starts_with_init(group: Seq<FragmentBuffer>) -> bool {
    group.len() > 0 && group[0].discont && group[0].header
}

/// The buffers of the group that form a media segment.
pub open spec fn media_buffers(group: Seq<FragmentBuffer>) -> Seq<FragmentBuffer> {
    if starts_with_init(group) {
        group.drop_first()
    } else {
        group
    }
}

/// The wall-clock instant of a timestamp, given the anchor.
pub open spec fn wall_clock_at(anchor: Anchor, pts: u64) -> int {
    anchor.wall_clock + (pts - anchor.pts)
}

/// The wall-clock instant of `pts`, from a clock sample taken at or after it.
pub open spec fn sampled_wall_clock(pts: u64, clock: ClockSample) -> int {
    clock.wall_time - (clock.running_time - pts)
}

pub open spec fn ceil_seconds(nanos: nat) -> nat {
    ((nanos + (NANOS_PER_SECOND - 1)) / (NANOS_PER_SECOND as int)) as nat
}

pub open spec fn i64_range(t: int) -> bool {
    i64::MIN <= t <= i64::MAX
}

/// The abstract state of a `StreamPublisher`.
pub struct PublisherView {
    pub window: nat,
    pub target_segment_duration: nat,
    pub retention_margin: nat,
    pub segments: Seq<SegmentView>,
    pub pending: Seq<PendingView>,
    pub anchor: Option<Anchor>,
    pub next_index: nat,
    pub media_sequence: nat,
    pub init_written: bool,
}

/// The smaller of `n` and `cap`.
pub open spec fn filled(n: nat, cap: nat) -> nat {
    if n < cap {
        n
    } else {
        cap
    }
}

/// `seg` stands at `position` of a window whose oldest segment has index
/// `media_sequence`: its index and name follow from that position, and its
/// end plus the retention margin is a representable wall-clock time.
pub open spec fn segment_in_place(
    seg: SegmentView,
    position: int,
    media_sequence: nat,
    margin: nat,
) -> bool {
    &&& seg.index == media_sequence + position
    &&& seg.name == segment_name(seg.index)
    &&& seg.duration <= u64::MAX
    &&& i64::MIN <= seg.start
    &&& seg.start + seg.duration + margin <= i64::MAX
}

/// `name` is the storage name of a segment that has left the window.
pub open spec fn evicted_name(name: Seq<char>, media_sequence: nat) -> bool {
    exists|k: nat| k < media_sequence && name == #[trigger] segment_name(k)
}

impl PublisherView {
    /// Everything but the window bound: segment `i` of the window has index
    /// `media_sequence + i`, every segment index handed out is either in the
    /// window or counted as evicted, every pending deletion names an evicted
    /// segment, and the retention margin covers a full window.
    pub open spec fn consistent(self) -> bool {
        &&& self.window >= 1
        &&& self.window <= usize::MAX
        &&& self.retention_margin <= u64::MAX
        &&& self.window * self.target_segment_duration <= self.retention_margin
        &&& self.next_index <= u64::MAX
        &&& self.media_sequence + self.segments.len() == self.next_index
        &&& self.segments.len() > 0 ==> self.anchor is Some
        &&& forall|i: int|
            0 <= i < self.segments.len() ==> segment_in_place(
                #[trigger] self.segments[i],
                i,
                self.media_sequence,
                self.retention_margin,
            )
        &&& forall|i: int|
            0 <= i < self.pending.len() ==> i64_range((#[trigger] self.pending[i]).removal_time)
                && evicted_name(self.pending[i].name, self.media_sequence)
    }

    /// Consistent, and the window holds the newest segments, as many as were
    /// created up to its bound.
    pub open spec fn wf(self) -> bool {
        self.consistent() && self.segments.len() == filled(self.next_index, self.window)
    }

    /// A segment has just been appended to a well-formed window.
    pub open spec fn ready_to_trim(self) -> bool {
        &&& self.consistent()
        &&& self.segments.len() > 0
        &&& self.segments.len() == filled(self.next_index, self.window + 1)
    }
}

/// The pending deletion of a segment that leaves the window.
pub open spec fn expiry(seg: SegmentView, margin: nat) -> PendingView {
    PendingView { removal_time: seg.start + seg.duration + margin, name: seg.name }
}

/// The number of segments beyond the window bound.
pub open spec fn eviction_count(s: PublisherView) -> nat {
    if s.segments.len() > s.window {
        (s.segments.len() - s.window) as nat
    } else {
        0
    }
}

/// The state once the oldest `j` segments have moved from the window to the
/// pending deletions.
pub open spec fn evicted_first(s: PublisherView, j: nat) -> PublisherView {
    PublisherView {
        segments: s.segments.skip(j as int),
        pending: s.pending + s.segments.take(j as int).map_values(
            |seg: SegmentView| expiry(seg, s.retention_margin),
        ),
        media_sequence: s.media_sequence + j,
        ..s
    }
}

/// The oldest segments moved out of the window until it holds at most `window`.
pub open spec fn evict(s: PublisherView) -> PublisherView {
    evicted_first(s, eviction_count(s))
}

/// The length of the prefix of `pending` whose removal times lie before `cutoff`.
pub open spec fn expired_count(pending: Seq<PendingView>, cutoff: int) -> nat
    decreases pending.len(),
{
    if pending.len() > 0 && pending[0].removal_time < cutoff {
        1 + expired_count(pending.drop_first(), cutoff)
    } else {
        0
    }
}

/// The wall-clock start of the oldest segment of the window, if any.
pub open spec fn deletion_cutoff(s: PublisherView) -> Option<int> {
    if s.segments.len() > 0 {
        Some(s.segments[0].start)
    } else {
        None
    }
}

pub open spec fn deletable_count(s: PublisherView) -> nat {
    match deletion_cutoff(s) {
        Some(c) => expired_count(s.pending, c),
        None => 0,
    }
}

/// The state after trimming, and the names of the segments to delete.
pub open spec fn trimmed(s: PublisherView) -> (PublisherView, Seq<Seq<char>>) {
    let e = evict(s);
    let d = deletable_count(e) as int;
    (
        PublisherView { pending: e.pending.skip(d), ..e },
        e.pending.take(d).map_values(|p: PendingView| p.name),
    )
}

pub open spec fn entry_of(seg: SegmentView, first: bool) -> EntryView {
    EntryView {
        uri: seg.name,
        duration: seg.duration,
        map_uri: if first {
            Some(init_name())
        } else {
            None
        },
        program_date_time: if first {
            Some(seg.start)
        } else {
            None
        },
    }
}

/// The media playlist advertising the window of `s`.
pub open spec fn playlist_of(s: PublisherView) -> PlaylistView {
    PlaylistView {
        version: 7,
        target_duration: if s.segments.len() == 0 {
            0
        } else {
            ceil_seconds(s.segments.last().duration)
        },
        media_sequence: s.media_sequence,
        independent_segments: true,
        end_list: false,
        segments: Seq::new(s.segments.len(), |i: int| entry_of(s.segments[i], i == 0)),
    }
}

/// The anchor in force for a media fragment stamped `pts`: the stored one, or
/// else `pts` with its wall-clock instant from the sample.
pub open spec fn anchor_after(s: PublisherView, pts: u64, clock: ClockSample) -> Anchor {
    match s.anchor {
        Some(a) => a,
        None => Anchor { pts, wall_clock: sampled_wall_clock(pts, clock) as i64 },
    }
}

pub open spec fn timing_error(
    s: PublisherView,
    pts: u64,
    duration: u64,
    clock: ClockSample,
) -> Option<StreamError> {
    if s.anchor is None && clock.running_time < pts {
        Some(StreamError::ClockBehindTimestamp)
    } else if s.anchor is Some && pts < s.anchor->Some_0.pts {
        Some(StreamError::TimestampBeforeAnchor)
    } else if s.anchor is None && sampled_wall_clock(pts, clock) < i64::MIN {
        Some(StreamError::TimeOverflow)
    } else if wall_clock_at(anchor_after(s, pts, clock), pts) + duration + s.retention_margin
        > i64::MAX {
        Some(StreamError::TimeOverflow)
    } else if s.next_index >= u64::MAX {
        Some(StreamError::IndexExhausted)
    } else {
        None
    }
}

/// The error, if any, with which a group is refused. A refused group changes
/// nothing.
pub open spec fn push_error(
    s: PublisherView,
    group: Seq<FragmentBuffer>,
    clock: ClockSample,
) -> Option<StreamError> {
    let media = media_buffers(group);
    if group.len() == 0 {
        Some(StreamError::EndOfStream)
    } else if group[0].delta_unit {
        Some(StreamError::DeltaUnitStart)
    } else if media.len() == 0 {
        None
    } else if !media[0].header {
        Some(StreamError::MissingSegmentHeader)
    } else if media[0].pts is None || media[0].duration is None {
        Some(StreamError::MissingTimestamp)
    } else {
        timing_error(s, media[0].pts->0, media[0].duration->0, clock)
    }
}

/// The segment record that an accepted media group creates.
pub open spec fn created_segment(
    s: PublisherView,
    group: Seq<FragmentBuffer>,
    clock: ClockSample,
) -> SegmentView {
    let first = media_buffers(group)[0];
    let pts = first.pts->0;
    SegmentView {
        index: s.next_index,
        start: wall_clock_at(anchor_after(s, pts, clock), pts),
        duration: first.duration->0 as nat,
        name: segment_name(s.next_index),
    }
}

pub open spec fn header_ops(group: Seq<FragmentBuffer>) -> Seq<OpView> {
    if starts_with_init(group) {
        seq![OpView::Header(init_name(), group[0].data@)]
    } else {
        seq![]
    }
}

/// The state before trimming, once an accepted media group has been added.
pub open spec fn appended(
    s: PublisherView,
    group: Seq<FragmentBuffer>,
    clock: ClockSample,
) -> PublisherView {
    let pts = media_buffers(group)[0].pts->0;
    PublisherView {
        segments: s.segments.push(created_segment(s, group, clock)),
        anchor: Some(anchor_after(s, pts, clock)),
        next_index: s.next_index + 1,
        init_written: s.init_written || starts_with_init(group),
        ..s
    }
}

/// The state after an accepted group, and the operations it yields.
pub open spec fn push_outcome(
    s: PublisherView,
    group: Seq<FragmentBuffer>,
    clock: ClockSample,
) -> (PublisherView, Seq<OpView>) {
    if media_buffers(group).len() == 0 {
        (PublisherView { init_written: true, ..s }, header_ops(group))
    } else {
        let seg = created_segment(s, group, clock);
        let t = trimmed(appended(s, group, clock));
        (
            t.0,
            header_ops(group) + seq![OpView::Segment(seg.name, payload(media_buffers(group)))]
                + t.1.map_values(|n: Seq<char>| OpView::Delete(n)) + seq![
                OpView::Playlist(manifest_name(), playlist_of(t.0)),
            ],
        )
    }
}

/// `r` and the state `after` are what handling `group` in state `before`, with
/// the clock sample `clock`, gives.
pub open spec fn push_result(
    before: PublisherView,
    after: PublisherView,
    group: Seq<FragmentBuffer>,
    clock: ClockSample,
    r: Result<Vec<ArtifactOp>, StreamError>,
) -> bool {
    match push_error(before, group, clock) {
        Some(e) => r == Err::<Vec<ArtifactOp>, StreamError>(e) && after == before,
        None => r is Ok && after == push_outcome(before, group, clock).0 && ops_view(r->Ok_0@)
            == push_outcome(before, group, clock).1,
    }
}

/// The publisher of one rendition.
pub struct StreamPublisher {
    window: usize,
    target_segment_duration: u64,
    retention_margin: u64,
    segments: VecDeque<Segment>,
    trimmed_segments: VecDeque<PendingDeletion>,
    anchor: Option<Anchor>,
    next_index: u64,
    media_sequence: u64,
    init_written: bool,
}

impl View for StreamPublisher {
    type V = PublisherView;

    closed spec fn view(&self) -> PublisherView {
        PublisherView {
            window: self.window as nat,
            target_segment_duration: self.target_segment_duration as nat,
            retention_margin: self.retention_margin as nat,
            segments: self.segments@.map_values(|s: Segment| s@),
            pending: self.trimmed_segments@.map_values(|p: PendingDeletion| p@),
            anchor: self.anchor,
            next_index: self.next_index as nat,
            media_sequence: self.media_sequence as nat,
            init_written: self.init_written,
        }
    }
}

fn init_name_string() -> (r: String)
    ensures
        r@ == init_name(),
{
    proof {
        reveal_strlit("init.mp4");
    }
    let r = String::from_str("init.mp4");
    assert(r@ =~= init_name());
    r
}

fn manifest_name_string() -> (r: String)
    ensures
        r@ == manifest_name(),
{
    proof {
        reveal_strlit("manifest.m3u8");
    }
    let r = String::from_str("manifest.m3u8");
    assert(r@ =~= manifest_name());
    r
}

/// Twice `window * segment_duration`, saturating at `u64::MAX`.
pub open spec fn retention_margin_spec(window: nat, segment_duration: nat) -> nat {
    if 2 * window * segment_duration <= u64::MAX {
        2 * window * segment_duration
    } else {
        u64::MAX as nat
    }
}

/// The retention margin for a window of `window` segments of
/// `segment_duration` nanoseconds: twice the longest span a client's copy of
/// the playlist can cover, saturating at `u64::MAX`.
pub fn retention_margin_for(window: usize, segment_duration: u64) -> (r: u64)
    ensures
        r == retention_margin_spec(window as nat, segment_duration as nat),
{
    let w = window as u128;
    let d = segment_duration as u128;
    proof {
        assert(w * d <= 0xffff_ffff_ffff_ffff * 0xffff_ffff_ffff_ffff) by (nonlinear_arith)
            requires
                w <= 0xffff_ffff_ffff_ffff,
                d <= 0xffff_ffff_ffff_ffff,
        ;
    }
    let span = w * d;
    if span > (u64::MAX / 2) as u128 {
        proof {
            assert(2 * window * segment_duration == 2 * (w * d)) by (nonlinear_arith)
                requires
                    w == window,
                    d == segment_duration,
            ;
        }
        u64::MAX
    } else {
        proof {
            assert(2 * window * segment_duration == 2 * (w * d)) by (nonlinear_arith)
                requires
                    w == window,
                    d == segment_duration,
            ;
        }
        (2 * span) as u64
    }
}

/// The storage name of the segment with the given index.
pub fn storage_name_for(index: u64) -> (r: String)
    ensures
        r@ == segment_name(index as nat),
{
    let mut r = String::new();
    push_zero_padded(&mut r, index, 5);
    proof {
        reveal_strlit(".mp4");
    }
    r.append(".mp4");
    assert(r@ =~= segment_name(index as nat));
    r
}

/// The bytes of `group[from..]`, concatenated in order.
fn concat_payload(group: &Vec<FragmentBuffer>, from: usize) -> (r: Vec<u8>)
    requires
        from <= group@.len(),
    ensures
        r@ == payload(group@.skip(from as int)),
{
    let mut out: Vec<u8> = Vec::new();
    let mut i: usize = from;
    assert(group@.subrange(from as int, from as int) =~= Seq::<FragmentBuffer>::empty());
    while i < group.len()
        invariant
            from <= i <= group@.len(),
            out@ == payload(group@.subrange(from as int, i as int)),
        decreases group@.len() - i,
    {
        let ghost before = out@;
        out.extend_from_slice(group[i].data.as_slice());
        assert(out@ =~= before + group@[i as int].data@);
        assert(group@.subrange(from as int, i + 1).drop_last() =~= group@.subrange(
            from as int,
            i as int,
        ));
        i = i + 1;
    }
    assert(group@.subrange(from as int, group@.len() as int) =~= group@.skip(from as int));
    out
}

/// The number of nanoseconds, rounded up to whole seconds.
fn ceil_to_seconds(nanos: u64) -> (r: u64)
    ensures
        r == ceil_seconds(nanos as nat),
{
    let whole = nanos / NANOS_PER_SECOND;
    let rest = nanos % NANOS_PER_SECOND;
    if rest != 0 {
        whole + 1
    } else {
        whole
    }
}

impl StreamPublisher {
    /// A publisher advertising `window` segments of `target_segment_duration`
    /// nanoseconds. Evicted segments stay on storage past their end for the
    /// margin `retention_margin_for(window, target_segment_duration)`, which
    /// outlasts any copy of the playlist a client can still hold.
    pub fn new(window: usize, target_segment_duration: u64) -> (r: Self)
        requires
            window >= 1,
            window * target_segment_duration <= u64::MAX,
        ensures
            r@.wf(),
            r@ == (PublisherView {
                window: window as nat,
                target_segment_duration: target_segment_duration as nat,
                retention_margin: retention_margin_spec(window as nat, target_segment_duration as nat),
                segments: Seq::empty(),
                pending: Seq::empty(),
                anchor: None,
                next_index: 0,
                media_sequence: 0,
                init_written: false,
            }),
    {
        let retention_margin = retention_margin_for(window, target_segment_duration);
        proof {
            assert(window * target_segment_duration <= 2 * window * target_segment_duration)
                by (nonlinear_arith);
        }
        let r = StreamPublisher {
            window,
            target_segment_duration,
            retention_margin,
            segments: VecDeque::new(),
            trimmed_segments: VecDeque::new(),
            anchor: None,
            next_index: 0,
            media_sequence: 0,
            init_written: false,
        };
        assert(r@.segments =~= Seq::empty());
        assert(r@.pending =~= Seq::empty());
        r
    }

    /// Checks the timing of a media fragment and returns the anchor in force for it.
    fn segment_timing(&self, pts: u64, duration: u64, clock: ClockSample) -> (r: Result<
        Anchor,
        StreamError,
    >)
        requires
            self@.wf(),
        ensures
            match timing_error(self@, pts, duration, clock) {
                Some(e) => r == Err::<Anchor, StreamError>(e),
                None => r == Ok::<Anchor, StreamError>(anchor_after(self@, pts, clock)),
            },
    {
        let anchor = match self.anchor {
            Some(a) => {
                if pts < a.pts {
                    return Err(StreamError::TimestampBeforeAnchor);
                }
                a
            },
            None => {
                if clock.running_time < pts {
                    return Err(StreamError::ClockBehindTimestamp);
                }
                let wall: i128 = clock.wall_time as i128 - (clock.running_time - pts) as i128;
                if wall < i64::MIN as i128 {
                    return Err(StreamError::TimeOverflow);
                }
                Anchor { pts, wall_clock: wall as i64 }
            },
        };
        let end: i128 = anchor.wall_clock as i128 + (pts - anchor.pts) as i128 + duration as i128
            + self.retention_margin as i128;
        if end > i64::MAX as i128 {
            return Err(StreamError::TimeOverflow);
        }
        if self.next_index == u64::MAX {
            return Err(StreamError::IndexExhausted);
        }
        Ok(anchor)
    }

    /// Moves segments beyond the window to the pending deletions, then takes off
    /// the pending deletions whose removal time lies before the start of the
    /// oldest segment left, and returns their names.
    fn trim_segments(&mut self) -> (deleted: Vec<String>)
        requires
            old(self)@.ready_to_trim(),
        ensures
            final(self)@.wf(),
            final(self)@ == trimmed(old(self)@).0,
            deleted@.map_values(|n: String| n@) == trimmed(old(self)@).1,
    {
        let ghost start = self@;
        let ghost j: nat = 0;
        assert(start.segments.skip(0) =~= start.segments);
        assert(start.pending + start.segments.take(0).map_values(
            |seg: SegmentView| expiry(seg, start.retention_margin),
        ) =~= start.pending);
        while self.segments.len() > self.window
            invariant
                start.consistent(),
                j <= eviction_count(start),
                self@ == evicted_first(start, j),
            decreases self.segments@.len(),
        {
            let ghost prev = self@;
            proof {
                lemma_evicted_first(start, j);
            }
            let seg = match self.segments.pop_front() {
                Some(seg) => seg,
                None => {
                    return Vec::new();
                },
            };
            assert(prev.segments[0] == seg@);
            assert(start.segments[j as int] == seg@);
            assert(segment_in_place(prev.segments[0], 0, prev.media_sequence, prev.retention_margin));
            self.media_sequence = self.media_sequence + 1;
            let removal_time = (seg.wall_clock_start as i128 + seg.duration as i128
                + self.retention_margin as i128) as i64;
            self.trimmed_segments.push_back(
                PendingDeletion { removal_time, storage_name: seg.storage_name },
            );
            assert(self@.segments =~= prev.segments.drop_first());
            assert(prev.segments.drop_first() =~= start.segments.skip(j + 1int));
            assert(self@.pending =~= prev.pending.push(expiry(seg@, prev.retention_margin)));
            assert(start.segments.take(j + 1int) =~= start.segments.take(j as int).push(seg@));
            assert(self@.pending =~= start.pending + start.segments.take(j + 1int).map_values(
                |seg: SegmentView| expiry(seg, start.retention_margin),
            ));
            proof {
                j = j + 1;
            }
            assert(self@ == evicted_first(start, j));
        }
        proof {
            lemma_evict(start);
        }
        let ghost e = self@;
        assert(e == evict(start));
        let ghost k: int = 0;
        let mut deleted: Vec<String> = Vec::new();
        assert(e.pending.skip(0) =~= e.pending);
        while self.trimmed_segments.len() > 0 && self.segments.len() > 0
            && self.trimmed_segments[0].removal_time < self.segments[0].wall_clock_start
            invariant
                e.consistent(),
                e.segments.len() <= e.window,
                0 <= k <= e.pending.len(),
                self@ == (PublisherView { pending: e.pending.skip(k), ..e }),
                deleted@.map_values(|n: String| n@) == e.pending.take(k).map_values(
                    |p: PendingView| p.name,
                ),
                deletable_count(e) == k + deletable_count(self@),
            decreases self.trimmed_segments@.len(),
        {
            let ghost prev = self@;
            let p = match self.trimmed_segments.pop_front() {
                Some(p) => p,
                None => {
                    return deleted;
                },
            };
            assert(prev.pending[0] == p@);
            let ghost before = deleted@;
            deleted.push(p.storage_name);
            assert(e.pending.skip(k).drop_first() =~= e.pending.skip(k + 1));
            assert(e.pending.take(k + 1) =~= e.pending.take(k).push(e.pending[k]));
            assert(e.pending[k] == p@);
            assert(deleted@.map_values(|n: String| n@) =~= before.map_values(|n: String| n@).push(
                p@.name,
            ));
            assert(deleted@.map_values(|n: String| n@) =~= e.pending.take(k + 1).map_values(
                |p: PendingView| p.name,
            ));
            proof {
                k = k + 1;
            }
            assert(self@.pending =~= e.pending.skip(k));
        }
        assert(deletable_count(self@) == 0);
        proof {
            lemma_trimmed(start);
        }
        deleted
    }

    /// The media playlist advertising the current window.
    pub fn playlist(&self) -> (p: MediaPlaylist)
        requires
            self@.wf(),
        ensures
            p@ == playlist_of(self@),
    {
        let n = self.segments.len();
        let mut entries: Vec<PlaylistEntry> = Vec::new();
        let mut i: usize = 0;
        while i < n
            invariant
                n == self@.segments.len(),
                i <= n,
                entries@.map_values(|e: PlaylistEntry| e@) =~= Seq::new(
                    i as nat,
                    |j: int| entry_of(self@.segments[j], j == 0),
                ),
            decreases n - i,
        {
            let seg = &self.segments[i];
            assert(seg@ == self@.segments[i as int]);
            let entry = if i == 0 {
                PlaylistEntry {
                    uri: seg.storage_name.clone(),
                    duration: seg.duration,
                    map_uri: Some(init_name_string()),
                    program_date_time: Some(seg.wall_clock_start),
                }
            } else {
                PlaylistEntry {
                    uri: seg.storage_name.clone(),
                    duration: seg.duration,
                    map_uri: None,
                    program_date_time: None,
                }
            };
            assert(entry@ == entry_of(self@.segments[i as int], i == 0));
            let ghost before = entries@;
            entries.push(entry);
            assert(entries@.map_values(|e: PlaylistEntry| e@) =~= before.map_values(
                |e: PlaylistEntry| e@,
            ).push(entry@));
            i = i + 1;
        }
        let target_duration = if n == 0 {
            0
        } else {
            let last = &self.segments[n - 1];
            assert(last@ == self@.segments.last());
            ceil_to_seconds(last.duration)
        };
        MediaPlaylist {
            version: 7,
            target_duration,
            media_sequence: self.media_sequence,
            independent_segments: true,
            end_list: false,
            segments: entries,
        }
    }

    /// Trims the window and returns the deletions due, followed by the
    /// publication of the updated media playlist.
    fn update_manifest(&mut self) -> (ops: Vec<ArtifactOp>)
        requires
            old(self)@.ready_to_trim(),
        ensures
            final(self)@.wf(),
            final(self)@ == trimmed(old(self)@).0,
            ops_view(ops@) == trimmed(old(self)@).1.map_values(|n: Seq<char>| OpView::Delete(n))
                + seq![OpView::Playlist(manifest_name(), playlist_of(final(self)@))],
    {
        let deleted = self.trim_segments();
        let ghost names = trimmed(old(self)@).1;
        let mut ops: Vec<ArtifactOp> = Vec::new();
        let mut i: usize = 0;
        while i < deleted.len()
            invariant
                i <= deleted@.len(),
                deleted@.map_values(|n: String| n@) == names,
                ops_view(ops@) =~= names.take(i as int).map_values(
                    |n: Seq<char>| OpView::Delete(n),
                ),
            decreases deleted@.len() - i,
        {
            let name = deleted[i].clone();
            assert(name@ == names[i as int]);
            let ghost before = ops@;
            let op = ArtifactOp::DeleteSegment { name };
            ops.push(op);
            assert(ops_view(ops@) =~= ops_view(before).push(op@));
            assert(names.take(i + 1) =~= names.take(i as int).push(names[i as int]));
            i = i + 1;
        }
        assert(names.take(i as int) =~= names);
        let playlist = self.playlist();
        ops.push(ArtifactOp::PublishPlaylist { name: manifest_name_string(), playlist });
        ops
    }

    /// Handles one fragment group, with the clock sample read when it arrived.
    ///
    /// A group that opens with initialisation data publishes it as `init.mp4`; a
    /// media segment is published as `NNNNN.mp4`, joins the window, and is
    /// followed by the deletions due and the updated media playlist. A group that
    /// breaks the framing rules, or whose timing cannot be placed, is refused and
    /// changes nothing.
    pub fn push_fragment_group_at(&mut self, group: Vec<FragmentBuffer>, clock: ClockSample) -> (r:
        Result<Vec<ArtifactOp>, StreamError>)
        requires
            old(self)@.wf(),
        ensures
            final(self)@.wf(),
            push_result(old(self)@, final(self)@, group@, clock, r),
    {
        let ghost g = group@;
        let mut group = group;
        if group.len() == 0 {
            return Err(StreamError::EndOfStream);
        }
        if group[0].delta_unit {
            return Err(StreamError::DeltaUnitStart);
        }
        let has_init = group[0].discont && group[0].header;
        let from: usize = if has_init {
            1
        } else {
            0
        };
        assert(media_buffers(g) =~= g.skip(from as int));
        if from == group.len() {
            let init = group.remove(0);
            self.init_written = true;
            let mut ops: Vec<ArtifactOp> = Vec::new();
            let op = ArtifactOp::PublishHeader { name: init_name_string(), contents: init.data };
            ops.push(op);
            assert(ops_view(ops@) =~= header_ops(g));
            return Ok(ops);
        }
        let first = &group[from];
        if !first.header {
            return Err(StreamError::MissingSegmentHeader);
        }
        let (pts, duration) = match (first.pts, first.duration) {
            (Some(pts), Some(duration)) => (pts, duration),
            _ => {
                return Err(StreamError::MissingTimestamp);
            },
        };
        let anchor = match self.segment_timing(pts, duration, clock) {
            Ok(anchor) => anchor,
            Err(e) => {
                return Err(e);
            },
        };
        let ghost s0 = self@;
        let contents = concat_payload(&group, from);
        let mut ops: Vec<ArtifactOp> = Vec::new();
        if has_init {
            let init = group.remove(0);
            let op = ArtifactOp::PublishHeader { name: init_name_string(), contents: init.data };
            ops.push(op);
            self.init_written = true;
        }
        assert(ops_view(ops@) =~= header_ops(g));
        let name = storage_name_for(self.next_index);
        let start = (anchor.wall_clock as i128 + (pts - anchor.pts) as i128) as i64;
        let seg_op = ArtifactOp::PublishSegment { name: name.clone(), contents };
        let ghost seg_view = seg_op@;
        ops.push(seg_op);
        assert(ops_view(ops@) =~= header_ops(g) + seq![seg_view]);
        let segment = Segment {
            index: self.next_index,
            wall_clock_start: start,
            duration,
            storage_name: name,
        };
        assert(segment@ == created_segment(s0, g, clock));
        let ghost segs = self.segments@;
        self.segments.push_back(segment);
        assert(self.segments@.map_values(|s: Segment| s@) =~= segs.map_values(|s: Segment| s@).push(
            segment@,
        ));
        self.anchor = Some(anchor);
        self.next_index = self.next_index + 1;
        assert(self@ == appended(s0, g, clock));
        proof {
            lemma_appended(s0, g, clock);
        }
        let ghost before_rest = ops@;
        let mut rest = self.update_manifest();
        let ghost rest_ops = rest@;
        ops.append(&mut rest);
        assert(ops_view(ops@) =~= ops_view(before_rest) + ops_view(rest_ops));
        assert(ops_view(ops@) =~= push_outcome(s0, g, clock).1);
        Ok(ops)
    }

    pub fn window(&self) -> (r: usize)
        ensures
            r == self@.window,
    {
        self.window
    }

    pub fn target_segment_duration(&self) -> (r: u64)
        ensures
            r == self@.target_segment_duration,
    {
        self.target_segment_duration
    }

    pub fn retention_margin(&self) -> (r: u64)
        ensures
            r == self@.retention_margin,
    {
        self.retention_margin
    }

    /// The number of segments evicted from the window so far.
    pub fn media_sequence(&self) -> (r: u64)
        ensures
            r == self@.media_sequence,
    {
        self.media_sequence
    }

    pub fn next_index(&self) -> (r: u64)
        ensures
            r == self@.next_index,
    {
        self.next_index
    }

    pub fn init_written(&self) -> (r: bool)
        ensures
            r == self@.init_written,
    {
        self.init_written
    }

    pub fn anchor(&self) -> (r: Option<Anchor>)
        ensures
            r == self@.anchor,
    {
        self.anchor
    }

    /// The number of segments in the window.
    pub fn segment_count(&self) -> (r: usize)
        ensures
            r == self@.segments.len(),
    {
        self.segments.len()
    }

    /// Segment `i` of the window, oldest first.
    pub fn segment(&self, i: usize) -> (r: &Segment)
        requires
            i < self@.segments.len(),
        ensures
            r@ == self@.segments[i as int],
    {
        &self.segments[i]
    }

    /// The number of evicted segments still waiting for deletion.
    pub fn pending_count(&self) -> (r: usize)
        ensures
            r == self@.pending.len(),
    {
        self.trimmed_segments.len()
    }

    /// Pending deletion `i`, in eviction order.
    pub fn pending_deletion(&self, i: usize) -> (r: &PendingDeletion)
        requires
            i < self@.pending.len(),
        ensures
            r@ == self@.pending[i as int],
    {
        &self.trimmed_segments[i]
    }
}

/// The state after handling `group`: the outcome if it is accepted, else the
/// state unchanged.
pub open spec fn step(s: PublisherView, group: Seq<FragmentBuffer>, clock: ClockSample) -> PublisherView {
    match push_error(s, group, clock) {
        Some(_) => s,
        None => push_outcome(s, group, clock).0,
    }
}

/// The state after handling `groups` in order, group `i` with clock sample `i`.
pub open spec fn run(
    s: PublisherView,
    groups: Seq<Seq<FragmentBuffer>>,
    clocks: Seq<ClockSample>,
) -> PublisherView
    decreases groups.len(),
{
    if groups.len() == 0 || clocks.len() < groups.len() {
        s
    } else {
        step(
            run(s, groups.drop_last(), clocks.subrange(0, groups.len() - 1)),
            groups.last(),
            clocks[groups.len() - 1],
        )
    }
}

pub open spec fn removal_times_ordered(pending: Seq<PendingView>) -> bool {
    forall|i: int, j: int|
        0 <= i <= j < pending.len() ==> (#[trigger] pending[i]).removal_time <= (#[trigger] pending[j]).removal_time
}

proof fn lemma_evicted_first(s: PublisherView, j: nat)
    requires
        s.consistent(),
        j <= s.segments.len(),
    ensures
        evicted_first(s, j).consistent(),
{
    let n = evicted_first(s, j);
    let old_len = s.pending.len() as int;
    assert forall|i: int| 0 <= i < n.segments.len() implies segment_in_place(
        #[trigger] n.segments[i],
        i,
        n.media_sequence,
        n.retention_margin,
    ) by {
        assert(n.segments[i] == s.segments[i + j]);
        assert(segment_in_place(s.segments[i + j], i + j, s.media_sequence, s.retention_margin));
    }
    assert forall|i: int| 0 <= i < n.pending.len() implies i64_range(
        (#[trigger] n.pending[i]).removal_time,
    ) && evicted_name(n.pending[i].name, n.media_sequence) by {
        if i < old_len {
            assert(n.pending[i] == s.pending[i]);
            assert(evicted_name(s.pending[i].name, s.media_sequence));
            let k = choose|k: nat| k < s.media_sequence && s.pending[i].name == #[trigger] segment_name(k);
            assert(k < n.media_sequence);
        } else {
            let seg = s.segments[i - old_len];
            assert(n.pending[i] == expiry(seg, s.retention_margin));
            assert(segment_in_place(seg, i - old_len, s.media_sequence, s.retention_margin));
            let k = seg.index;
            assert(k < n.media_sequence && n.pending[i].name == segment_name(k));
        }
    }
}

proof fn lemma_evict(s: PublisherView)
    requires
        s.consistent(),
    ensures
        evict(s).consistent(),
        evict(s).segments.len() == filled(s.segments.len(), s.window),
        evict(s).segments == s.segments.skip(eviction_count(s) as int),
        evict(s).window == s.window,
        evict(s).anchor == s.anchor,
        evict(s).next_index == s.next_index,
        s.segments.len() > 0 ==> evict(s).segments.last() == s.segments.last(),
{
    lemma_evicted_first(s, eviction_count(s));
}

proof fn lemma_expired_prefix(pending: Seq<PendingView>, cutoff: int)
    ensures
        expired_count(pending, cutoff) <= pending.len(),
        forall|i: int|
            0 <= i < expired_count(pending, cutoff) ==> (#[trigger] pending[i]).removal_time
                < cutoff,
        expired_count(pending, cutoff) < pending.len() ==> pending[expired_count(
            pending,
            cutoff,
        ) as int].removal_time >= cutoff,
    decreases pending.len(),
{
    if pending.len() > 0 && pending[0].removal_time < cutoff {
        let rest = pending.drop_first();
        lemma_expired_prefix(rest, cutoff);
        assert forall|i: int| 0 <= i < expired_count(pending, cutoff) implies (
        #[trigger] pending[i]).removal_time < cutoff by {
            if i > 0 {
                assert(pending[i] == rest[i - 1]);
            }
        }
    }
}

proof fn lemma_trimmed(s: PublisherView)
    requires
        s.ready_to_trim(),
    ensures
        trimmed(s).0.wf(),
        trimmed(s).0.segments.len() > 0,
        trimmed(s).0.segments == evict(s).segments,
        trimmed(s).0.anchor == s.anchor,
        trimmed(s).0.window == s.window,
        trimmed(s).0.next_index == s.next_index,
{
    lemma_evict(s);
    let e = evict(s);
    let d = deletable_count(e) as int;
    lemma_expired_prefix(e.pending, e.segments[0].start);
    let t = trimmed(s).0;
    assert forall|i: int| 0 <= i < t.pending.len() implies i64_range(
        (#[trigger] t.pending[i]).removal_time,
    ) && evicted_name(t.pending[i].name, t.media_sequence) by {
        assert(t.pending[i] == e.pending[i + d]);
    }
}

proof fn lemma_appended(s: PublisherView, group: Seq<FragmentBuffer>, clock: ClockSample)
    requires
        s.wf(),
        push_error(s, group, clock) is None,
        media_buffers(group).len() > 0,
    ensures
        appended(s, group, clock).ready_to_trim(),
{
    let a = appended(s, group, clock);
    assert forall|i: int| 0 <= i < a.segments.len() implies segment_in_place(
        #[trigger] a.segments[i],
        i,
        a.media_sequence,
        a.retention_margin,
    ) by {
        if i < s.segments.len() {
            assert(a.segments[i] == s.segments[i]);
        }
    }
}

/// Handling a group, accepted or not, keeps the window within its bound and the
/// media sequence equal to the number of segments that have left the window:
/// the window holds the newest segments, as many as were created up to its
/// bound, with consecutive indices, and every index handed out before them is
/// counted as evicted. The anchor, once set, stays.
pub proof fn lemma_step_keeps_window(s: PublisherView, group: Seq<FragmentBuffer>, clock: ClockSample)
    requires
        s.wf(),
    ensures
        step(s, group, clock).wf(),
        step(s, group, clock).window == s.window,
        step(s, group, clock).segments.len() == filled(step(s, group, clock).next_index, s.window),
        step(s, group, clock).media_sequence + step(s, group, clock).segments.len() == step(
            s,
            group,
            clock,
        ).next_index,
        forall|i: int|
            0 <= i < step(s, group, clock).segments.len() ==> (#[trigger] step(
                s,
                group,
                clock,
            ).segments[i]).index == step(s, group, clock).media_sequence + i,
        s.anchor is Some ==> step(s, group, clock).anchor == s.anchor,
{
    if push_error(s, group, clock) is None && media_buffers(group).len() > 0 {
        lemma_appended(s, group, clock);
        lemma_trimmed(appended(s, group, clock));
    }
    let t = step(s, group, clock);
    assert forall|i: int| 0 <= i < t.segments.len() implies (#[trigger] t.segments[i]).index
        == t.media_sequence + i by {
        assert(segment_in_place(t.segments[i], i, t.media_sequence, t.retention_margin));
    }
}

/// For every sequence of groups handled from a well-formed state (a new
/// publisher's, for one), the window never holds more than its bound: it holds
/// the newest segments created, as many as were created up to the bound, with
/// consecutive indices; and the media sequence equals the number of segments
/// ever evicted from it.
pub proof fn lemma_window_bounded(
    s: PublisherView,
    groups: Seq<Seq<FragmentBuffer>>,
    clocks: Seq<ClockSample>,
)
    requires
        s.wf(),
    ensures
        run(s, groups, clocks).wf(),
        run(s, groups, clocks).window == s.window,
        run(s, groups, clocks).segments.len() <= s.window,
        run(s, groups, clocks).segments.len() == filled(run(s, groups, clocks).next_index, s.window),
        run(s, groups, clocks).media_sequence + run(s, groups, clocks).segments.len() == run(
            s,
            groups,
            clocks,
        ).next_index,
        forall|i: int|
            0 <= i < run(s, groups, clocks).segments.len() ==> (#[trigger] run(
                s,
                groups,
                clocks,
            ).segments[i]).index == run(s, groups, clocks).media_sequence + i,
    decreases groups.len(),
{
    if groups.len() > 0 && clocks.len() >= groups.len() {
        let prev = run(s, groups.drop_last(), clocks.subrange(0, groups.len() - 1));
        lemma_window_bounded(s, groups.drop_last(), clocks.subrange(0, groups.len() - 1));
        lemma_step_keeps_window(prev, groups.last(), clocks[groups.len() - 1]);
    } else {
        assert forall|i: int| 0 <= i < s.segments.len() implies (#[trigger] s.segments[i]).index
            == s.media_sequence + i by {
            assert(segment_in_place(s.segments[i], i, s.media_sequence, s.retention_margin));
        }
    }
}

/// A pending deletion is never carried out early, and never held back once due:
/// when the window is trimmed after a segment joins it, every segment deleted
/// has a removal time before the start of the oldest segment left in the
/// window, and the first pending deletion kept has not reached that start.
/// Where the pending removal times are in order, none of those kept has reached
/// it. No file of a segment still in the window is deleted.
pub proof fn lemma_deletion_timing(s: PublisherView)
    requires
        s.ready_to_trim(),
    ensures
        ({
            let e = evict(s);
            let t = trimmed(s).0;
            let deleted = trimmed(s).1;
            let d = deletable_count(e) as int;
            &&& t.segments.len() > 0
            &&& forall|i: int|
                0 <= i < d ==> (#[trigger] e.pending[i]).removal_time < t.segments[0].start
            &&& t.pending.len() > 0 ==> t.pending[0].removal_time >= t.segments[0].start
            &&& removal_times_ordered(e.pending) ==> forall|i: int|
                0 <= i < t.pending.len() ==> (#[trigger] t.pending[i]).removal_time
                    >= t.segments[0].start
            &&& deleted == e.pending.take(d).map_values(|p: PendingView| p.name)
            &&& forall|i: int, j: int|
                0 <= i < deleted.len() && 0 <= j < t.segments.len() ==> #[trigger] deleted[i]
                    != #[trigger] t.segments[j].name
        }),
{
    lemma_evict(s);
    lemma_trimmed(s);
    let e = evict(s);
    let t = trimmed(s).0;
    let deleted = trimmed(s).1;
    let d = deletable_count(e) as int;
    let c = e.segments[0].start;
    lemma_expired_prefix(e.pending, c);
    if t.pending.len() > 0 {
        assert(t.pending[0] == e.pending[d]);
    }
    if removal_times_ordered(e.pending) {
        assert forall|i: int| 0 <= i < t.pending.len() implies (
        #[trigger] t.pending[i]).removal_time >= t.segments[0].start by {
            assert(t.pending[i] == e.pending[i + d]);
            assert(e.pending[d].removal_time <= e.pending[i + d].removal_time);
        }
    }
    assert forall|i: int, j: int| 0 <= i < deleted.len() && 0 <= j < t.segments.len() implies
        #[trigger] deleted[i] != #[trigger] t.segments[j].name by {
        assert(deleted[i] == e.pending[i].name);
        assert(evicted_name(e.pending[i].name, e.media_sequence));
        let k = choose|k: nat| k < e.media_sequence && e.pending[i].name == #[trigger] segment_name(k);
        assert(segment_in_place(e.segments[j], j, e.media_sequence, e.retention_margin));
        if deleted[i] == t.segments[j].name {
            lemma_segment_name_injective(k, (e.media_sequence + j) as nat);
        }
    }
}

/// Segment start times follow presentation timestamps: of two media groups
/// accepted one after the other, the one stamped no earlier starts no earlier
/// on the wall clock.
pub proof fn lemma_wall_clock_monotone(
    s: PublisherView,
    g1: Seq<FragmentBuffer>,
    c1: ClockSample,
    g2: Seq<FragmentBuffer>,
    c2: ClockSample,
)
    requires
        s.wf(),
        push_error(s, g1, c1) is None,
        media_buffers(g1).len() > 0,
        push_error(push_outcome(s, g1, c1).0, g2, c2) is None,
        media_buffers(g2).len() > 0,
        media_buffers(g1)[0].pts->0 <= media_buffers(g2)[0].pts->0,
    ensures
        created_segment(s, g1, c1).start <= created_segment(push_outcome(s, g1, c1).0, g2, c2).start,
{
    lemma_appended(s, g1, c1);
    lemma_trimmed(appended(s, g1, c1));
}

} // verus!
