//! The master playlist: rendition configuration, and the coordinator that
//! collects one codec string per rendition and makes the master playlist due
//! once every rendition has reported.

use vstd::prelude::*;

verus! {

#[derive(Clone, Copy, Debug, PartialEq, Eq, Structural)]
pub enum VideoCodec {
    H264,
    H265,
    AV1,
}

impl VideoCodec {
    /// The codec's short name: `h264`, `h265` or `av1`.
    pub fn to_string(&self) -> (r: String)
        ensures
            r@ == match self {
                VideoCodec::H264 => seq!['h', '2', '6', '4'],
                VideoCodec::H265 => seq!['h', '2', '6', '5'],
                VideoCodec::AV1 => seq!['a', 'v', '1'],
            },
    {
        proof {
            reveal_strlit("h264");
            reveal_strlit("h265");
            reveal_strlit("av1");
        }
        let r = match self {
            VideoCodec::H264 => String::from_str("h264"),
            VideoCodec::H265 => String::from_str("h265"),
            VideoCodec::AV1 => String::from_str("av1"),
        };
        assert(r@ =~= match self {
            VideoCodec::H264 => seq!['h', '2', '6', '4'],
            VideoCodec::H265 => seq!['h', '2', '6', '5'],
            VideoCodec::AV1 => seq!['a', 'v', '1'],
        });
        r
    }
}

/// A video rendition.
#[derive(Clone, Debug)]
pub struct VideoStream {
    pub name: String,
    pub codec: VideoCodec,
    pub bitrate: u64,
    pub level: String,
    pub width: u64,
    pub height: u64,
}

/// An audio rendition.
#[derive(Clone, Debug)]
pub struct AudioStream {
    pub name: String,
    pub lang: String,
    pub default: bool,
}

pub open spec fn m3u8_extension() -> Seq<char> {
    seq!['.', 'm', '3', 'u', '8']
}

fn with_m3u8_extension(name: &String) -> (r: String)
    ensures
        r@ == name@ + m3u8_extension(),
{
    proof {
        reveal_strlit(".m3u8");
    }
    let r = name.clone().concat(".m3u8");
    assert(r@ =~= name@ + m3u8_extension());
    r
}

impl VideoStream {
    /// `<name>.m3u8`
    pub fn manifest_path(&self) -> (r: String)
        ensures
            r@ == self.name@ + m3u8_extension(),
    {
        with_m3u8_extension(&self.name)
    }
}

impl AudioStream {
    /// `<name>.m3u8`
    pub fn manifest_path(&self) -> (r: String)
        ensures
            r@ == self.name@ + m3u8_extension(),
    {
        with_m3u8_extension(&self.name)
    }
}

/// One variant of the master playlist.
#[derive(Clone, Debug)]
pub struct VariantStream {
    pub uri: String,
    pub bandwidth: u64,
    pub codecs: Option<String>,
    pub width: u64,
    pub height: u64,
    pub audio: String,
}

/// One alternative audio rendition of the master playlist.
#[derive(Clone, Debug)]
pub struct AlternativeAudio {
    pub uri: String,
    pub group_id: String,
    pub language: String,
    pub name: String,
    pub default: bool,
    pub autoselect: bool,
    pub channels: String,
}

#[derive(Clone, Debug)]
pub struct MasterPlaylist {
    pub version: u64,
    pub variants: Vec<VariantStream>,
    pub alternatives: Vec<AlternativeAudio>,
    pub independent_segments: bool,
}

pub struct VariantView {
    pub uri: Seq<char>,
    pub bandwidth: nat,
    pub codecs: Option<Seq<char>>,
    pub width: nat,
    pub height: nat,
    pub audio: Seq<char>,
}

pub struct AlternativeView {
    pub uri: Seq<char>,
    pub group_id: Seq<char>,
    pub language: Seq<char>,
    pub name: Seq<char>,
    pub default: bool,
    pub autoselect: bool,
    pub channels: Seq<char>,
}

pub struct MasterView {
    pub version: nat,
    pub variants: Seq<VariantView>,
    pub alternatives: Seq<AlternativeView>,
    pub independent_segments: bool,
}

impl View for VariantStream {
    type V = VariantView;

    open spec fn view(&self) -> VariantView {
        VariantView {
            uri: self.uri@,
            bandwidth: self.bandwidth as nat,
            codecs: match self.codecs {
                Some(c) => Some(c@),
                None => None,
            },
            width: self.width as nat,
            height: self.height as nat,
            audio: self.audio@,
        }
    }
}

impl View for AlternativeAudio {
    type V = AlternativeView;

    open spec fn view(&self) -> AlternativeView {
        AlternativeView {
            uri: self.uri@,
            group_id: self.group_id@,
            language: self.language@,
            name: self.name@,
            default: self.default,
            autoselect: self.autoselect,
            channels: self.channels@,
        }
    }
}

impl View for MasterPlaylist {
    type V = MasterView;

    open spec fn view(&self) -> MasterView {
        MasterView {
            version: self.version as nat,
            variants: self.variants@.map_values(|v: VariantStream| v@),
            alternatives: self.alternatives@.map_values(|a: AlternativeAudio| a@),
            independent_segments: self.independent_segments,
        }
    }
}

/// The group id that every variant refers to for its audio.
pub open spec fn audio_group_id() -> Seq<char> {
    seq!['a', 'u', 'd', 'i', 'o']
}

/// `<rendition>/manifest.m3u8`
pub open spec fn rendition_manifest_uri(name: Seq<char>) -> Seq<char> {
    name + seq!['/', 'm', 'a', 'n', 'i', 'f', 'e', 's', 't', '.', 'm', '3', 'u', '8']
}

/// The codec string reported for `name`, if any.
pub open spec fn codec_of(codecs: Seq<(Seq<char>, Seq<char>)>, name: Seq<char>) -> Option<
    Seq<char>,
> {
    if exists|i: int| 0 <= i < codecs.len() && (#[trigger] codecs[i]).0 == name {
        Some(codecs[choose|i: int| 0 <= i < codecs.len() && (#[trigger] codecs[i]).0 == name].1)
    } else {
        None
    }
}

pub open spec fn unique_names(codecs: Seq<(Seq<char>, Seq<char>)>) -> bool {
    forall|i: int, j: int|
        0 <= i < j < codecs.len() ==> (#[trigger] codecs[i]).0 != (#[trigger] codecs[j]).0
}

/// The reports after `name` reported `codec`: a new entry, or the rendition's
/// earlier report replaced.
pub open spec fn reported(
    codecs: Seq<(Seq<char>, Seq<char>)>,
    name: Seq<char>,
    codec: Seq<char>,
) -> Seq<(Seq<char>, Seq<char>)> {
    if exists|i: int| 0 <= i < codecs.len() && (#[trigger] codecs[i]).0 == name {
        codecs.update(
            choose|i: int| 0 <= i < codecs.len() && (#[trigger] codecs[i]).0 == name,
            (name, codec),
        )
    } else {
        codecs.push((name, codec))
    }
}

/// The abstract state of a `MasterPlaylistCoordinator`.
pub struct CoordinatorView {
    pub video_streams: Seq<VideoStream>,
    pub audio_streams: Seq<AudioStream>,
    pub codecs: Seq<(Seq<char>, Seq<char>)>,
    pub written: bool,
}

impl CoordinatorView {
    pub open spec fn wf(self) -> bool {
        unique_names(self.codecs)
    }

    pub open spec fn expected_count(self) -> nat {
        self.video_streams.len() + self.audio_streams.len()
    }

    /// The master playlist is to be written now: not written yet, and as many
    /// renditions have reported as are expected.
    pub open spec fn manifest_due(self) -> bool {
        !self.written && self.codecs.len() == self.expected_count()
    }

    pub open spec fn report(self, name: Seq<char>, codec: Seq<char>) -> CoordinatorView {
        CoordinatorView { codecs: reported(self.codecs, name, codec), ..self }
    }
}

pub open spec fn variant_of(v: VideoStream, codecs: Seq<(Seq<char>, Seq<char>)>) -> VariantView {
    VariantView {
        uri: rendition_manifest_uri(v.name@),
        bandwidth: v.bitrate as nat,
        codecs: codec_of(codecs, v.name@),
        width: v.width as nat,
        height: v.height as nat,
        audio: audio_group_id(),
    }
}

pub open spec fn alternative_of(a: AudioStream) -> AlternativeView {
    AlternativeView {
        uri: rendition_manifest_uri(a.name@),
        group_id: audio_group_id(),
        language: a.lang@,
        name: a.name@,
        default: a.default,
        autoselect: a.default,
        channels: seq!['2'],
    }
}

/// The master playlist: a variant per video rendition, in order, and an
/// alternative audio rendition per audio rendition, in order.
pub open spec fn master_playlist_of(c: CoordinatorView) -> MasterView {
    MasterView {
        version: 7,
        variants: Seq::new(c.video_streams.len(), |i: int| variant_of(c.video_streams[i], c.codecs)),
        alternatives: Seq::new(c.audio_streams.len(), |i: int| alternative_of(c.audio_streams[i])),
        independent_segments: true,
    }
}

proof fn lemma_unique_index(codecs: Seq<(Seq<char>, Seq<char>)>, name: Seq<char>, i: int)
    requires
        unique_names(codecs),
        0 <= i < codecs.len(),
        codecs[i].0 == name,
    ensures
        (choose|j: int| 0 <= j < codecs.len() && (#[trigger] codecs[j]).0 == name) == i,
        codec_of(codecs, name) == Some(codecs[i].1),
{
    let j = choose|j: int| 0 <= j < codecs.len() && (#[trigger] codecs[j]).0 == name;
    if j < i {
        assert(codecs[j].0 != codecs[i].0);
    } else if i < j {
        assert(codecs[i].0 != codecs[j].0);
    }
}

fn manifest_uri_for(name: &String) -> (r: String)
    ensures
        r@ == rendition_manifest_uri(name@),
{
    proof {
        reveal_strlit("/manifest.m3u8");
    }
    let r = name.clone().concat("/manifest.m3u8");
    assert(r@ =~= rendition_manifest_uri(name@));
    r
}

fn audio_group_string() -> (r: String)
    ensures
        r@ == audio_group_id(),
{
    proof {
        reveal_strlit("audio");
    }
    let r = String::from_str("audio");
    assert(r@ =~= audio_group_id());
    r
}

fn stereo_channels_string() -> (r: String)
    ensures
        r@ == seq!['2'],
{
    proof {
        reveal_strlit("2");
    }
    let r = String::from_str("2");
    assert(r@ =~= seq!['2']);
    r
}

/// Collects the codec string of every rendition, and says when the master
/// playlist is due.
pub struct MasterPlaylistCoordinator {
    video_streams: Vec<VideoStream>,
    audio_streams: Vec<AudioStream>,
    codecs: Vec<(String, String)>,
    written: bool,
}

impl View for MasterPlaylistCoordinator {
    type V = CoordinatorView;

    closed spec fn view(&self) -> CoordinatorView {
        CoordinatorView {
            video_streams: self.video_streams@,
            audio_streams: self.audio_streams@,
            codecs: self.codecs@.map_values(|p: (String, String)| (p.0@, p.1@)),
            written: self.written,
        }
    }
}

impl MasterPlaylistCoordinator {
    pub fn new(video_streams: Vec<VideoStream>, audio_streams: Vec<AudioStream>) -> (r: Self)
        ensures
            r@.wf(),
            r@ == (CoordinatorView {
                video_streams: video_streams@,
                audio_streams: audio_streams@,
                codecs: Seq::empty(),
                written: false,
            }),
    {
        let r = MasterPlaylistCoordinator {
            video_streams,
            audio_streams,
            codecs: Vec::new(),
            written: false,
        };
        assert(r@.codecs =~= Seq::empty());
        r
    }

    /// The position of the report of `name`, if it has reported.
    fn find_report(&self, name: &String) -> (r: Option<usize>)
        requires
            self@.wf(),
        ensures
            match r {
                Some(i) => i < self@.codecs.len() && self@.codecs[i as int].0 == name@
                    && i == choose|j: int|
                    0 <= j < self@.codecs.len() && (#[trigger] self@.codecs[j]).0 == name@,
                None => !exists|j: int|
                    0 <= j < self@.codecs.len() && (#[trigger] self@.codecs[j]).0 == name@,
            },
    {
        let mut i: usize = 0;
        while i < self.codecs.len()
            invariant
                self@.wf(),
                i <= self@.codecs.len(),
                self@.codecs.len() == self.codecs@.len(),
                forall|j: int| 0 <= j < i ==> (#[trigger] self@.codecs[j]).0 != name@,
            decreases self.codecs@.len() - i,
        {
            assert(self@.codecs[i as int].0 == self.codecs@[i as int].0@);
            if self.codecs[i].0 == *name {
                proof {
                    lemma_unique_index(self@.codecs, name@, i as int);
                }
                return Some(i);
            }
            i = i + 1;
        }
        None
    }

    /// The codec string reported for `name`, if any.
    pub fn codec_for(&self, name: &String) -> (r: Option<String>)
        requires
            self@.wf(),
        ensures
            match r {
                Some(c) => codec_of(self@.codecs, name@) == Some(c@),
                None => codec_of(self@.codecs, name@) is None,
            },
    {
        match self.find_report(name) {
            Some(i) => {
                proof {
                    lemma_unique_index(self@.codecs, name@, i as int);
                }
                Some(self.codecs[i].1.clone())
            },
            None => None,
        }
    }

    /// Records the codec string of rendition `name`, replacing an earlier report
    /// of it, and returns whether the master playlist is now due.
    pub fn report_codec(&mut self, name: String, codec: String) -> (due: bool)
        requires
            old(self)@.wf(),
        ensures
            final(self)@.wf(),
            final(self)@ == old(self)@.report(name@, codec@),
            due == final(self)@.manifest_due(),
    {
        let ghost old_codecs = self@.codecs;
        let ghost entry = (name@, codec@);
        match self.find_report(&name) {
            Some(i) => {
                self.codecs.set(i, (name, codec));
                assert(self@.codecs =~= old_codecs.update(i as int, entry));
            },
            None => {
                self.codecs.push((name, codec));
                assert(self@.codecs =~= old_codecs.push(entry));
            },
        }
        assert(unique_names(self@.codecs)) by {
            assert forall|i: int, j: int| 0 <= i < j < self@.codecs.len() implies (
            #[trigger] self@.codecs[i]).0 != (#[trigger] self@.codecs[j]).0 by {
                if i < old_codecs.len() && j < old_codecs.len() {
                    if self@.codecs[i] != old_codecs[i] {
                        assert(old_codecs[i].0 == entry.0);
                        assert(old_codecs[j].0 != old_codecs[i].0);
                    } else if self@.codecs[j] != old_codecs[j] {
                        assert(old_codecs[j].0 == entry.0);
                        assert(old_codecs[j].0 != old_codecs[i].0);
                    }
                } else {
                    assert(old_codecs[i].0 != entry.0);
                }
            }
        }
        self.manifest_due()
    }

    /// Whether the master playlist is to be written now.
    pub fn manifest_due(&self) -> (r: bool)
        ensures
            r == self@.manifest_due(),
    {
        let reported = self.codecs.len();
        !self.written && reported >= self.video_streams.len() && reported
            - self.video_streams.len() == self.audio_streams.len()
    }

    /// Records that the master playlist has been written.
    pub fn mark_written(&mut self)
        ensures
            final(self)@ == (CoordinatorView { written: true, ..old(self)@ }),
    {
        self.written = true;
    }

    pub fn written(&self) -> (r: bool)
        ensures
            r == self@.written,
    {
        self.written
    }

    /// The number of renditions that have reported.
    pub fn reported_count(&self) -> (r: usize)
        ensures
            r == self@.codecs.len(),
    {
        self.codecs.len()
    }

    /// The master playlist for the current reports.
    pub fn master_playlist(&self) -> (r: MasterPlaylist)
        requires
            self@.wf(),
        ensures
            r@ == master_playlist_of(self@),
    {
        let mut variants: Vec<VariantStream> = Vec::new();
        let mut i: usize = 0;
        while i < self.video_streams.len()
            invariant
                self@.wf(),
                i <= self@.video_streams.len(),
                variants@.map_values(|v: VariantStream| v@) =~= Seq::new(
                    i as nat,
                    |j: int| variant_of(self@.video_streams[j], self@.codecs),
                ),
            decreases self@.video_streams.len() - i,
        {
            let stream = &self.video_streams[i];
            let uri = manifest_uri_for(&stream.name);
            let audio = audio_group_string();
            let variant = VariantStream {
                uri,
                bandwidth: stream.bitrate,
                codecs: self.codec_for(&stream.name),
                width: stream.width,
                height: stream.height,
                audio,
            };
            assert(variant@.uri =~= rendition_manifest_uri(stream.name@));
            assert(variant@.audio =~= audio_group_id());
            assert(variant@ == variant_of(self@.video_streams[i as int], self@.codecs));
            let ghost before = variants@;
            variants.push(variant);
            assert(variants@.map_values(|v: VariantStream| v@) =~= before.map_values(
                |v: VariantStream| v@,
            ).push(variant@));
            i = i + 1;
        }
        let mut alternatives: Vec<AlternativeAudio> = Vec::new();
        let mut i: usize = 0;
        while i < self.audio_streams.len()
            invariant
                i <= self@.audio_streams.len(),
                alternatives@.map_values(|a: AlternativeAudio| a@) =~= Seq::new(
                    i as nat,
                    |j: int| alternative_of(self@.audio_streams[j]),
                ),
            decreases self@.audio_streams.len() - i,
        {
            let stream = &self.audio_streams[i];
            let alternative = AlternativeAudio {
                uri: manifest_uri_for(&stream.name),
                group_id: audio_group_string(),
                language: stream.lang.clone(),
                name: stream.name.clone(),
                default: stream.default,
                autoselect: stream.default,
                channels: stereo_channels_string(),
            };
            assert(alternative@.uri =~= rendition_manifest_uri(stream.name@));
            assert(alternative@.group_id =~= audio_group_id());
            assert(alternative@.channels =~= seq!['2']);
            assert(alternative@ == alternative_of(self@.audio_streams[i as int]));
            let ghost before = alternatives@;
            alternatives.push(alternative);
            assert(alternatives@.map_values(|a: AlternativeAudio| a@) =~= before.map_values(
                |a: AlternativeAudio| a@,
            ).push(alternative@));
            i = i + 1;
        }
        MasterPlaylist { version: 7, variants, alternatives, independent_segments: true }
    }
}

/// The master playlist is written at most once: once written, no report makes
/// it due again. A rendition that reports a second time replaces its codec
/// string without adding to the count, so a second report of the same rendition
/// does not make the playlist due where the first did not.
pub proof fn lemma_master_written_once(
    c: CoordinatorView,
    name: Seq<char>,
    codec: Seq<char>,
    codec_again: Seq<char>,
)
    requires
        c.wf(),
    ensures
        c.written ==> !c.report(name, codec).manifest_due(),
        c.report(name, codec).report(name, codec_again).codecs.len() == c.report(
            name,
            codec,
        ).codecs.len(),
        !c.report(name, codec).manifest_due() ==> !c.report(name, codec).report(
            name,
            codec_again,
        ).manifest_due(),
        codec_of(c.report(name, codec).codecs, name) == Some(codec),
{
    lemma_report(c, name, codec);
    let r1 = reported(c.codecs, name, codec);
    if exists|i: int| 0 <= i < c.codecs.len() && (#[trigger] c.codecs[i]).0 == name {
        let i = choose|i: int| 0 <= i < c.codecs.len() && (#[trigger] c.codecs[i]).0 == name;
        assert(r1[i].0 == name);
        lemma_unique_index(r1, name, i);
    } else {
        let i = c.codecs.len() as int;
        assert(r1[i].0 == name);
        lemma_unique_index(r1, name, i);
    }
}

proof fn lemma_report(c: CoordinatorView, name: Seq<char>, codec: Seq<char>)
    requires
        c.wf(),
    ensures
        c.report(name, codec).wf(),
        c.report(name, codec).expected_count() == c.expected_count(),
        c.report(name, codec).written == c.written,
        c.report(name, codec).codecs.len() == c.codecs.len() || c.report(name, codec).codecs.len()
            == c.codecs.len() + 1,
{
    let r1 = reported(c.codecs, name, codec);
    if exists|i: int| 0 <= i < c.codecs.len() && (#[trigger] c.codecs[i]).0 == name {
        let i = choose|i: int| 0 <= i < c.codecs.len() && (#[trigger] c.codecs[i]).0 == name;
        assert forall|a: int, b: int| 0 <= a < b < r1.len() implies (#[trigger] r1[a]).0
            != (#[trigger] r1[b]).0 by {
            assert(c.codecs[a].0 != c.codecs[b].0);
        }
    } else {
        assert forall|a: int, b: int| 0 <= a < b < r1.len() implies (#[trigger] r1[a]).0
            != (#[trigger] r1[b]).0 by {
            if b < c.codecs.len() {
                assert(c.codecs[a].0 != c.codecs[b].0);
            } else {
                assert(r1[a] == c.codecs[a]);
            }
        }
    }
}

/// A report of `codec` by `name`, followed by the master playlist's write
/// where the report makes it due.
pub open spec fn report_and_write(c: CoordinatorView, name: Seq<char>, codec: Seq<char>) -> CoordinatorView {
    let r = c.report(name, codec);
    if r.manifest_due() {
        CoordinatorView { written: true, ..r }
    } else {
        r
    }
}

/// The state after the reports `(name, codec)` in order.
pub open spec fn after_reports(c: CoordinatorView, reports: Seq<(Seq<char>, Seq<char>)>) -> CoordinatorView
    decreases reports.len(),
{
    if reports.len() == 0 {
        c
    } else {
        report_and_write(after_reports(c, reports.drop_last()), reports.last().0, reports.last().1)
    }
}

/// The number of master playlist writes during the reports.
pub open spec fn writes_during(c: CoordinatorView, reports: Seq<(Seq<char>, Seq<char>)>) -> nat
    decreases reports.len(),
{
    if reports.len() == 0 {
        0
    } else {
        let prev = after_reports(c, reports.drop_last());
        writes_during(c, reports.drop_last()) + if prev.report(
            reports.last().0,
            reports.last().1,
        ).manifest_due() {
            1nat
        } else {
            0nat
        }
    }
}

/// Over any sequence of reports, names repeated or not, from a coordinator that
/// has not written and awaits renditions, the master playlist is written at
/// most once; it is written exactly when the renditions that reported reach the
/// expected count, and the coordinator is marked written exactly then.
pub proof fn lemma_master_written_exactly_once(
    c: CoordinatorView,
    reports: Seq<(Seq<char>, Seq<char>)>,
)
    requires
        c.wf(),
        !c.written,
        c.codecs.len() < c.expected_count(),
    ensures
        after_reports(c, reports).wf(),
        after_reports(c, reports).expected_count() == c.expected_count(),
        writes_during(c, reports) <= 1,
        after_reports(c, reports).written <==> writes_during(c, reports) == 1,
        writes_during(c, reports) == 1 <==> after_reports(c, reports).codecs.len()
            >= c.expected_count(),
    decreases reports.len(),
{
    if reports.len() > 0 {
        let rest = reports.drop_last();
        lemma_master_written_exactly_once(c, rest);
        let prev = after_reports(c, rest);
        lemma_report(prev, reports.last().0, reports.last().1);
    }
}

} // verus!
