use yatta::content_type::content_type_for;
use yatta::encoders::{encoder_search_order, starts_with};
use yatta::master::{AudioStream, MasterPlaylistCoordinator, VideoCodec, VideoStream};

fn video(name: &str, bitrate: u64, width: u64, height: u64) -> VideoStream {
    VideoStream {
        name: name.to_string(),
        codec: VideoCodec::H264,
        bitrate,
        level: "4.0".to_string(),
        width,
        height,
    }
}

fn coordinator() -> MasterPlaylistCoordinator {
    MasterPlaylistCoordinator::new(
        vec![video("h264_1", 6_000_000, 1920, 1080), video("av1_0", 1_024_000, 256, 144)],
        vec![AudioStream { name: "audio_0".to_string(), lang: "en".to_string(), default: true }],
    )
}

#[test]
fn master_playlist_is_due_once_all_renditions_report() {
    let mut c = coordinator();
    assert!(!c.report_codec("h264_1".to_string(), "avc1.640028".to_string()));
    assert!(!c.report_codec("audio_0".to_string(), "mp4a.40.2".to_string()));
    assert!(c.report_codec("av1_0".to_string(), "av01.0.00M.08".to_string()));
    c.mark_written();
    assert!(c.written());
    // reports after the write are recorded but make nothing due
    assert!(!c.report_codec("av1_0".to_string(), "av01.0.01M.08".to_string()));
    assert!(!c.report_codec("extra".to_string(), "x".to_string()));
    assert_eq!(c.codec_for(&"av1_0".to_string()), Some("av01.0.01M.08".to_string()));
}

#[test]
fn reporting_the_same_rendition_twice_does_not_count_twice() {
    let mut c = coordinator();
    assert!(!c.report_codec("h264_1".to_string(), "avc1.640028".to_string()));
    assert!(!c.report_codec("h264_1".to_string(), "avc1.640028".to_string()));
    assert!(!c.report_codec("h264_1".to_string(), "avc1.64002a".to_string()));
    assert_eq!(c.reported_count(), 1);
    assert_eq!(c.codec_for(&"h264_1".to_string()), Some("avc1.64002a".to_string()));
    assert_eq!(c.codec_for(&"av1_0".to_string()), None);
    assert!(!c.manifest_due());
}

#[test]
fn master_playlist_lists_variants_and_audio() {
    let mut c = coordinator();
    c.report_codec("h264_1".to_string(), "avc1.640028".to_string());
    c.report_codec("audio_0".to_string(), "mp4a.40.2".to_string());
    let p = c.master_playlist();
    assert_eq!(p.version, 7);
    assert!(p.independent_segments);
    assert_eq!(p.variants.len(), 2);
    assert_eq!(p.variants[0].uri, "h264_1/manifest.m3u8");
    assert_eq!(p.variants[0].bandwidth, 6_000_000);
    assert_eq!(p.variants[0].codecs.as_deref(), Some("avc1.640028"));
    assert_eq!((p.variants[0].width, p.variants[0].height), (1920, 1080));
    assert_eq!(p.variants[0].audio, "audio");
    assert_eq!(p.variants[1].uri, "av1_0/manifest.m3u8");
    assert_eq!(p.variants[1].codecs, None);
    assert_eq!(p.alternatives.len(), 1);
    let a = &p.alternatives[0];
    assert_eq!(a.uri, "audio_0/manifest.m3u8");
    assert_eq!(a.group_id, "audio");
    assert_eq!(a.language, "en");
    assert_eq!(a.name, "audio_0");
    assert!(a.default && a.autoselect);
    assert_eq!(a.channels, "2");
}

#[test]
fn failed_write_can_be_retried_by_a_new_report() {
    let mut c = coordinator();
    c.report_codec("h264_1".to_string(), "a".to_string());
    c.report_codec("audio_0".to_string(), "b".to_string());
    assert!(c.report_codec("av1_0".to_string(), "c".to_string()));
    // the write failed: not marked, so a repeated report finds it due again
    assert!(c.report_codec("av1_0".to_string(), "c".to_string()));
}

#[test]
fn manifest_paths() {
    let v = video("h265_1", 1, 2, 3);
    assert_eq!(v.manifest_path(), "h265_1.m3u8");
    let a = AudioStream { name: "audio_0".to_string(), lang: "en".to_string(), default: false };
    assert_eq!(a.manifest_path(), "audio_0.m3u8");
}

#[test]
fn codec_names() {
    assert_eq!(VideoCodec::H264.to_string(), "h264");
    assert_eq!(VideoCodec::H265.to_string(), "h265");
    assert_eq!(VideoCodec::AV1.to_string(), "av1");
}

#[test]
fn hardware_encoders_come_first_except_for_av1() {
    let names: Vec<String> = ["x264enc", "niquadrah264enc", "vaapih264enc", "niquadrah265enc", "niquadr"]
        .iter()
        .map(|s| s.to_string())
        .collect();
    assert_eq!(encoder_search_order(&names, VideoCodec::H264), vec![1, 3, 0, 2, 4]);
    assert_eq!(encoder_search_order(&names, VideoCodec::H265), vec![1, 3, 0, 2, 4]);
    assert_eq!(encoder_search_order(&names, VideoCodec::AV1), vec![0, 1, 2, 3, 4]);
    assert_eq!(encoder_search_order(&Vec::new(), VideoCodec::H264), Vec::<usize>::new());
}

#[test]
fn starts_with_prefix() {
    assert!(starts_with("niquadrah264enc", "niquadra"));
    assert!(starts_with("abc", ""));
    assert!(!starts_with("niquad", "niquadra"));
    assert!(!starts_with("xniquadra", "niquadra"));
}

#[test]
fn mpegurl_playlists_get_the_hls_content_type() {
    assert_eq!(content_type_for("audio/x-mpegurl"), "application/x-mpegURL");
    assert_eq!(content_type_for("video/mp4"), "video/mp4");
    assert_eq!(content_type_for("audio/x-mpegURL"), "audio/x-mpegURL");
}
