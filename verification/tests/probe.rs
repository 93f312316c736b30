use wallcraft::layout::Platform;
use wallcraft::probe::{image_metadata, probe_metadata, ProbeFormat, ProbeStream};

fn stream(kind: &str, codec: Option<&str>) -> ProbeStream {
    ProbeStream {
        codec_type: Some(kind.to_string()),
        codec_name: codec.map(|c| c.to_string()),
        pix_fmt: None,
        width: None,
        height: None,
        avg_frame_rate: None,
        r_frame_rate: None,
        sample_rate: None,
        channels: None,
    }
}

fn format(name: Option<&str>) -> ProbeFormat {
    ProbeFormat {
        format_name: name.map(|n| n.to_string()),
        duration_text: None,
        duration_number: None,
        bit_rate_text: None,
        bit_rate_number: None,
    }
}

#[test]
fn full_video_report() {
    let mut f = format(Some("mov,mp4,m4a"));
    f.duration_text = Some(Some(12.5f64.to_bits()));
    f.bit_rate_text = Some("1500000".to_string());
    let mut v = stream("video", Some("h264"));
    v.pix_fmt = Some("yuv420p".to_string());
    v.width = Some(1920);
    v.height = Some(1080);
    v.avg_frame_rate = Some(Some(30.0f64.to_bits()));
    let mut a = stream("audio", Some("aac"));
    a.sample_rate = Some("48000".to_string());
    a.channels = Some(2);
    let m = probe_metadata(&Some(f), &vec![v, a]).unwrap();
    assert_eq!(m.format_name.as_deref(), Some("mov,mp4,m4a"));
    assert_eq!(m.duration_sec_bits, Some(12.5f64.to_bits()));
    assert_eq!(m.bit_rate, Some(1500000));
    assert_eq!(m.video_codec.as_deref(), Some("h264"));
    assert_eq!(m.pix_fmt.as_deref(), Some("yuv420p"));
    assert_eq!(m.width, Some(1920));
    assert_eq!(m.height, Some(1080));
    assert_eq!(m.fps_bits, Some(30.0f64.to_bits()));
    assert_eq!(m.audio_codec.as_deref(), Some("aac"));
    assert_eq!(m.sample_rate, Some(48000));
    assert_eq!(m.channels, Some(2));
}

#[test]
fn empty_report_gives_nothing() {
    assert!(probe_metadata(&None, &vec![]).is_none());
    assert!(probe_metadata(&Some(format(Some("   "))), &vec![]).is_none());
}

#[test]
fn first_video_stream_with_a_codec_wins() {
    let mut first = stream("video", Some("vp9"));
    first.width = Some(640);
    let mut second = stream("video", Some("h264"));
    second.width = Some(1280);
    let m = probe_metadata(&None, &vec![first, second]).unwrap();
    assert_eq!(m.video_codec.as_deref(), Some("vp9"));
    assert_eq!(m.width, Some(640));
}

#[test]
fn video_stream_without_codec_is_overwritten() {
    let mut first = stream("video", None);
    first.width = Some(640);
    first.r_frame_rate = Some(Some(25.0f64.to_bits()));
    let mut second = stream("video", Some("h264"));
    second.width = Some(1280);
    let m = probe_metadata(&None, &vec![first, second]).unwrap();
    assert_eq!(m.video_codec.as_deref(), Some("h264"));
    assert_eq!(m.width, Some(1280));
    // the second stream names no rate, so the first one's stays
    assert_eq!(m.fps_bits, Some(25.0f64.to_bits()));
}

#[test]
fn unreadable_numbers_are_dropped() {
    let mut f = format(None);
    f.bit_rate_text = Some("fast".to_string());
    f.duration_number = Some(3.0f64.to_bits());
    let mut a = stream("audio", Some("opus"));
    a.sample_rate = Some("5000000000".to_string());
    let m = probe_metadata(&Some(f), &vec![a]).unwrap();
    assert_eq!(m.bit_rate, None);
    assert_eq!(m.duration_sec_bits, Some(3.0f64.to_bits()));
    assert_eq!(m.sample_rate, None);
    assert_eq!(m.audio_codec.as_deref(), Some("opus"));
}

#[test]
fn bit_rate_number_and_wide_dimensions() {
    let mut f = format(None);
    f.bit_rate_number = Some(64000);
    let mut v = stream("video", Some("hevc"));
    v.width = Some(4294967297);
    let m = probe_metadata(&Some(f), &vec![v]).unwrap();
    assert_eq!(m.bit_rate, Some(64000));
    assert_eq!(m.width, Some(1));
}

#[test]
fn other_streams_are_ignored() {
    let s = stream("subtitle", Some("mov_text"));
    assert!(probe_metadata(&None, &vec![s]).is_none());
}

#[test]
fn image_metadata_from_dimensions_and_extension() {
    let m = image_metadata(Some((800, 600)), "/data/wallpapers/Sunset.JPG", Platform::Linux).unwrap();
    assert_eq!(m.width, Some(800));
    assert_eq!(m.height, Some(600));
    assert_eq!(m.format_name.as_deref(), Some("jpg"));
    let m = image_metadata(None, "/data/wallpapers/a.png", Platform::Linux).unwrap();
    assert_eq!(m.width, None);
    assert_eq!(m.format_name.as_deref(), Some("png"));
    let m = image_metadata(Some((1, 2)), "/data/noext", Platform::Linux).unwrap();
    assert_eq!(m.format_name, None);
    assert!(image_metadata(None, "/data/noext", Platform::Linux).is_none());
}
