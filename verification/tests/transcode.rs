use wallcraft::models::{Settings, VideoWallpaperSettings};
use wallcraft::layout::Platform;
use wallcraft::transcode::{
    detail_play_args, detail_play_tmp_path, ffmpeg_failure_message, get_cached_video_path,
    normalize_opt_u32, normalize_opt_u8, plan_video_wallpaper_source, preview_args,
    preview_tmp_path, transcode_args, video_filter_text, video_limits, TranscodePlan, VideoLimits,
};

fn no_limits() -> Settings {
    let mut s = Settings::default();
    s.video_wallpaper = VideoWallpaperSettings {
        max_width: Some(0),
        max_height: None,
        fps: Some(0),
        crf: Some(0),
        bitrate_kbps: None,
        hwdec: true,
    };
    s
}

#[test]
fn zero_means_no_limit() {
    assert_eq!(normalize_opt_u32(Some(0)), None);
    assert_eq!(normalize_opt_u32(Some(7)), Some(7));
    assert_eq!(normalize_opt_u32(None), None);
    assert_eq!(normalize_opt_u8(Some(0)), None);
    assert_eq!(normalize_opt_u8(Some(23)), Some(23));
}

#[test]
fn cached_path_for_default_settings() {
    let s = Settings::default();
    assert_eq!(
        get_cached_video_path("/d", "/home/u/v.mkv", &s, None, Platform::Linux),
        Some("/d/cache/video_wallpaper/d289c776-f32e-5876-9526-572866a2ac81.mp4".to_string())
    );
}

#[test]
fn no_transcoding_without_limits_or_foreign_codec() {
    let s = no_limits();
    assert_eq!(get_cached_video_path("/d", "/v/a.mp4", &s, None, Platform::Linux), None);
    assert_eq!(get_cached_video_path("/d", "/v/a.mp4", &s, Some(" H264 "), Platform::Linux), None);
    assert_eq!(get_cached_video_path("/d", "/v/a.mp4", &s, Some("   "), Platform::Linux), None);
    assert!(get_cached_video_path("/d", "/v/a.mp4", &s, Some("hevc"), Platform::Linux).is_some());
    // A codec only counts for a video file.
    assert_eq!(get_cached_video_path("/d", "/v/a.png", &s, Some("hevc"), Platform::Linux), None);
}

#[test]
fn transcoding_plan() {
    let s = no_limits();
    assert!(matches!(plan_video_wallpaper_source("/d", "/v/a.mp4", &s, None, Platform::Linux), TranscodePlan::UseSource));
    match plan_video_wallpaper_source("/d", "/v/a.webm", &s, Some("vp9"), Platform::Linux) {
        TranscodePlan::Transcode { out, tmp, args } => {
            assert!(out.starts_with("/d/cache/video_wallpaper/"));
            assert!(out.ends_with(".mp4"));
            assert_eq!(tmp, format!("{}.tmp.mp4", &out[..out.len() - 4]));
            assert_eq!(args.last().unwrap(), &tmp);
            assert!(args.contains(&"-crf".to_string()));
            assert!(!args.contains(&"-vf".to_string()));
        }
        TranscodePlan::UseSource => panic!("expected a transcoding plan"),
    }
}

#[test]
fn filter_text() {
    let l = video_limits(&Settings::default());
    assert_eq!(
        video_filter_text(&l),
        Some("scale=w='min(iw,2560)':h='min(ih,1440)':force_original_aspect_ratio=decrease,fps=30".to_string())
    );
    let only_h = VideoLimits { max_width: None, max_height: Some(720), fps: None, crf: None, bitrate_kbps: None };
    assert_eq!(
        video_filter_text(&only_h),
        Some("scale=w='min(iw,iw)':h='min(ih,720)':force_original_aspect_ratio=decrease".to_string())
    );
    let only_fps = VideoLimits { max_width: None, max_height: None, fps: Some(24), crf: None, bitrate_kbps: None };
    assert_eq!(video_filter_text(&only_fps), Some("fps=24".to_string()));
    let none = VideoLimits { max_width: None, max_height: None, fps: None, crf: None, bitrate_kbps: None };
    assert_eq!(video_filter_text(&none), None);
}

#[test]
fn transcode_arguments_with_quality() {
    let l = video_limits(&Settings::default());
    let args = transcode_args("in.mkv", "out.tmp.mp4", &l);
    let expected: Vec<&str> = vec![
        "-y", "-i", "in.mkv", "-an", "-c:v", "libx264", "-preset", "ultrafast", "-tune", "fastdecode",
        "-crf", "23", "-f", "mp4", "-pix_fmt", "yuv420p", "-movflags", "+faststart", "-vf",
        "scale=w='min(iw,2560)':h='min(ih,1440)':force_original_aspect_ratio=decrease,fps=30",
        "out.tmp.mp4",
    ];
    assert_eq!(args, expected);
}

#[test]
fn transcode_arguments_with_bitrate() {
    let l = VideoLimits { max_width: None, max_height: None, fps: None, crf: Some(30), bitrate_kbps: Some(4000) };
    let args = transcode_args("in", "out", &l);
    let expected: Vec<&str> = vec![
        "-y", "-i", "in", "-an", "-c:v", "libx264", "-preset", "ultrafast", "-tune", "fastdecode",
        "-b:v", "4000k", "-maxrate", "4000k", "-bufsize", "8000k", "-f", "mp4", "-pix_fmt",
        "yuv420p", "-movflags", "+faststart", "out",
    ];
    assert_eq!(args, expected);
    let huge = VideoLimits { bitrate_kbps: Some(u32::MAX - 1), ..l };
    let args = transcode_args("in", "out", &huge);
    assert_eq!(args[15], format!("{}k", u32::MAX));
}

#[test]
fn quality_defaults_to_23() {
    let l = VideoLimits { max_width: None, max_height: None, fps: Some(5), crf: None, bitrate_kbps: None };
    let args = transcode_args("in", "out", &l);
    assert_eq!(args[10], "-crf");
    assert_eq!(args[11], "23");
}

#[test]
fn preview_and_detail_arguments() {
    let d = detail_play_args("src.mp4", "p.tmp.webm");
    assert_eq!(d.len(), 23);
    assert_eq!(d[7], "libvpx");
    assert_eq!(d[22], "p.tmp.webm");
    assert_eq!(preview_args("src.mp4", "p.tmp.webm", Platform::Linux), d);
    let w = preview_args("src.mp4", "p.tmp.mp4", Platform::Windows);
    assert_eq!(w.len(), 25);
    assert_eq!(w[7], "libx264");
    assert_eq!(w[23], "mp4");
    assert_eq!(w[24], "p.tmp.mp4");
}

#[test]
fn temporary_files() {
    assert_eq!(preview_tmp_path("/d/previews/a.b.mp4", Platform::Windows), "/d/previews/a.b.tmp.mp4");
    assert_eq!(preview_tmp_path("/d/previews/x.webm", Platform::Linux), "/d/previews/x.tmp.webm");
    assert_eq!(detail_play_tmp_path("/d/plays/x.webm"), "/d/plays/x.tmp.webm");
}

#[test]
fn failure_messages() {
    assert_eq!(ffmpeg_failure_message("exit status: 1", "  bad input \n", "out"), "status=exit status: 1 detail=bad input");
    assert_eq!(ffmpeg_failure_message("s", " ", " out "), "status=s detail=out");
    assert_eq!(ffmpeg_failure_message("s", "", ""), "status=s detail=ffmpeg failed without output");
}
