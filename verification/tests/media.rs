use wallcraft::layout::Platform;
use wallcraft::media::{guess_mime, is_supported_media_path, is_video_path, media_kind_of, video_mime, MediaKind};

#[test]
fn videos_are_told_by_extension() {
    assert!(is_video_path("/w/clip.mp4", Platform::Linux));
    assert!(is_video_path("/w/clip.MKV", Platform::Linux));
    assert!(is_video_path("C:/w/clip.M4v", Platform::Linux));
    assert!(!is_video_path("/w/clip.jpg", Platform::Linux));
    assert!(!is_video_path("/w/mp4", Platform::Linux));
    assert!(!is_video_path("/w/.mp4", Platform::Linux));
    assert!(!is_video_path("", Platform::Linux));
}

#[test]
fn supported_media() {
    assert!(is_supported_media_path("/w/a.JPEG", Platform::Linux));
    assert!(is_supported_media_path("/w/a.webm", Platform::Linux));
    assert!(!is_supported_media_path("/w/a.lnk", Platform::Linux));
    assert!(!is_supported_media_path("/w/a.LnK", Platform::Linux));
    assert!(!is_supported_media_path("/w/a.txt", Platform::Linux));
    assert!(!is_supported_media_path("/w/noext", Platform::Linux));
}

#[test]
fn media_kinds() {
    assert_eq!(media_kind_of("/a/b.svg", Platform::Linux), Some(MediaKind::Image));
    assert_eq!(media_kind_of("/a/b.FLV", Platform::Linux), Some(MediaKind::Video));
    assert_eq!(media_kind_of("/a/b.doc", Platform::Linux), None);
}

#[test]
fn served_mime_types() {
    assert_eq!(guess_mime("/d/a.WEBM", Platform::Linux), "video/webm");
    assert_eq!(guess_mime("/d/a.mp4", Platform::Linux), "video/mp4");
    assert_eq!(guess_mime("/d/a.mkv", Platform::Linux), "video/x-matroska");
    assert_eq!(guess_mime("/d/a.mov", Platform::Linux), "video/quicktime");
    assert_eq!(guess_mime("/d/a.avi", Platform::Linux), "video/x-msvideo");
    assert_eq!(guess_mime("/d/a.jpeg", Platform::Linux), "image/jpeg");
    assert_eq!(guess_mime("/d/a.jpg", Platform::Linux), "image/jpeg");
    assert_eq!(guess_mime("/d/a.png", Platform::Linux), "image/png");
    assert_eq!(guess_mime("/d/a.webp", Platform::Linux), "image/webp");
    assert_eq!(guess_mime("/d/a.gif", Platform::Linux), "image/gif");
    assert_eq!(guess_mime("/d/a.bmp", Platform::Linux), "application/octet-stream");
}

#[test]
fn inline_video_mime_types() {
    assert_eq!(video_mime("/v/a.mp4", Platform::Linux), "video/mp4");
    assert_eq!(video_mime("/v/a.Webm", Platform::Linux), "video/webm");
    assert_eq!(video_mime("/v/a.mkv", Platform::Linux), "video/x-matroska");
    assert_eq!(video_mime("/v/a.mov", Platform::Linux), "video/quicktime");
    assert_eq!(video_mime("/v/a.avi", Platform::Linux), "video/x-msvideo");
    assert_eq!(video_mime("/v/a.flv", Platform::Linux), "application/octet-stream");
}

#[test]
fn windows_media_paths() {
    assert!(is_video_path("C:\\videos\\clip.MP4", Platform::Windows));
    assert!(!is_video_path("C:\\videos.mp4\\clip", Platform::Windows));
    assert!(is_video_path("/videos\\clip.mp4", Platform::Linux));
    assert_eq!(guess_mime("C:\\d\\a.png", Platform::Windows), "image/png");
}
