use wallcraft::layout::Platform;
use wallcraft::models::{MediaMetadata, Wallpaper};
use wallcraft::thumbs::{
    refresh_resolution, thumbnail_fallback, thumbnail_job, warm_after_current, warm_start,
    ThumbnailFallback, ThumbnailJob, WarmNext, WarmStart,
};

fn wp(id: &str, path: &str) -> Wallpaper {
    Wallpaper {
        id: id.to_string(),
        title: String::new(),
        local_path: path.to_string(),
        thumbnail_path: None,
        resolution: None,
        file_size: None,
        metadata: None,
        import_time: String::new(),
    }
}

#[test]
fn thumbnail_jobs() {
    assert!(matches!(thumbnail_job("/d", &wp("v", "/w/a.mp4"), Platform::Linux), ThumbnailJob::VideoPreview));
    match thumbnail_job("/d", &wp("v", "/w/a.mp4"), Platform::MacOs) {
        ThumbnailJob::UseSource(p) => assert_eq!(p, "/w/a.mp4"),
        _ => panic!("expected the source"),
    }
    match thumbnail_job("/d", &wp("i", "/w/a.png"), Platform::Windows) {
        ThumbnailJob::ImageThumbnail(p) => assert_eq!(p, "/d/thumbnails/i.jpg"),
        _ => panic!("expected an image thumbnail"),
    }
}

#[test]
fn thumbnail_fallbacks() {
    match thumbnail_fallback("/d", &wp("v", "/w/a.webm"), Platform::Windows) {
        ThumbnailFallback::CheckPreview(p) => assert_eq!(p, "/d/previews/v.mp4"),
        _ => panic!("expected a preview"),
    }
    assert!(matches!(thumbnail_fallback("/d", &wp("v", "/w/a.webm"), Platform::Other), ThumbnailFallback::UseSource));
    match thumbnail_fallback("/d", &wp("i", "/w/a.gif"), Platform::Linux) {
        ThumbnailFallback::CheckThumbnail(p) => assert_eq!(p, "/d/thumbnails/i.jpg"),
        _ => panic!("expected a thumbnail"),
    }
}

#[test]
fn resolutions_from_metadata() {
    let mut w = wp("i", "/w/a.png");
    assert!(!refresh_resolution(&mut w));
    let mut m = MediaMetadata::empty();
    m.width = Some(800);
    m.height = Some(600);
    w.metadata = Some(m);
    assert!(refresh_resolution(&mut w));
    assert_eq!(w.resolution, Some("800×600".to_string()));
    w.resolution = Some("1×1".to_string());
    assert!(!refresh_resolution(&mut w));
    assert_eq!(w.resolution, Some("1×1".to_string()));
}

#[test]
fn preview_warm_up_steps() {
    assert!(matches!(warm_start(&wp("i", "/w/a.png"), Platform::Linux), WarmStart::Skip));
    assert!(matches!(warm_start(&wp("v", "/w/a.mp4"), Platform::Linux), WarmStart::Generate));
    let mut v = wp("v", "/w/a.mp4");
    v.thumbnail_path = Some(String::new());
    assert!(matches!(warm_start(&v, Platform::Linux), WarmStart::Generate));
    v.thumbnail_path = Some("/d/previews/old.mp4".to_string());
    match warm_start(&v, Platform::Linux) {
        WarmStart::CheckCurrent(c) => assert_eq!(c, "/d/previews/old.mp4"),
        _ => panic!("expected a check"),
    }
    assert!(matches!(warm_after_current("/a", "/b", false), WarmNext::Generate));
    assert!(matches!(warm_after_current("/a", "/a", true), WarmNext::Skip));
    assert!(matches!(warm_after_current("/a", "/b", true), WarmNext::CheckDesired));
}
