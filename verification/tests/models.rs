use wallcraft::models::{
    default_minimize_to_tray, default_stop_video_on_exit, default_video_wallpaper_hwdec,
    CommandResult, DiscoverHistory, LibraryIndex, MediaMetadata, Settings, VideoWallpaperSettings,
};

#[test]
fn default_settings() {
    let s = Settings::default();
    assert_eq!(s.schema_version, 1);
    assert_eq!(s.language, "zh-CN");
    assert_eq!(s.theme_mode, "dark");
    assert_eq!(s.primary_color, Some("#18a058".to_string()));
    assert_eq!(s.current_wallpaper_id, None);
    assert!(s.stop_video_on_exit && s.minimize_to_tray && !s.first_close_handled);
    let v = VideoWallpaperSettings::default();
    assert_eq!((v.max_width, v.max_height, v.fps, v.crf, v.bitrate_kbps, v.hwdec), (Some(2560), Some(1440), Some(30), Some(23), None, true));
    assert!(default_stop_video_on_exit() && default_minimize_to_tray() && default_video_wallpaper_hwdec());
}

#[test]
fn default_collections() {
    let h = DiscoverHistory::default();
    assert_eq!(h.schema_version, 1);
    assert!(h.urls.is_empty());
    let i = LibraryIndex::default();
    assert_eq!(i.schema_version, 1);
    assert!(i.wallpapers.is_empty());
    let m = MediaMetadata::default();
    assert!(m.width.is_none() && m.video_codec.is_none() && m.fps_bits.is_none());
}

#[test]
fn command_results() {
    let ok = CommandResult::success(5u32);
    assert!(ok.ok);
    assert_eq!(ok.data, Some(5));
    assert!(ok.error.is_none());
    let err: CommandResult<u32> = CommandResult::error("NOT_FOUND", "Wallpaper not found");
    assert!(!err.ok);
    assert!(err.data.is_none());
    let e = err.error.unwrap();
    assert_eq!(e.code, "NOT_FOUND");
    assert_eq!(e.message, "Wallpaper not found");
}
