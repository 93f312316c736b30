use wallcraft::layout::{
    applied_bmp_path, bundled_tool_candidates, data_dir_from_env, default_wallpapers_dir_path,
    ffmpeg_file_name, ffprobe_file_name, get_cache_dir, get_database_dir, get_detail_play_path_for_id,
    get_discover_history_path, get_index_path, get_legacy_index_path, get_library_dir,
    get_plays_dir, get_preview_path_for_id, get_previews_dir, get_settings_path,
    get_thumbnail_path_for_id, get_thumbnails_dir, get_video_preview_path_for_id,
    legacy_settings_path, required_dirs, Platform,
};

#[test]
fn directories_under_the_data_directory() {
    assert_eq!(get_library_dir("/d"), "/d/library/wallpapers");
    assert_eq!(get_database_dir("/d"), "/d/database");
    assert_eq!(get_thumbnails_dir("/d/"), "/d/thumbnails");
    assert_eq!(get_previews_dir("/d"), "/d/previews");
    assert_eq!(get_plays_dir("/d"), "/d/plays");
    assert_eq!(get_cache_dir("/d"), "/d/cache");
    assert_eq!(default_wallpapers_dir_path("/d"), "/d/wallpapers");
    assert_eq!(get_index_path("/d"), "/d/database/library.json");
    assert_eq!(get_legacy_index_path("/d"), "/d/library/index.json");
    assert_eq!(get_settings_path("/d"), "/d/database/settings.json");
    assert_eq!(legacy_settings_path("/d"), "/d/settings.json");
    assert_eq!(get_discover_history_path("/d"), "/d/database/discover_history.json");
}

#[test]
fn files_named_by_id_are_sanitized() {
    assert_eq!(get_thumbnail_path_for_id("/d", "abc"), "/d/thumbnails/abc.jpg");
    assert_eq!(get_thumbnail_path_for_id("/d", "../../etc/x"), "/d/thumbnails/.._.._etc_x.jpg");
    assert_eq!(get_preview_path_for_id("/d", "v1", Platform::Windows), "/d/previews/v1.mp4");
    assert_eq!(get_preview_path_for_id("/d", "v1", Platform::Linux), "/d/previews/v1.webm");
    assert_eq!(get_video_preview_path_for_id("/d", "v1", Platform::MacOs), "/d/previews/v1.webm");
    assert_eq!(get_detail_play_path_for_id("/d", " ? "), "/d/plays/_.webm");
    assert_eq!(get_detail_play_path_for_id("/d", ""), "/d/plays/untitled.webm");
}

#[test]
fn required_directories_in_order() {
    assert_eq!(
        required_dirs("/d"),
        vec![
            "/d", "/d/wallpapers", "/d/translations", "/d/database", "/d/library/wallpapers",
            "/d/thumbnails", "/d/previews", "/d/plays", "/d/downloads", "/d/cache", "/d/logs",
        ]
    );
}

#[test]
fn data_directory_from_the_environment() {
    assert_eq!(data_dir_from_env(Some("  /srv/w  ")), Some("/srv/w".to_string()));
    assert_eq!(data_dir_from_env(Some("   ")), None);
    assert_eq!(data_dir_from_env(None), None);
}

#[test]
fn bundled_tools() {
    assert_eq!(ffprobe_file_name(Platform::Windows), "ffprobe.exe");
    assert_eq!(ffprobe_file_name(Platform::Linux), "ffprobe");
    assert_eq!(ffmpeg_file_name(Platform::Windows), "ffmpeg.exe");
    assert_eq!(ffmpeg_file_name(Platform::MacOs), "ffmpeg");
    assert_eq!(
        bundled_tool_candidates(Some("/src"), Some("/opt/app"), "ffmpeg"),
        vec!["/src/bin/ffmpeg", "/opt/app/ffmpeg", "/opt/app/bin/ffmpeg"]
    );
    assert_eq!(bundled_tool_candidates(None, None, "ffmpeg"), Vec::<String>::new());
}

#[test]
fn applied_bitmaps_are_named_by_source() {
    assert_eq!(
        applied_bmp_path("/d", "C:/pics/a.png"),
        "/d/wallpaper_applied/bb7f2a1b-ef24-5a6e-89dc-1805196e3fa1.bmp"
    );
}
