use wallcraft::layout::Platform;
use wallcraft::models::{CommandResult, Settings};
use wallcraft::policy::{
    download_path, next_download_attempt, settle_delay_ms, settle_step, video_artifact_valid,
    wallpaper_not_found, SettleStep,
    apply_failure_result, apply_first_close_choice, apply_image_wallpaper, artifact_size_ok,
    check_import_format, data_url, download_candidate, first_close_action, gnome_picture_uri,
    import_dest_path, jpeg_data_url, macos_wallpaper_script, on_close_requested,
    parse_wallpaper_type, probe_wallpaper, settings_file_needs_write,
    should_migrate_legacy_settings, source_stem, stops_video_before_apply, system_get_platform,
    thumbnail_reply, timestamp_tail4, unsupported_video_wallpaper, with_current_wallpaper,
    CloseAction, WallpaperType,
};

#[test]
fn platform_names() {
    assert_eq!(system_get_platform(Platform::Windows).data, Some("windows".to_string()));
    assert_eq!(system_get_platform(Platform::MacOs).data, Some("macos".to_string()));
    assert_eq!(system_get_platform(Platform::Linux).data, Some("linux".to_string()));
    let r = system_get_platform(Platform::Other);
    assert!(r.ok);
    assert_eq!(r.data, Some("unknown".to_string()));
}

#[test]
fn closing_the_window() {
    let mut s = Settings::default();
    assert_eq!(on_close_requested(&s, Platform::Windows), CloseAction::AskUser);
    s.first_close_handled = true;
    assert_eq!(on_close_requested(&s, Platform::Windows), CloseAction::HideToTray);
    s.minimize_to_tray = false;
    assert_eq!(on_close_requested(&s, Platform::Windows), CloseAction::Exit { stop_video: true });
    assert_eq!(on_close_requested(&s, Platform::Linux), CloseAction::Exit { stop_video: false });
    s.stop_video_on_exit = false;
    assert_eq!(on_close_requested(&s, Platform::Windows), CloseAction::Exit { stop_video: false });
}

#[test]
fn first_close_choice() {
    let s = apply_first_close_choice(Settings::default(), false, true);
    assert!(!s.minimize_to_tray);
    assert!(s.first_close_handled);
    assert_eq!(s.language, "zh-CN");
    assert_eq!(first_close_action(&s, Platform::Windows), CloseAction::Exit { stop_video: true });
    let s = apply_first_close_choice(s, true, false);
    assert_eq!(first_close_action(&s, Platform::Windows), CloseAction::HideToTray);
    assert!(!s.first_close_handled);
}

#[test]
fn applying_wallpapers() {
    let s = with_current_wallpaper(Settings::default(), "w7");
    assert_eq!(s.current_wallpaper_id, Some("w7".to_string()));
    assert_eq!(parse_wallpaper_type("image"), Ok(WallpaperType::Image));
    assert_eq!(parse_wallpaper_type("video"), Ok(WallpaperType::Video));
    assert_eq!(parse_wallpaper_type("web"), Ok(WallpaperType::Web));
    assert_eq!(parse_wallpaper_type("gif"), Err("Unsupported wallpaper type".to_string()));
    assert!(stops_video_before_apply(Platform::Windows, "image"));
    assert!(!stops_video_before_apply(Platform::Windows, "video"));
    assert!(!stops_video_before_apply(Platform::Linux, "image"));
}

fn code_and_message(r: CommandResult<bool>) -> (String, String) {
    assert!(!r.ok);
    let e = r.error.unwrap();
    (e.code, e.message)
}

#[test]
fn apply_failures() {
    let linux_msg = "Video wallpaper is not supported on Linux GNOME Wayland yet";
    assert_eq!(code_and_message(apply_failure_result(Platform::Linux, linux_msg)), ("VIDEO_WALLPAPER_NOT_SUPPORTED".to_string(), "".to_string()));
    assert_eq!(code_and_message(apply_failure_result(Platform::Windows, linux_msg)), ("APPLY_FAILED".to_string(), linux_msg.to_string()));
    assert_eq!(code_and_message(apply_failure_result(Platform::Linux, "boom")), ("APPLY_FAILED".to_string(), "boom".to_string()));
    assert_eq!(unsupported_video_wallpaper(Platform::Linux), Err(linux_msg.to_string()));
    assert_eq!(unsupported_video_wallpaper(Platform::MacOs), Err("Video wallpaper is not implemented on macOS yet".to_string()));
    assert_eq!(unsupported_video_wallpaper(Platform::Other), Err("Unsupported platform".to_string()));
    assert_eq!(apply_image_wallpaper("/x.png"), Err("Unsupported platform".to_string()));
}

#[test]
fn desktop_commands() {
    assert_eq!(macos_wallpaper_script("/p/a b.png"), "tell application \"Finder\" to set desktop picture to POSIX file \"/p/a b.png\"");
    assert_eq!(gnome_picture_uri("/p/a.png"), "file:///p/a.png");
}

#[test]
fn import_names() {
    assert_eq!(timestamp_tail4(1_700_000_001_234), "1234");
    assert_eq!(timestamp_tail4(1_700_000_000_056), "0056");
    assert_eq!(timestamp_tail4(-7), "0007");
    assert_eq!(timestamp_tail4(i64::MIN), "5808");
    assert_eq!(timestamp_tail4(0), "0000");
    assert_eq!(check_import_format("/x/a.PNG", Platform::Linux), Ok("png".to_string()));
    assert_eq!(check_import_format("/x/a.doc", Platform::Linux), Err("Unsupported format: doc".to_string()));
    assert_eq!(check_import_format("/x/noext", Platform::Linux), Err("Unsupported format: ".to_string()));
    assert_eq!(source_stem("/x/My Pic.png", Platform::Linux), "My Pic");
    assert_eq!(source_stem("/", Platform::Linux), "untitled");
    assert_eq!(import_dest_path("/d/wallpapers", "My Pic", "0042", "png", None), "/d/wallpapers/My Pic-0042.png");
    assert_eq!(import_dest_path("/d/wallpapers", "a", "0042", "mp4", Some(3)), "/d/wallpapers/a-0042-3.mp4");
}

#[test]
fn download_alternatives() {
    assert_eq!(download_candidate("/d/downloads", "pic.jpg", 1), "/d/downloads/pic-1.jpg");
    assert_eq!(download_candidate("/d/downloads", "archive.tar.gz", 2), "/d/downloads/archive.tar-2.gz");
    assert_eq!(download_candidate("/d/downloads", "README", 12), "/d/downloads/README-12");
}

#[test]
fn thumbnail_replies() {
    assert_eq!(thumbnail_reply("/d/previews/a.WEBM"), "video:/d/previews/a.WEBM");
    assert_eq!(thumbnail_reply("/d/previews/a.mp4"), "video:/d/previews/a.mp4");
    assert_eq!(thumbnail_reply("/d/thumbnails/a.jpg"), "/d/thumbnails/a.jpg");
    assert_eq!(jpeg_data_url(b"hello"), "data:image/jpeg;base64,aGVsbG8=");
    assert_eq!(data_url("video/mp4", b""), "data:video/mp4;base64,");
    let w = probe_wallpaper("id", "/s.png");
    assert_eq!(w.id, "id");
    assert_eq!(w.local_path, "/s.png");
    assert_eq!(w.title, "");
}

#[test]
fn settings_file_and_artifacts() {
    assert!(settings_file_needs_write(None, false));
    assert!(settings_file_needs_write(Some("  "), true));
    assert!(!settings_file_needs_write(Some("{}"), true));
    assert!(settings_file_needs_write(Some("{"), false));
    assert!(should_migrate_legacy_settings(false, true));
    assert!(!should_migrate_legacy_settings(true, true));
    assert!(!should_migrate_legacy_settings(false, false));
    assert!(artifact_size_ok(true, 1025));
    assert!(!artifact_size_ok(true, 1024));
    assert!(!artifact_size_ok(false, 5000));
}

#[test]
fn windows_import_sources() {
    assert_eq!(source_stem("C:\\Users\\me\\Pictures\\photo.JPG", Platform::Windows), "photo");
    assert_eq!(check_import_format("C:\\Users\\me\\Pictures\\photo.JPG", Platform::Windows), Ok("jpg".to_string()));
    assert_eq!(
        check_import_format("C:\\dir.png\\file", Platform::Windows),
        Err("Unsupported format: ".to_string())
    );
    assert_eq!(source_stem("/x/a\\b.png", Platform::Linux), "a\\b");
}

#[test]
fn artifact_validity() {
    assert!(video_artifact_valid(true, 2048, None));
    assert!(video_artifact_valid(true, 2048, Some(Some(1))));
    assert!(!video_artifact_valid(true, 2048, Some(Some(0))));
    assert!(!video_artifact_valid(true, 2048, Some(None)));
    assert!(!video_artifact_valid(true, 1024, None));
    assert!(!video_artifact_valid(false, 4096, Some(Some(1))));
}

#[test]
fn artifact_settling() {
    assert_eq!(settle_step(1, true), SettleStep::Valid);
    assert_eq!(settle_step(1, false), SettleStep::WaitAndCheck);
    assert_eq!(settle_step(4, false), SettleStep::WaitAndCheck);
    assert_eq!(settle_step(5, false), SettleStep::GiveUp);
    assert_eq!(settle_step(5, true), SettleStep::Valid);
    assert_eq!(settle_delay_ms(), 150);
}

#[test]
fn download_tries() {
    assert_eq!(download_path("/dl", "a.jpg", None), "/dl/a.jpg");
    assert_eq!(download_path("/dl", "a.jpg", Some(2)), "/dl/a-2.jpg");
    assert_eq!(next_download_attempt(None), Some(1));
    assert_eq!(next_download_attempt(Some(999)), Some(1000));
    assert_eq!(next_download_attempt(Some(u32::MAX)), None);
}

#[test]
fn missing_wallpaper_reply() {
    let r = wallpaper_not_found::<bool>();
    assert!(!r.ok);
    let e = r.error.unwrap();
    assert_eq!((e.code.as_str(), e.message.as_str()), ("NOT_FOUND", "Wallpaper not found"));
}
