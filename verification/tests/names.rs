use wallcraft::layout::Platform;
use wallcraft::names::{
    database_file_path, default_wallpaper_id_for_title, file_name_from_url, is_safe_file_name,
    normalize_json_file_name, resource_id_for_path, sanitize_file_name, sanitize_file_stem,
    title_for_path,
};

#[test]
fn sanitize_replaces_reserved_characters() {
    assert_eq!(sanitize_file_stem("a<b>c:d\"e/f\\g|h?i*j"), "a_b_c_d_e_f_g_h_i_j");
}

#[test]
fn sanitize_replaces_control_characters() {
    assert_eq!(sanitize_file_stem("tab\there\u{7f}x\u{85}"), "tab_here_x_");
}

#[test]
fn sanitize_trims_white_space_then_trailing_dots() {
    assert_eq!(sanitize_file_stem("  name.. "), "name");
    // Dots are removed after trimming, so a space before them stays.
    assert_eq!(sanitize_file_stem("name ."), "name ");
    assert_eq!(sanitize_file_stem("\u{3000}wide\u{2003}"), "wide");
}

#[test]
fn sanitize_falls_back_when_nothing_is_left() {
    assert_eq!(sanitize_file_stem(""), "untitled");
    assert_eq!(sanitize_file_stem(" ... "), "untitled");
    assert_eq!(sanitize_file_name(".."), "download");
    assert_eq!(sanitize_file_name("report?.pdf"), "report_.pdf");
}

#[test]
fn sanitize_keeps_unicode_letters() {
    assert_eq!(sanitize_file_stem("山水 画"), "山水 画");
}

#[test]
fn safe_file_names() {
    assert!(is_safe_file_name("settings.json"));
    assert!(is_safe_file_name("a-b_c.1"));
    assert!(!is_safe_file_name(""));
    assert!(!is_safe_file_name("../x"));
    assert!(!is_safe_file_name("a\\b"));
    assert!(!is_safe_file_name("c:x"));
    assert!(!is_safe_file_name("a b"));
    assert!(!is_safe_file_name("é"));
}

#[test]
fn json_names_are_normalized() {
    assert_eq!(normalize_json_file_name("prefs"), Some("prefs.json".to_string()));
    assert_eq!(normalize_json_file_name("prefs.json"), Some("prefs.json".to_string()));
    assert_eq!(normalize_json_file_name(".."), Some("...json".to_string()));
    assert_eq!(normalize_json_file_name("a/b"), None);
}

#[test]
fn database_paths_stay_inside_the_database() {
    assert_eq!(database_file_path("/data", "prefs"), Ok("/data/database/prefs.json".to_string()));
    assert_eq!(database_file_path("/data/", "x.json"), Ok("/data/database/x.json".to_string()));
    assert_eq!(database_file_path("/data", "/etc/passwd"), Err("Invalid file name".to_string()));
    assert_eq!(database_file_path("/data", ""), Err("Invalid file name".to_string()));
}

#[test]
fn download_names_come_from_the_url() {
    assert_eq!(file_name_from_url("https://example.com/pics/sunset.jpg"), Ok("sunset.jpg".to_string()));
    assert_eq!(file_name_from_url("https://example.com/"), Ok("download".to_string()));
    assert_eq!(file_name_from_url("https://example.com"), Ok("download".to_string()));
    assert_eq!(file_name_from_url("mailto:someone@example.com"), Ok("download".to_string()));
    assert_eq!(file_name_from_url("https://example.com/a/b%3Fc"), Ok("b%3Fc".to_string()));
    let err = file_name_from_url("not a url").unwrap_err();
    assert!(err.starts_with("Invalid url: "));
    assert_eq!(err, "Invalid url: relative URL without a base");
}

#[test]
fn resource_ids_depend_on_the_file_name_only() {
    let id = resource_id_for_path("/data/wallpapers/sunset.jpg", Platform::Linux);
    assert_eq!(id, "res_86dabf3b-94f3-53cf-9ceb-78188c3eb4f6");
    assert_eq!(resource_id_for_path("/elsewhere/sunset.jpg", Platform::Linux), id);
    assert_ne!(resource_id_for_path("/data/wallpapers/other.jpg", Platform::Linux), id);
}

#[test]
fn titles_are_file_stems() {
    assert_eq!(title_for_path("/w/Blue Sky.png", Platform::Linux), "Blue Sky");
    assert_eq!(title_for_path("/w/archive.tar.gz", Platform::Linux), "archive.tar");
    assert_eq!(title_for_path("/w/.hidden", Platform::Linux), ".hidden");
    assert_eq!(title_for_path("/", Platform::Linux), "untitled");
}

#[test]
fn default_ids_are_lower_case_with_underscores() {
    assert_eq!(default_wallpaper_id_for_title("Blue Sky Night"), "default_blue_sky_night");
    assert_eq!(default_wallpaper_id_for_title("ÉTÉ"), "default_été");
}

#[test]
fn windows_paths_are_read_by_their_file_name() {
    let here = resource_id_for_path("C:\\Users\\me\\wallpapers\\sunset.jpg", Platform::Windows);
    let moved = resource_id_for_path("D:\\elsewhere\\sunset.jpg", Platform::Windows);
    let unix = resource_id_for_path("/data/wallpapers/sunset.jpg", Platform::Linux);
    assert_eq!(here, moved);
    assert_eq!(here, unix);
    assert_eq!(title_for_path("C:\\w\\My Pic.png", Platform::Windows), "My Pic");
    assert_eq!(title_for_path("C:/w\\mixed/Sea.jpeg", Platform::Windows), "Sea");
    // elsewhere a backslash is an ordinary character of a name
    assert_eq!(title_for_path("/w/a\\b.png", Platform::Linux), "a\\b");
}
