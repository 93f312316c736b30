use wallcraft::names::resource_id_for_path;
use wallcraft::index::{
    fallback_play_id, find_wallpaper, format_resolution, index_from_content, position_of_id,
    removal_targets, remove_wallpaper, resolution_from_metadata, retain_found_resources,
    update_title, warmup_workers, IndexError, ResourceAction, ResourceSync,
};
use wallcraft::layout::Platform;
use wallcraft::media::MediaKind;
use wallcraft::models::{LibraryIndex, MediaMetadata, Wallpaper};
use wallcraft::order::sort_by_import_time_desc;

fn wp(id: &str, path: &str, time: &str) -> Wallpaper {
    Wallpaper {
        id: id.to_string(),
        title: id.to_uppercase(),
        local_path: path.to_string(),
        thumbnail_path: None,
        resolution: None,
        file_size: None,
        metadata: None,
        import_time: time.to_string(),
    }
}

fn index(ws: Vec<Wallpaper>) -> LibraryIndex {
    LibraryIndex { schema_version: 1, wallpapers: ws }
}

fn ids(ws: &[Wallpaper]) -> Vec<String> {
    ws.iter().map(|w| w.id.clone()).collect()
}

#[test]
fn finds_the_first_with_the_id() {
    let i = index(vec![wp("a", "/a", "1"), wp("b", "/b", "2"), wp("b", "/b2", "3")]);
    assert_eq!(position_of_id(&i.wallpapers, "b"), Some(1));
    assert_eq!(find_wallpaper(&i, "b").unwrap().local_path, "/b");
    assert!(find_wallpaper(&i, "c").is_none());
}

#[test]
fn removal_drops_every_entry_with_the_id() {
    let mut i = index(vec![wp("a", "/a", "1"), wp("b", "/b", "2"), wp("c", "/c", "3"), wp("b", "/b2", "4")]);
    let removed = remove_wallpaper(&mut i, "b").unwrap();
    assert_eq!(removed.local_path, "/b");
    assert_eq!(ids(&i.wallpapers), vec!["a", "c"]);
    assert_eq!(remove_wallpaper(&mut i, "zzz").unwrap_err(), IndexError::NotFound);
    assert_eq!(ids(&i.wallpapers), vec!["a", "c"]);
}

#[test]
fn renaming_changes_only_the_title() {
    let mut i = index(vec![wp("a", "/a", "1"), wp("b", "/b", "2")]);
    let w = update_title(&mut i, "b", "New".to_string()).unwrap();
    assert_eq!(w.title, "New");
    assert_eq!(w.local_path, "/b");
    assert_eq!(i.wallpapers[1].title, "New");
    assert_eq!(i.wallpapers[0].title, "A");
    assert_eq!(update_title(&mut i, "x", "T".to_string()).unwrap_err(), IndexError::NotFound);
}

#[test]
fn a_renamed_wallpaper_is_found_renamed_and_a_removed_one_is_gone() {
    let mut i = index(vec![wp("a", "/a", "1"), wp("b", "/b", "2")]);
    update_title(&mut i, "b", "Evening".to_string()).unwrap();
    assert_eq!(find_wallpaper(&i, "b").unwrap().title, "Evening");
    remove_wallpaper(&mut i, "b").unwrap();
    assert!(find_wallpaper(&i, "b").is_none());
}

#[test]
fn removal_targets_of_a_wallpaper() {
    let mut w = wp("id1", "/d/wallpapers/a.mp4", "t");
    w.thumbnail_path = Some("  video:/d/previews/id1.webm ".to_string());
    let t = removal_targets("/d", &w, "id1", Platform::Linux);
    assert_eq!(
        t.files,
        vec![
            "/d/wallpapers/a.mp4",
            "/d/previews/id1.webm",
            "/d/thumbnails/id1.jpg",
            "/d/previews/id1.webm",
            "/d/plays/id1.webm",
        ]
    );
    assert_eq!(t.dir, "/d/library/wallpapers/id1");
    let mut bare = wp("x", "", "t");
    bare.thumbnail_path = Some("video:".to_string());
    let t = removal_targets("/d", &bare, "x", Platform::Windows);
    assert_eq!(t.files, vec!["/d/thumbnails/x.jpg", "/d/previews/x.mp4", "/d/plays/x.webm"]);
}

#[test]
fn resolutions() {
    assert_eq!(format_resolution(1920, 1080), "1920×1080");
    let mut m = MediaMetadata::empty();
    m.width = Some(640);
    assert_eq!(resolution_from_metadata(&Some(m.clone())), None);
    m.height = Some(480);
    assert_eq!(resolution_from_metadata(&Some(m)), Some("640×480".to_string()));
    assert_eq!(resolution_from_metadata(&None), None);
}

#[test]
fn newest_first_and_stable() {
    let ws = vec![
        wp("a", "/a", "内置"),
        wp("b", "/b", "2024-01-02 10:00:00"),
        wp("c", "/c", "内置"),
        wp("d", "/d", "2024-05-01 09:00:00"),
        wp("e", "/e", "2023-12-31 23:59:59"),
    ];
    let sorted = sort_by_import_time_desc(ws.clone());
    assert_eq!(ids(&sorted), vec!["a", "c", "d", "b", "e"]);
    let mut expected = ws;
    expected.sort_by(|x, y| y.import_time.cmp(&x.import_time));
    assert_eq!(ids(&sorted), ids(&expected));
}

#[test]
fn resource_sync_classifies_files() {
    let existing = vec![
        wp("user1", "/d/wallpapers/mine.jpg", "t"),
        wp("res_86dabf3b-94f3-53cf-9ceb-78188c3eb4f6", "/old/sunset.jpg", "内置"),
    ];
    let sync = ResourceSync::new(existing);
    assert!(matches!(sync.classify("/d/wallpapers/link.lnk", Platform::Linux), ResourceAction::Ignore));
    assert!(matches!(sync.classify("/d/wallpapers/readme.txt", Platform::Linux), ResourceAction::Ignore));
    assert!(matches!(sync.classify("/d/wallpapers/mine.jpg", Platform::Linux), ResourceAction::AlreadyImported));
    match sync.classify("/d/wallpapers/sunset.jpg", Platform::Linux) {
        ResourceAction::Refresh { pos, id, kind } => {
            assert_eq!(pos, 1);
            assert_eq!(id, "res_86dabf3b-94f3-53cf-9ceb-78188c3eb4f6");
            assert_eq!(kind, MediaKind::Image);
        }
        _ => panic!("expected a refresh"),
    }
    match sync.classify("/d/wallpapers/new.MP4", Platform::Linux) {
        ResourceAction::Add { id, kind } => {
            assert!(id.starts_with("res_"));
            assert_eq!(kind, MediaKind::Video);
        }
        _ => panic!("expected an addition"),
    }
}

#[test]
fn a_resource_entry_holding_its_own_file_is_refreshed_and_kept() {
    let id = resource_id_for_path("/d/wallpapers/sunset.jpg", Platform::Linux);
    let mut sync = ResourceSync::new(vec![
        wp(&id, "/d/wallpapers/sunset.jpg", "内置"),
        wp("user1", "/d/wallpapers/mine.jpg", "t"),
        wp("res_gone", "/d/wallpapers/gone.jpg", "内置"),
    ]);
    match sync.classify("/d/wallpapers/sunset.jpg", Platform::Linux) {
        ResourceAction::Refresh { pos, id: found, .. } => {
            assert_eq!(pos, 0);
            assert_eq!(found, id);
            sync.refresh(pos, found, "/d/wallpapers/sunset.jpg".to_string(), "A".to_string(), None, None);
        }
        _ => panic!("expected a refresh"),
    }
    let exists = vec![true, true, false];
    let (kept, dropped) = retain_found_resources(sync.wallpapers, &sync.found_ids, &exists);
    assert_eq!(ids(&kept), vec![id.as_str(), "user1"]);
    assert!(dropped);
}

#[test]
fn resource_sync_updates_and_adds() {
    let mut sync = ResourceSync::new(vec![wp("res_1", "/old/a.jpg", "内置")]);
    sync.refresh(0, "res_1".to_string(), "/old/a.jpg".to_string(), "RES_1".to_string(), None, None);
    assert!(!sync.changed);
    sync.refresh(0, "res_1".to_string(), "/new/a.jpg".to_string(), "a".to_string(), Some(10), Some("1×1".to_string()));
    assert!(sync.changed);
    assert_eq!(sync.wallpapers[0].local_path, "/new/a.jpg");
    assert_eq!(sync.wallpapers[0].file_size, Some(10));
    sync.add("res_2".to_string(), "/new/b.mp4".to_string(), "b".to_string(), Some(5), None, None);
    assert_eq!(sync.wallpapers.len(), 2);
    assert_eq!(sync.wallpapers[1].import_time, "内置");
    assert_eq!(sync.found_ids, vec!["res_1", "res_1", "res_2"]);
}

#[test]
fn retention_keeps_user_entries() {
    let ws = vec![wp("user", "/gone", "t"), wp("res_a", "/a", "t"), wp("res_b", "/b", "t"), wp("res_c", "/c", "t")];
    let found = vec!["res_a".to_string(), "res_c".to_string()];
    let (kept, dropped) = retain_found_resources(ws, &found, &vec![false, true, true, false]);
    assert_eq!(ids(&kept), vec!["user", "res_a"]);
    assert!(dropped);
    let (kept, dropped) = retain_found_resources(vec![wp("u", "/u", "t")], &vec![], &vec![false]);
    assert_eq!(ids(&kept), vec!["u"]);
    assert!(!dropped);
}

#[test]
fn index_content() {
    assert_eq!(index_from_content("  \n", Some(index(vec![wp("a", "/a", "t")]))).wallpapers.len(), 0);
    assert_eq!(index_from_content("{}", None).schema_version, 1);
    let parsed = index(vec![wp("a", "/a", "t")]);
    assert_eq!(ids(&index_from_content("{...}", Some(parsed)).wallpapers), vec!["a"]);
}

#[test]
fn play_ids_and_workers() {
    let ws = vec![wp("x", "/w/a.mp4", "t"), wp("y", "/w/a.mp4", "t")];
    assert_eq!(fallback_play_id(&ws, "/w/a.mp4", Platform::Linux), "x");
    assert_eq!(fallback_play_id(&ws, "/w/sunset.jpg", Platform::Linux), "res_86dabf3b-94f3-53cf-9ceb-78188c3eb4f6");
    assert_eq!(warmup_workers(10, Some(16)), 4);
    assert_eq!(warmup_workers(2, Some(16)), 2);
    assert_eq!(warmup_workers(10, Some(3)), 3);
    assert_eq!(warmup_workers(10, None), 1);
    assert_eq!(warmup_workers(10, Some(0)), 1);
    assert_eq!(warmup_workers(0, Some(8)), 0);
}
