use wallcraft::paths::{
    components_of, extension_of, file_name_of, file_stem_of, join_chars, starts_with_path,
    with_extension_chars,
};

fn chars_of(s: &str) -> Vec<char> {
    s.chars().collect()
}

fn string_of(v: &[char]) -> String {
    v.iter().collect()
}

fn s(v: &[char]) -> String {
    string_of(v)
}

fn comps(p: &str) -> Vec<String> {
    components_of(&chars_of(p)).iter().map(|c| s(c)).collect()
}

fn join(a: &str, b: &str) -> String {
    s(&join_chars(&chars_of(a), &chars_of(b)))
}

#[test]
fn components_follow_std() {
    for p in ["/a//b/./c/", "./a/b", "a/../b", ".", "", "/", "./", "a/.", "//x"] {
        let expected: Vec<String> = std::path::Path::new(p)
            .components()
            .map(|c| c.as_os_str().to_string_lossy().to_string())
            .collect();
        assert_eq!(comps(p), expected, "path {:?}", p);
    }
}

#[test]
fn join_follows_std() {
    for (a, b) in [("/data", "x"), ("/data/", "x"), ("", "x"), ("/data", "/etc"), ("a", "")] {
        let expected = std::path::Path::new(a).join(b).to_string_lossy().to_string();
        assert_eq!(join(a, b), expected, "{:?} + {:?}", a, b);
    }
}

#[test]
fn file_names_extensions_and_stems_follow_std() {
    for p in ["/a/b.mp4", "b", "/a/.hidden", "/a/b.tar.gz", "/a/b.", "/a/..", "/", "a/b/", "x..y"] {
        let path = std::path::Path::new(p);
        let name = file_name_of(&chars_of(p)).map(|v| s(&v));
        assert_eq!(name, path.file_name().map(|n| n.to_string_lossy().to_string()), "{:?}", p);
        let ext = extension_of(&chars_of(p)).map(|v| s(&v));
        assert_eq!(ext, path.extension().map(|n| n.to_string_lossy().to_string()), "{:?}", p);
        let stem = file_stem_of(&chars_of(p)).map(|v| s(&v));
        assert_eq!(stem, path.file_stem().map(|n| n.to_string_lossy().to_string()), "{:?}", p);
    }
}

#[test]
fn with_extension_follows_std() {
    for (p, e) in [
        ("/c/key.mp4", "tmp.mp4"),
        ("/c/a.b.webm", "tmp.webm"),
        ("/c/name", "json.tmp"),
        ("/c/name/", "x"),
        ("/c/name/.", "x"),
        ("/c/.hidden", "x"),
        ("/", "x"),
        ("/c/..", "x"),
        ("/c/a.mp4", ""),
    ] {
        let expected = std::path::Path::new(p).with_extension(e).to_string_lossy().to_string();
        assert_eq!(s(&with_extension_chars(&chars_of(p), &chars_of(e))), expected, "{:?} {:?}", p, e);
    }
}

#[test]
fn starts_with_is_by_components() {
    assert!(starts_with_path(&chars_of("/data/x.png"), &chars_of("/data")));
    assert!(starts_with_path(&chars_of("/data//x.png"), &chars_of("/data/")));
    assert!(!starts_with_path(&chars_of("/database/x.png"), &chars_of("/data")));
    assert!(!starts_with_path(&chars_of("data/x"), &chars_of("/data")));
    // `..` is a component like any other: no normalisation happens.
    assert!(starts_with_path(&chars_of("/data/../etc/passwd"), &chars_of("/data")));
}
