//! Where the application keeps its files under the data directory.
//!
//! Every function takes the data directory as text; the caller finds it
//! (from `WALLPAPER_DATA_DIR`, or next to the executable).
use vstd::prelude::*;
use crate::external::{uuid_v5_url, uuid_v5_url_text};
use crate::names::{lemma_sanitize_file_stem_is_clean, sanitize_file_stem, sanitized};
use crate::paths::{
    file_name, is_plain_name, join, join_chars, lemma_join_name_starts_with, path_starts_with,
};
use crate::text::{chars_of, concat_chars, string_of, trim, trim_chars};

verus! {

/// The operating system the application was built for.
#[derive(Clone, Copy, Debug, PartialEq, Eq, Structural)]
pub enum Platform {
    Windows,
    MacOs,
    Linux,
    Other,
}

/// The data directory named by the `WALLPAPER_DATA_DIR` variable: its value
/// trimmed, unless that leaves nothing.
pub open spec fn data_dir_from_env_value(value: Option<Seq<char>>) -> Option<Seq<char>> {
    match value {
        Some(v) => if trim(v).len() > 0 {
            Some(trim(v))
        } else {
            None
        },
        None => None,
    }
}

/// The data directory that the environment names, if any.
pub fn data_dir_from_env(value: Option<&str>) -> (r: Option<String>)
    ensures
        match r {
            Some(d) => data_dir_from_env_value(
                match value {
                    Some(v) => Some(v@),
                    None => None,
                },
            ) == Some(d@),
            None => data_dir_from_env_value(
                match value {
                    Some(v) => Some(v@),
                    None => None,
                },
            ) is None,
        },
{
    match value {
        Some(v) => {
            let t = trim_chars(&chars_of(v));
            if t.len() > 0 {
                Some(string_of(&t))
            } else {
                None
            }
        },
        None => None,
    }
}

fn join_str(base: &str, part: &str) -> (r: String)
    ensures
        r@ == join(base@, part@),
{
    string_of(&join_chars(&chars_of(base), &chars_of(part)))
}

pub open spec fn library_dir(d: Seq<char>) -> Seq<char> {
    join(join(d, "library"@), "wallpapers"@)
}

pub open spec fn database_dir(d: Seq<char>) -> Seq<char> {
    join(d, "database"@)
}

pub open spec fn thumbnails_dir(d: Seq<char>) -> Seq<char> {
    join(d, "thumbnails"@)
}

pub open spec fn previews_dir(d: Seq<char>) -> Seq<char> {
    join(d, "previews"@)
}

pub open spec fn plays_dir(d: Seq<char>) -> Seq<char> {
    join(d, "plays"@)
}

pub open spec fn cache_dir(d: Seq<char>) -> Seq<char> {
    join(d, "cache"@)
}

pub open spec fn default_wallpapers_dir(d: Seq<char>) -> Seq<char> {
    join(d, "wallpapers"@)
}

/// Each directory of the data lies inside the data directory under its own
/// name: `library/wallpapers`, `database`, `thumbnails`, `previews`,
/// `plays`, `cache` and `wallpapers`.
pub proof fn lemma_data_directories(d: Seq<char>)
    ensures
        path_starts_with(database_dir(d), d) && file_name(database_dir(d)) == Some("database"@),
        path_starts_with(thumbnails_dir(d), d) && file_name(thumbnails_dir(d)) == Some("thumbnails"@),
        path_starts_with(previews_dir(d), d) && file_name(previews_dir(d)) == Some("previews"@),
        path_starts_with(plays_dir(d), d) && file_name(plays_dir(d)) == Some("plays"@),
        path_starts_with(cache_dir(d), d) && file_name(cache_dir(d)) == Some("cache"@),
        path_starts_with(default_wallpapers_dir(d), d) && file_name(default_wallpapers_dir(d)) == Some(
            "wallpapers"@,
        ),
        path_starts_with(join(d, "library"@), d) && path_starts_with(library_dir(d), join(d, "library"@))
            && file_name(library_dir(d)) == Some("wallpapers"@),
{
    reveal_strlit("database");
    reveal_strlit("thumbnails");
    reveal_strlit("previews");
    reveal_strlit("plays");
    reveal_strlit("cache");
    reveal_strlit("wallpapers");
    reveal_strlit("library");
    lemma_plain_literal("database"@);
    lemma_plain_literal("thumbnails"@);
    lemma_plain_literal("previews"@);
    lemma_plain_literal("plays"@);
    lemma_plain_literal("cache"@);
    lemma_plain_literal("wallpapers"@);
    lemma_plain_literal("library"@);
    lemma_join_name_starts_with(d, "database"@);
    lemma_join_name_starts_with(d, "thumbnails"@);
    lemma_join_name_starts_with(d, "previews"@);
    lemma_join_name_starts_with(d, "plays"@);
    lemma_join_name_starts_with(d, "cache"@);
    lemma_join_name_starts_with(d, "wallpapers"@);
    lemma_join_name_starts_with(d, "library"@);
    lemma_join_name_starts_with(join(d, "library"@), "wallpapers"@);
}

/// A name of lower case ASCII letters, at least three long, is a plain
/// name.
proof fn lemma_plain_literal(n: Seq<char>)
    requires
        n.len() >= 3,
        forall|i: int| 0 <= i < n.len() ==> 'a' <= #[trigger] n[i] <= 'z',
    ensures
        is_plain_name(n),
{
    assert(!n.contains('/'));
    assert(n != crate::paths::dot());
    assert(n != crate::paths::dot_dot());
}

/// `data/library/wallpapers`, where older versions kept imported files.
pub fn get_library_dir(data_dir: &str) -> (r: String)
    ensures
        r@ == library_dir(data_dir@),
{
    let l = join_str(data_dir, "library");
    join_str(l.as_str(), "wallpapers")
}

/// `data/database`, the JSON database.
pub fn get_database_dir(data_dir: &str) -> (r: String)
    ensures
        r@ == database_dir(data_dir@),
{
    join_str(data_dir, "database")
}

/// `data/thumbnails`.
pub fn get_thumbnails_dir(data_dir: &str) -> (r: String)
    ensures
        r@ == thumbnails_dir(data_dir@),
{
    join_str(data_dir, "thumbnails")
}

/// `data/previews`.
pub fn get_previews_dir(data_dir: &str) -> (r: String)
    ensures
        r@ == previews_dir(data_dir@),
{
    join_str(data_dir, "previews")
}

/// `data/plays`.
pub fn get_plays_dir(data_dir: &str) -> (r: String)
    ensures
        r@ == plays_dir(data_dir@),
{
    join_str(data_dir, "plays")
}

/// `data/cache`.
pub fn get_cache_dir(data_dir: &str) -> (r: String)
    ensures
        r@ == cache_dir(data_dir@),
{
    join_str(data_dir, "cache")
}

/// `data/wallpapers`, the resource directory (the caller creates it).
pub fn default_wallpapers_dir_path(data_dir: &str) -> (r: String)
    ensures
        r@ == default_wallpapers_dir(data_dir@),
{
    join_str(data_dir, "wallpapers")
}

/// `data/database/library.json`, the library index.
pub fn get_index_path(data_dir: &str) -> (r: String)
    ensures
        r@ == join(database_dir(data_dir@), "library.json"@),
{
    join_str(get_database_dir(data_dir).as_str(), "library.json")
}

/// `data/library/index.json`, where older versions kept the index.
pub fn get_legacy_index_path(data_dir: &str) -> (r: String)
    ensures
        r@ == join(join(data_dir@, "library"@), "index.json"@),
{
    let l = join_str(data_dir, "library");
    join_str(l.as_str(), "index.json")
}

/// `data/database/settings.json`.
pub fn get_settings_path(data_dir: &str) -> (r: String)
    ensures
        r@ == join(database_dir(data_dir@), "settings.json"@),
{
    join_str(get_database_dir(data_dir).as_str(), "settings.json")
}

/// `data/settings.json`, where older versions kept the settings.
pub fn legacy_settings_path(data_dir: &str) -> (r: String)
    ensures
        r@ == join(data_dir@, "settings.json"@),
{
    join_str(data_dir, "settings.json")
}

/// `data/database/discover_history.json`.
pub fn get_discover_history_path(data_dir: &str) -> (r: String)
    ensures
        r@ == join(database_dir(data_dir@), "discover_history.json"@),
{
    join_str(get_database_dir(data_dir).as_str(), "discover_history.json")
}

/// `data/downloads`.
pub fn get_downloads_dir(data_dir: &str) -> (r: String)
    ensures
        r@ == join(data_dir@, "downloads"@),
{
    join_str(data_dir, "downloads")
}

/// `data/logs`.
pub fn get_log_dir(data_dir: &str) -> (r: String)
    ensures
        r@ == join(data_dir@, "logs"@),
{
    join_str(data_dir, "logs")
}

/// The file name `<sanitized id><suffix>`.
pub open spec fn id_file_name(id: Seq<char>, suffix: Seq<char>) -> Seq<char> {
    sanitized(id, "untitled"@) + suffix
}

fn id_file(dir: &str, id: &str, suffix: &str) -> (r: String)
    ensures
        r@ == join(dir@, id_file_name(id@, suffix@)),
{
    let safe = sanitize_file_stem(id);
    let name = concat_chars(&chars_of(safe.as_str()), &chars_of(suffix));
    string_of(&join_chars(&chars_of(dir), &name))
}

/// The thumbnail of a wallpaper: `data/thumbnails/<sanitized id>.jpg`.
pub fn get_thumbnail_path_for_id(data_dir: &str, id: &str) -> (r: String)
    ensures
        r@ == join(thumbnails_dir(data_dir@), id_file_name(id@, ".jpg"@)),
{
    id_file(get_thumbnails_dir(data_dir).as_str(), id, ".jpg")
}

/// The extension of video previews: `.mp4` on Windows, `.webm` elsewhere.
pub open spec fn preview_suffix(platform: Platform) -> Seq<char> {
    if platform == Platform::Windows {
        ".mp4"@
    } else {
        ".webm"@
    }
}

/// The video preview of a wallpaper: `data/previews/<sanitized id>` with
/// the platform's preview extension.
pub fn get_preview_path_for_id(data_dir: &str, id: &str, platform: Platform) -> (r: String)
    ensures
        r@ == join(previews_dir(data_dir@), id_file_name(id@, preview_suffix(platform))),
{
    let suffix = match platform {
        Platform::Windows => ".mp4",
        _ => ".webm",
    };
    id_file(get_previews_dir(data_dir).as_str(), id, suffix)
}

/// The same file as `get_preview_path_for_id`.
pub fn get_video_preview_path_for_id(data_dir: &str, id: &str, platform: Platform) -> (r: String)
    ensures
        r@ == join(previews_dir(data_dir@), id_file_name(id@, preview_suffix(platform))),
{
    get_preview_path_for_id(data_dir, id, platform)
}

/// The detail play cache of a wallpaper: `data/plays/<sanitized id>.webm`.
pub fn get_detail_play_path_for_id(data_dir: &str, id: &str) -> (r: String)
    ensures
        r@ == join(plays_dir(data_dir@), id_file_name(id@, ".webm"@)),
{
    id_file(get_plays_dir(data_dir).as_str(), id, ".webm")
}

proof fn lemma_id_file_name_plain(id: Seq<char>, suffix: Seq<char>)
    requires
        !suffix.contains('/'),
    ensures
        is_plain_name(id_file_name(id, suffix)),
{
    lemma_sanitize_file_stem_is_clean(id);
    let s = sanitized(id, "untitled"@);
    let n = s + suffix;
    assert(!n.contains('/')) by {
        if n.contains('/') {
            let j = choose|j: int| 0 <= j < n.len() && n[j] == '/';
            if j < s.len() {
                assert(n[j] == s[j]);
                assert(s.contains('/'));
            } else {
                assert(n[j] == suffix[j - s.len()]);
                assert(suffix.contains('/'));
            }
        }
    }
    if n == crate::paths::dot() || n == crate::paths::dot_dot() {
        if suffix.len() == 0 {
            assert(n =~= s);
        } else {
            assert(n[0] == s[0]);
            assert(s.len() >= 1);
            assert(n[s.len() - 1] == s.last());
        }
    }
}

/// Whatever the id, its thumbnail, preview and detail play files lie inside
/// their directories: sanitizing the id leaves no way out of them.
pub proof fn lemma_id_files_inside(data_dir: Seq<char>, id: Seq<char>, platform: Platform)
    ensures
        path_starts_with(
            join(thumbnails_dir(data_dir), id_file_name(id, ".jpg"@)),
            thumbnails_dir(data_dir),
        ),
        path_starts_with(
            join(previews_dir(data_dir), id_file_name(id, preview_suffix(platform))),
            previews_dir(data_dir),
        ),
        path_starts_with(
            join(plays_dir(data_dir), id_file_name(id, ".webm"@)),
            plays_dir(data_dir),
        ),
{
    reveal_strlit(".jpg");
    reveal_strlit(".mp4");
    reveal_strlit(".webm");
    lemma_id_file_name_plain(id, ".jpg"@);
    lemma_id_file_name_plain(id, preview_suffix(platform));
    lemma_id_file_name_plain(id, ".webm"@);
    lemma_join_name_starts_with(thumbnails_dir(data_dir), id_file_name(id, ".jpg"@));
    lemma_join_name_starts_with(
        previews_dir(data_dir),
        id_file_name(id, preview_suffix(platform)),
    );
    lemma_join_name_starts_with(plays_dir(data_dir), id_file_name(id, ".webm"@));
}

/// The directories the application creates at start, in order.
pub open spec fn required_dirs_spec(d: Seq<char>) -> Seq<Seq<char>> {
    seq![
        d,
        join(d, "wallpapers"@),
        join(d, "translations"@),
        database_dir(d),
        library_dir(d),
        thumbnails_dir(d),
        previews_dir(d),
        plays_dir(d),
        join(d, "downloads"@),
        join(d, "cache"@),
        join(d, "logs"@),
    ]
}

/// The directories that must exist under the data directory.
pub fn required_dirs(data_dir: &str) -> (r: Vec<String>)
    ensures
        r@.len() == required_dirs_spec(data_dir@).len(),
        forall|i: int| 0 <= i < r@.len() ==> #[trigger] r@[i]@ == required_dirs_spec(data_dir@)[i],
{
    let mut r: Vec<String> = Vec::new();
    r.push(string_of(&chars_of(data_dir)));
    r.push(join_str(data_dir, "wallpapers"));
    r.push(join_str(data_dir, "translations"));
    r.push(get_database_dir(data_dir));
    r.push(get_library_dir(data_dir));
    r.push(get_thumbnails_dir(data_dir));
    r.push(get_previews_dir(data_dir));
    r.push(get_plays_dir(data_dir));
    r.push(get_downloads_dir(data_dir));
    r.push(get_cache_dir(data_dir));
    r.push(get_log_dir(data_dir));
    r
}

/// The file name of the ffprobe tool on a platform.
pub open spec fn ffprobe_name(platform: Platform) -> Seq<char> {
    if platform == Platform::Windows {
        "ffprobe.exe"@
    } else {
        "ffprobe"@
    }
}

/// The file name of the ffmpeg tool on a platform.
pub open spec fn ffmpeg_name(platform: Platform) -> Seq<char> {
    if platform == Platform::Windows {
        "ffmpeg.exe"@
    } else {
        "ffmpeg"@
    }
}

pub fn ffprobe_file_name(platform: Platform) -> (r: String)
    ensures
        r@ == ffprobe_name(platform),
{
    match platform {
        Platform::Windows => string_of(&chars_of("ffprobe.exe")),
        _ => string_of(&chars_of("ffprobe")),
    }
}

pub fn ffmpeg_file_name(platform: Platform) -> (r: String)
    ensures
        r@ == ffmpeg_name(platform),
{
    match platform {
        Platform::Windows => string_of(&chars_of("ffmpeg.exe")),
        _ => string_of(&chars_of("ffmpeg")),
    }
}

/// The places a bundled tool is looked for, in order: `<manifest>/bin/<name>`
/// (in a debug build), then `<exe dir>/<name>` and `<exe dir>/bin/<name>`.
pub open spec fn tool_candidates(
    manifest_dir: Option<Seq<char>>,
    exe_dir: Option<Seq<char>>,
    name: Seq<char>,
) -> Seq<Seq<char>> {
    let first = match manifest_dir {
        Some(m) => seq![join(join(m, "bin"@), name)],
        None => Seq::empty(),
    };
    let rest = match exe_dir {
        Some(e) => seq![join(e, name), join(join(e, "bin"@), name)],
        None => Seq::empty(),
    };
    first + rest
}

/// Where a bundled tool is looked for: next to the executable
/// (`<exe>/<name>`, then `<exe>/bin/<name>`) whenever the executable's
/// directory is known, whatever the build; a debug build (which knows the
/// manifest directory) looks in `<manifest>/bin/<name>` first and adds
/// nothing else; with neither directory there is no place to look.
pub proof fn lemma_tool_places(manifest_dir: Option<Seq<char>>, exe_dir: Option<Seq<char>>, name: Seq<char>)
    ensures
        exe_dir matches Some(e) ==> {
            let c = tool_candidates(manifest_dir, exe_dir, name);
            &&& c.len() >= 2
            &&& c[c.len() - 2] == join(e, name)
            &&& c[c.len() - 1] == join(join(e, "bin"@), name)
        },
        manifest_dir matches Some(m) ==> tool_candidates(manifest_dir, exe_dir, name) == seq![
            join(join(m, "bin"@), name),
        ] + tool_candidates(None, exe_dir, name),
        manifest_dir is None ==> tool_candidates(manifest_dir, exe_dir, name).len() == (if exe_dir is Some {
            2int
        } else {
            0int
        }),
{
    match manifest_dir {
        Some(m) => {
            assert(tool_candidates(manifest_dir, exe_dir, name) =~= seq![join(join(m, "bin"@), name)]
                + tool_candidates(None, exe_dir, name));
        },
        None => {},
    }
}

/// The candidate paths of a bundled tool; the caller takes the first that
/// exists.
pub fn bundled_tool_candidates(manifest_dir: Option<&str>, exe_dir: Option<&str>, name: &str) -> (r:
    Vec<String>)
    ensures
        r@.len() == tool_candidates(
            match manifest_dir {
                Some(m) => Some(m@),
                None => None,
            },
            match exe_dir {
                Some(e) => Some(e@),
                None => None,
            },
            name@,
        ).len(),
        forall|i: int|
            0 <= i < r@.len() ==> #[trigger] r@[i]@ == tool_candidates(
                match manifest_dir {
                    Some(m) => Some(m@),
                    None => None,
                },
                match exe_dir {
                    Some(e) => Some(e@),
                    None => None,
                },
                name@,
            )[i],
{
    let mut r: Vec<String> = Vec::new();
    if let Some(m) = manifest_dir {
        let b = join_str(m, "bin");
        r.push(join_str(b.as_str(), name));
    }
    if let Some(e) = exe_dir {
        r.push(join_str(e, name));
        let b = join_str(e, "bin");
        r.push(join_str(b.as_str(), name));
    }
    r
}

/// Where an image is converted to BMP before Windows is given it:
/// `data/wallpaper_applied/<uuid of the image path>.bmp`, one file per
/// source path.
pub fn applied_bmp_path(data_dir: &str, image_path: &str) -> (r: String)
    ensures
        r@ == join(join(data_dir@, "wallpaper_applied"@), uuid_v5_url(image_path@) + ".bmp"@),
{
    let dir = join_str(data_dir, "wallpaper_applied");
    let key = uuid_v5_url_text(&chars_of(image_path));
    let name = concat_chars(&key, &chars_of(".bmp"));
    string_of(&join_chars(&chars_of(dir.as_str()), &name))
}

} // verus!
