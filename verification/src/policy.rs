//! The application's decisions around its outside work: what closing the
//! window does, how applying a wallpaper is answered, how imported and
//! downloaded files are named, and what the thumbnail commands send back.
use vstd::prelude::*;
use crate::external::{base64_encode, base64_standard, lowercase, lowercase_chars};
use crate::layout::Platform;
use crate::media::{is_image_format, is_image_format_ext, is_video_format, is_video_format_ext};
use crate::models::{copy_string, CommandResult, Settings, Wallpaper};
use crate::paths::{
    extension, extension_of, file_stem, file_stem_of, join, join_chars, native, native_chars,
};
use crate::scan::{all_digits, digits_value, is_digit, lemma_decimal_reads_back};
use crate::text::{
    append_chars, chars_eq, chars_of, concat_chars, decimal, decimal_chars, ends_with, has_suffix,
    string_of, trim, trim_chars,
};

verus! {

/// The name of a platform as the front end knows it.
pub open spec fn platform_text(p: Platform) -> Seq<char> {
    match p {
        Platform::Windows => "windows"@,
        Platform::MacOs => "macos"@,
        Platform::Linux => "linux"@,
        Platform::Other => "unknown"@,
    }
}

/// The platform the application runs on, for the front end.
pub fn system_get_platform(p: Platform) -> (r: CommandResult<String>)
    ensures
        r.ok && r.error is None && r.data is Some && r.data->0@ == platform_text(p),
{
    let t = match p {
        Platform::Windows => "windows",
        Platform::MacOs => "macos",
        Platform::Linux => "linux",
        Platform::Other => "unknown",
    };
    CommandResult::success(string_of(&chars_of(t)))
}

/// What a request to close the main window leads to.
#[derive(Clone, Copy, Debug, PartialEq, Eq, Structural)]
pub enum CloseAction {
    /// Keep the window open and ask the user what closing should do.
    AskUser,
    /// Hide the window in the tray.
    HideToTray,
    /// Let the application exit, stopping the video wallpaper first when
    /// `stop_video` holds.
    Exit { stop_video: bool },
}

/// Closing the window: the first time the user is asked; afterwards the
/// settings decide between hiding in the tray and exiting (stopping the
/// video wallpaper on Windows when the settings say so).
pub open spec fn close_action(s: Settings, p: Platform) -> CloseAction {
    if !s.first_close_handled {
        CloseAction::AskUser
    } else if s.minimize_to_tray {
        CloseAction::HideToTray
    } else {
        CloseAction::Exit { stop_video: p == Platform::Windows && s.stop_video_on_exit }
    }
}

/// What a close request of the main window does.
pub fn on_close_requested(settings: &Settings, p: Platform) -> (r: CloseAction)
    ensures
        r == close_action(*settings, p),
{
    if !settings.first_close_handled {
        CloseAction::AskUser
    } else if settings.minimize_to_tray {
        CloseAction::HideToTray
    } else {
        CloseAction::Exit {
            stop_video: match p {
                Platform::Windows => settings.stop_video_on_exit,
                _ => false,
            },
        }
    }
}

/// The user's answer to the first close: the settings record whether to
/// hide in the tray and whether the question was settled (when the user
/// asked to remember the choice); nothing else changes.
pub fn apply_first_close_choice(settings: Settings, minimize_to_tray: bool, remember_choice: bool) -> (r:
    Settings)
    ensures
        r == (Settings {
            minimize_to_tray: minimize_to_tray,
            first_close_handled: remember_choice,
            ..settings
        }),
{
    let mut s = settings;
    s.minimize_to_tray = minimize_to_tray;
    s.first_close_handled = remember_choice;
    s
}

/// What the window does once the first-close answer is saved.
pub fn first_close_action(settings: &Settings, p: Platform) -> (r: CloseAction)
    ensures
        settings.minimize_to_tray ==> r == CloseAction::HideToTray,
        !settings.minimize_to_tray ==> r == (CloseAction::Exit {
            stop_video: p == Platform::Windows && settings.stop_video_on_exit,
        }),
{
    if settings.minimize_to_tray {
        CloseAction::HideToTray
    } else {
        CloseAction::Exit {
            stop_video: match p {
                Platform::Windows => settings.stop_video_on_exit,
                _ => false,
            },
        }
    }
}

/// The settings after a wallpaper was applied: it becomes the current one.
pub fn with_current_wallpaper(settings: Settings, wallpaper_id: &str) -> (r: Settings)
    ensures
        r == (Settings { current_wallpaper_id: r.current_wallpaper_id, ..settings }),
        r.current_wallpaper_id is Some && r.current_wallpaper_id->0@ == wallpaper_id@,
{
    let mut s = settings;
    s.current_wallpaper_id = Some(string_of(&chars_of(wallpaper_id)));
    s
}

/// The kinds of wallpaper a request may ask for.
#[derive(Clone, Copy, Debug, PartialEq, Eq, Structural)]
pub enum WallpaperType {
    Image,
    Video,
    Web,
}

/// The kind named by a request's type text.
pub open spec fn wallpaper_type_of(t: Seq<char>) -> Option<WallpaperType> {
    if t == "image"@ {
        Some(WallpaperType::Image)
    } else if t == "video"@ {
        Some(WallpaperType::Video)
    } else if t == "web"@ {
        Some(WallpaperType::Web)
    } else {
        None
    }
}

/// Reads a wallpaper type; an unknown one is refused with `Unsupported
/// wallpaper type`.
pub fn parse_wallpaper_type(t: &str) -> (r: Result<WallpaperType, String>)
    ensures
        match r {
            Ok(k) => wallpaper_type_of(t@) == Some(k),
            Err(e) => wallpaper_type_of(t@) is None && e@ == "Unsupported wallpaper type"@,
        },
{
    let v = chars_of(t);
    if chars_eq(&v, &chars_of("image")) {
        Ok(WallpaperType::Image)
    } else if chars_eq(&v, &chars_of("video")) {
        Ok(WallpaperType::Video)
    } else if chars_eq(&v, &chars_of("web")) {
        Ok(WallpaperType::Web)
    } else {
        Err(string_of(&chars_of("Unsupported wallpaper type")))
    }
}

/// On Windows a running video wallpaper is stopped before any other kind is
/// applied, or it would hide the new wallpaper.
pub fn stops_video_before_apply(p: Platform, wallpaper_type: &str) -> (r: bool)
    ensures
        r == (p == Platform::Windows && wallpaper_type@ != "video"@),
{
    match p {
        Platform::Windows => !chars_eq(&chars_of(wallpaper_type), &chars_of("video")),
        _ => false,
    }
}

/// Whether `p` occurs in `s` as a contiguous piece.
pub open spec fn contains_text(s: Seq<char>, p: Seq<char>) -> bool {
    exists|i: int| 0 <= i && i + p.len() <= s.len() && #[trigger] s.subrange(i, i + p.len()) == p
}

fn contains_piece(s: &[char], p: &[char]) -> (r: bool)
    ensures
        r == contains_text(s@, p@),
{
    let n = s.len();
    let m = p.len();
    if m == 0 {
        assert(s@.subrange(0int, 0int + p@.len()) =~= p@);
        return true;
    }
    if m > n {
        return false;
    }
    let stop = n - m + 1;
    let mut i: usize = 0;
    while i < stop
        invariant
            n == s@.len(),
            m == p@.len(),
            m >= 1,
            stop == n - m + 1,
            i <= stop,
            forall|j: int| 0 <= j < i ==> #[trigger] s@.subrange(j, j + p@.len()) != p@,
        decreases stop - i,
    {
        let mut k: usize = 0;
        let mut same = true;
        while k < m
            invariant
                n == s@.len(),
                m == p@.len(),
                i + m <= n,
                k <= m,
                same == (forall|t: int| 0 <= t < k ==> s@[i + t] == p@[t]),
            decreases m - k,
        {
            if s[i + k] != p[k] {
                same = false;
            }
            k += 1;
        }
        if same {
            assert(s@.subrange(i as int, i + p@.len()) =~= p@);
            return true;
        }
        assert(s@.subrange(i as int, i + p@.len()) != p@) by {
            let t = choose|t: int| 0 <= t < p@.len() && s@[i + t] != p@[t];
            assert(s@.subrange(i as int, i + p@.len())[t] == s@[i + t]);
        }
        i += 1;
    }
    proof {
        if contains_text(s@, p@) {
            let j = choose|j: int|
                0 <= j && j + p@.len() <= s@.len() && #[trigger] s@.subrange(j, j + p@.len()) == p@;
            assert(j < stop);
        }
    }
    false
}

/// How a failed apply is reported: on Linux, the refusal of video
/// wallpapers gets its own code (with an empty message); any other failure
/// is `APPLY_FAILED` with its message.
pub open spec fn apply_failure_is_unsupported_video(p: Platform, message: Seq<char>) -> bool {
    p == Platform::Linux && contains_text(message, "Video wallpaper is not supported on Linux"@)
}

/// The command result of a failed apply.
pub fn apply_failure_result(p: Platform, message: &str) -> (r: CommandResult<bool>)
    ensures
        !r.ok && r.data is None && r.error is Some,
        apply_failure_is_unsupported_video(p, message@) ==> r.error->0.code@
            == "VIDEO_WALLPAPER_NOT_SUPPORTED"@ && r.error->0.message@ == ""@,
        !apply_failure_is_unsupported_video(p, message@) ==> r.error->0.code@ == "APPLY_FAILED"@
            && r.error->0.message@ == message@,
{
    let linux = match p {
        Platform::Linux => true,
        _ => false,
    };
    if linux && contains_piece(
        &chars_of(message),
        &chars_of("Video wallpaper is not supported on Linux"),
    ) {
        return CommandResult::error("VIDEO_WALLPAPER_NOT_SUPPORTED", "");
    }
    CommandResult::error("APPLY_FAILED", message)
}

/// What a platform without its own video wallpaper says when asked for one.
pub open spec fn video_unsupported_message(p: Platform) -> Seq<char> {
    match p {
        Platform::Linux => "Video wallpaper is not supported on Linux GNOME Wayland yet"@,
        Platform::MacOs => "Video wallpaper is not implemented on macOS yet"@,
        _ => "Unsupported platform"@,
    }
}

/// Applying a video wallpaper where the platform has none: the error that
/// platform reports.
pub fn unsupported_video_wallpaper(p: Platform) -> (r: Result<(), String>)
    ensures
        r is Err && r->Err_0@ == video_unsupported_message(p),
{
    let m = match p {
        Platform::Linux => "Video wallpaper is not supported on Linux GNOME Wayland yet",
        Platform::MacOs => "Video wallpaper is not implemented on macOS yet",
        _ => "Unsupported platform",
    };
    Err(string_of(&chars_of(m)))
}

/// Applying an image wallpaper on a platform the application does not
/// support.
pub fn apply_image_wallpaper(_path: &str) -> (r: Result<(), String>)
    ensures
        r is Err && r->Err_0@ == "Unsupported platform"@,
{
    Err(string_of(&chars_of("Unsupported platform")))
}

/// The AppleScript that sets the desktop picture on macOS.
pub fn macos_wallpaper_script(path: &str) -> (r: String)
    ensures
        r@ == "tell application \"Finder\" to set desktop picture to POSIX file \""@ + path@
            + "\""@,
{
    let mut v = chars_of("tell application \"Finder\" to set desktop picture to POSIX file \"");
    append_chars(&mut v, &chars_of(path));
    append_chars(&mut v, &chars_of("\""));
    string_of(&v)
}

/// The `file://` URI that GNOME is given for an image.
pub fn gnome_picture_uri(path: &str) -> (r: String)
    ensures
        r@ == "file://"@ + path@,
{
    string_of(&concat_chars(&chars_of("file://"), &chars_of(path)))
}

/// A wallpaper engine that shows and stops one kind of wallpaper.
pub trait WallpaperEngine {
    fn apply(&self, path: &str) -> Result<(), String>;

    fn stop(&self) -> Result<(), String>;
}

/// The absolute value of `m` modulo 10000.
pub open spec fn tail4(m: i64) -> nat {
    let a: int = if m < 0 {
        -(m as int)
    } else {
        m as int
    };
    (a % 10000) as nat
}

/// `n` in decimal, padded with zeros to at least four digits (`{:04}`).
pub open spec fn pad4(n: nat) -> Seq<char> {
    let d = decimal(n);
    if d.len() >= 4 {
        d
    } else {
        Seq::new((4 - d.len()) as nat, |_i: int| '0') + d
    }
}

proof fn lemma_decimal_short(n: nat)
    requires
        n < 10000,
    ensures
        decimal(n).len() <= 4,
{
    reveal_with_fuel(decimal, 5);
    if n >= 10 {
        assert(decimal(n).len() == decimal(n / 10).len() + 1);
        if n / 10 >= 10 {
            assert(decimal(n / 10).len() == decimal(n / 10 / 10).len() + 1);
            if n / 10 / 10 >= 10 {
                assert(decimal(n / 10 / 10).len() == decimal(n / 10 / 10 / 10).len() + 1);
                assert(n / 10 / 10 / 10 < 10);
            }
        }
    }
}

proof fn lemma_zeros_value(z: Seq<char>)
    requires
        forall|i: int| 0 <= i < z.len() ==> z[i] == '0',
    ensures
        all_digits(z),
        digits_value(z) == 0,
    decreases z.len(),
{
    if z.len() > 0 {
        lemma_zeros_value(z.drop_last());
    }
}

proof fn lemma_leading_zeros_value(z: Seq<char>, d: Seq<char>)
    requires
        forall|i: int| 0 <= i < z.len() ==> z[i] == '0',
        all_digits(d),
    ensures
        all_digits(z + d),
        digits_value(z + d) == digits_value(d),
    decreases d.len(),
{
    if d.len() == 0 {
        lemma_zeros_value(z);
        assert(z + d =~= z);
    } else {
        lemma_leading_zeros_value(z, d.drop_last());
        assert((z + d).drop_last() =~= z + d.drop_last());
        assert((z + d).last() == d.last());
        assert forall|i: int| 0 <= i < (z + d).len() implies is_digit(#[trigger] (z + d)[i]) by {
            if i >= z.len() {
                assert((z + d)[i] == d[i - z.len()]);
            }
        }
    }
}

/// The name suffix of an import is the last four decimal digits of the
/// clock reading's magnitude: four ASCII digits, whose value is the
/// magnitude modulo 10000 (with leading zeros).
pub proof fn lemma_timestamp_tail(m: i64)
    ensures
        pad4(tail4(m)).len() == 4,
        all_digits(pad4(tail4(m))),
        digits_value(pad4(tail4(m))) == (if m < 0 {
            -(m as int)
        } else {
            m as int
        }) % 10000,
{
    let n = tail4(m);
    let d = decimal(n);
    lemma_decimal_reads_back(n);
    lemma_decimal_short(n);
    if d.len() < 4 {
        let z = Seq::new((4 - d.len()) as nat, |_i: int| '0');
        lemma_leading_zeros_value(z, d);
    }
}

/// Closing the main window: until the first close was settled the user is
/// asked, whatever else the settings say; afterwards the window hides in
/// the tray when the settings ask for it, and otherwise the application
/// exits, stopping the video wallpaper only on Windows and only when the
/// settings ask for that.
pub proof fn lemma_close_decisions(s: Settings, p: Platform)
    ensures
        !s.first_close_handled ==> close_action(s, p) == CloseAction::AskUser,
        s.first_close_handled && s.minimize_to_tray ==> close_action(s, p) == CloseAction::HideToTray,
        s.first_close_handled && !s.minimize_to_tray ==> close_action(s, p) == (CloseAction::Exit {
            stop_video: p == Platform::Windows && s.stop_video_on_exit,
        }),
{
}

/// An artifact that stays invalid is checked five times in all, with a
/// wait after each of the first four checks; a valid one is taken at once.
pub proof fn lemma_settle_checks(checks: u32, valid: bool)
    ensures
        valid ==> settle_step_spec(checks, valid) == SettleStep::Valid,
        !valid && 1 <= checks <= 4 ==> settle_step_spec(checks, valid) == SettleStep::WaitAndCheck,
        !valid && checks >= 5 ==> settle_step_spec(checks, valid) == SettleStep::GiveUp,
{
}

/// The step `settle_step` takes, as its contract states it.
pub open spec fn settle_step_spec(checks: u32, valid: bool) -> SettleStep {
    if valid {
        SettleStep::Valid
    } else if checks < settle_checks() {
        SettleStep::WaitAndCheck
    } else {
        SettleStep::GiveUp
    }
}

/// The last four decimal digits of a millisecond clock reading, as the
/// suffix of an imported file's name.
pub fn timestamp_tail4(millis: i64) -> (r: String)
    ensures
        r@ == pad4(tail4(millis)),
{
    let a: u64 = if millis < 0 {
        ((-(millis + 1)) as u64) + 1
    } else {
        millis as u64
    };
    let t: u64 = a % 10000;
    let d = decimal_chars(t);
    let mut v: Vec<char> = Vec::new();
    let mut k: usize = d.len();
    while k < 4
        invariant
            d.len() <= k <= 4 || (d.len() >= 4 && k == d.len()),
            v@ == Seq::new((k - d.len()) as nat, |_i: int| '0'),
        decreases 4 - k,
    {
        v.push('0');
        k += 1;
        assert(v@ =~= Seq::new((k - d.len()) as nat, |_i: int| '0'));
    }
    append_chars(&mut v, &d);
    proof {
        if d@.len() >= 4 {
            assert(v@ =~= d@);
        }
    }
    string_of(&v)
}

/// The extension of a file to import, in lower case (empty when it has
/// none).
pub open spec fn import_extension(p: Seq<char>) -> Seq<char> {
    lowercase(
        match extension(p) {
            Some(e) => e,
            None => Seq::empty(),
        },
    )
}

/// Whether a file can be imported: its lower case extension names an image
/// or a video format; else `Unsupported format: <ext>`.
pub fn check_import_format(source_path: &str, platform: Platform) -> (r: Result<String, String>)
    ensures
        ({
            let x = import_extension(native(source_path@, platform));
            match r {
                Ok(e) => e@ == x && (is_image_format(e@) || is_video_format(e@)),
                Err(m) => !(is_image_format(x) || is_video_format(x)) && m@
                    == "Unsupported format: "@ + x,
            }
        }),
{
    let e = match extension_of(&native_chars(&chars_of(source_path), platform)) {
        Some(e) => e,
        None => Vec::new(),
    };
    let l = lowercase_chars(&e);
    if is_image_format_ext(&l) || is_video_format_ext(&l) {
        Ok(string_of(&l))
    } else {
        Err(string_of(&concat_chars(&chars_of("Unsupported format: "), &l)))
    }
}

/// The name of an imported copy: `<stem>-<tail>.<ext>`, or
/// `<stem>-<tail>-<i>.<ext>` for the `i`-th try when that name is taken.
pub open spec fn import_name(stem: Seq<char>, tail: Seq<char>, ext: Seq<char>, attempt: Option<u32>) -> Seq<char> {
    match attempt {
        None => stem + "-"@ + tail + "."@ + ext,
        Some(i) => stem + "-"@ + tail + "-"@ + decimal(i as nat) + "."@ + ext,
    }
}

/// The path of an imported copy in the resource directory.
pub fn import_dest_path(dest_dir: &str, safe_stem: &str, tail: &str, ext: &str, attempt: Option<u32>) -> (r: String)
    ensures
        r@ == join(dest_dir@, import_name(safe_stem@, tail@, ext@, attempt)),
{
    let mut v = chars_of(safe_stem);
    append_chars(&mut v, &chars_of("-"));
    append_chars(&mut v, &chars_of(tail));
    match attempt {
        Some(i) => {
            append_chars(&mut v, &chars_of("-"));
            append_chars(&mut v, &decimal_chars(i as u64));
        },
        None => {},
    }
    append_chars(&mut v, &chars_of("."));
    append_chars(&mut v, &chars_of(ext));
    string_of(&join_chars(&chars_of(dest_dir), &v))
}

/// The stem of a file to import, `untitled` when it has none.
pub open spec fn import_stem(p: Seq<char>) -> Seq<char> {
    match file_stem(p) {
        Some(s) => s,
        None => "untitled"@,
    }
}

/// The stem of a source file (a path of the platform), before sanitizing.
pub fn source_stem(source_path: &str, platform: Platform) -> (r: String)
    ensures
        r@ == import_stem(native(source_path@, platform)),
{
    match file_stem_of(&native_chars(&chars_of(source_path), platform)) {
        Some(s) => string_of(&s),
        None => string_of(&chars_of("untitled")),
    }
}

/// The name of the `i`-th alternative for a download whose name is taken:
/// `<stem>-<i>.<ext>`, or `<stem>-<i>` when the name has no extension (the
/// stem being `download` when the name has none).
pub open spec fn download_alternative(file_name: Seq<char>, i: u32) -> Seq<char> {
    let stem = match file_stem(file_name) {
        Some(s) => s,
        None => "download"@,
    };
    match extension(file_name) {
        Some(e) => stem + "-"@ + decimal(i as nat) + "."@ + e,
        None => stem + "-"@ + decimal(i as nat),
    }
}

/// The path of the `i`-th alternative name for a download.
pub fn download_candidate(downloads_dir: &str, file_name: &str, i: u32) -> (r: String)
    ensures
        r@ == join(downloads_dir@, download_alternative(file_name@, i)),
{
    let f = chars_of(file_name);
    let mut v = match file_stem_of(&f) {
        Some(s) => s,
        None => chars_of("download"),
    };
    append_chars(&mut v, &chars_of("-"));
    append_chars(&mut v, &decimal_chars(i as u64));
    match extension_of(&f) {
        Some(e) => {
            append_chars(&mut v, &chars_of("."));
            append_chars(&mut v, &e);
        },
        None => {},
    }
    string_of(&join_chars(&chars_of(downloads_dir), &v))
}

/// A generated thumbnail that is a video (its path, in lower case, ends in
/// `.mp4` or `.webm`) is sent as `video:<path>`.
pub open spec fn is_video_thumbnail(p: Seq<char>) -> bool {
    has_suffix(lowercase(p), ".mp4"@) || has_suffix(lowercase(p), ".webm"@)
}

/// Whether a generated thumbnail is a video.
pub fn video_thumbnail(p: &str) -> (r: bool)
    ensures
        r == is_video_thumbnail(p@),
{
    let l = lowercase_chars(&chars_of(p));
    ends_with(&l, &chars_of(".mp4")) || ends_with(&l, &chars_of(".webm"))
}

/// What the thumbnail-path command answers for a generated thumbnail.
pub fn thumbnail_reply(generated: &str) -> (r: String)
    ensures
        is_video_thumbnail(generated@) ==> r@ == "video:"@ + generated@,
        !is_video_thumbnail(generated@) ==> r@ == generated@,
{
    if video_thumbnail(generated) {
        string_of(&concat_chars(&chars_of("video:"), &chars_of(generated)))
    } else {
        string_of(&chars_of(generated))
    }
}

/// A JPEG image as a data URL.
pub fn jpeg_data_url(data: &[u8]) -> (r: String)
    requires
        data@.len() / 3 * 4 + 4 <= usize::MAX,
    ensures
        r@ == "data:image/jpeg;base64,"@ + base64_standard(data@),
{
    string_of(&concat_chars(&chars_of("data:image/jpeg;base64,"), &base64_encode(data)))
}

/// A file as a data URL of the given MIME type.
pub fn data_url(mime: &str, data: &[u8]) -> (r: String)
    requires
        data@.len() / 3 * 4 + 4 <= usize::MAX,
    ensures
        r@ == "data:"@ + mime@ + ";base64,"@ + base64_standard(data@),
{
    let mut v = chars_of("data:");
    append_chars(&mut v, &chars_of(mime));
    append_chars(&mut v, &chars_of(";base64,"));
    append_chars(&mut v, &base64_encode(data));
    string_of(&v)
}

/// The record used to ask for the thumbnail of a file: only its id and path
/// are known.
pub fn probe_wallpaper(id: &str, source_path: &str) -> (r: Wallpaper)
    ensures
        r.id@ == id@,
        r.local_path@ == source_path@,
        r.title@.len() == 0,
        r.thumbnail_path is None,
        r.resolution is None,
        r.file_size is None,
        r.metadata is None,
        r.import_time@.len() == 0,
{
    Wallpaper {
        id: string_of(&chars_of(id)),
        title: string_of(&Vec::new()),
        local_path: string_of(&chars_of(source_path)),
        thumbnail_path: None,
        resolution: None,
        file_size: None,
        metadata: None,
        import_time: string_of(&Vec::new()),
    }
}

/// Whether the settings file must be (re)written: it is missing or blank,
/// or its content does not read as settings (`parses`).
pub fn settings_file_needs_write(content: Option<&str>, parses: bool) -> (r: bool)
    ensures
        match content {
            None => r,
            Some(c) => r == (trim(c@).len() == 0 || !parses),
        },
{
    match content {
        None => true,
        Some(c) => trim_chars(&chars_of(c)).len() == 0 || !parses,
    }
}

/// Whether the settings of an older version are moved: only when the
/// current settings file is missing and the old one exists.
pub fn should_migrate_legacy_settings(current_exists: bool, legacy_exists: bool) -> (r: bool)
    ensures
        r == (!current_exists && legacy_exists),
{
    !current_exists && legacy_exists
}

/// A file is a usable video artifact only if it is a regular file of more
/// than 1024 bytes.
pub fn artifact_size_ok(is_file: bool, len: u64) -> (r: bool)
    ensures
        r == (is_file && len > 1024),
{
    is_file && len > 1024
}

/// Whether a video artifact is usable: a regular file of more than 1024
/// bytes, and, where ffprobe is bundled (`probed` is `Some`), one in which
/// it found a video stream (`Some(n)` with `n > 0` streams; `None` when it
/// failed or its report could not be read).
pub fn video_artifact_valid(is_file: bool, len: u64, probed: Option<Option<usize>>) -> (r: bool)
    ensures
        r == (is_file && len > 1024 && match probed {
            None => true,
            Some(None) => false,
            Some(Some(n)) => n > 0,
        }),
{
    if !artifact_size_ok(is_file, len) {
        return false;
    }
    match probed {
        None => true,
        Some(None) => false,
        Some(Some(n)) => n > 0,
    }
}

/// What to do after the `checks`-th check of a video artifact that another
/// writer may still be finishing.
#[derive(Clone, Copy, Debug, PartialEq, Eq, Structural)]
pub enum SettleStep {
    /// It is valid.
    Valid,
    /// Wait `settle_delay_ms` and check again.
    WaitAndCheck,
    /// It stayed invalid through every check.
    GiveUp,
}

/// The checks of an artifact: the first, then up to 4 more.
pub open spec fn settle_checks() -> nat {
    5
}

/// The wait between two checks of an artifact, in milliseconds.
pub fn settle_delay_ms() -> (r: u64)
    ensures
        r == 150,
{
    150
}

/// The step after the `checks`-th check (counting from 1) found the
/// artifact `valid` or not.
pub fn settle_step(checks: u32, valid: bool) -> (r: SettleStep)
    ensures
        r == settle_step_spec(checks, valid),
        valid ==> r == SettleStep::Valid,
        !valid && checks < settle_checks() ==> r == SettleStep::WaitAndCheck,
        !valid && checks >= settle_checks() ==> r == SettleStep::GiveUp,
{
    if valid {
        SettleStep::Valid
    } else if checks < 5 {
        SettleStep::WaitAndCheck
    } else {
        SettleStep::GiveUp
    }
}

/// Where a download is written on a try: its own name first (`attempt` is
/// `None`), then the `i`-th alternative.
pub fn download_path(downloads_dir: &str, file_name: &str, attempt: Option<u32>) -> (r: String)
    ensures
        r@ == match attempt {
            None => join(downloads_dir@, file_name@),
            Some(i) => join(downloads_dir@, download_alternative(file_name@, i)),
        },
{
    match attempt {
        None => string_of(&join_chars(&chars_of(downloads_dir), &chars_of(file_name))),
        Some(i) => download_candidate(downloads_dir, file_name, i),
    }
}

/// The try after one whose name was taken: the first alternative after the
/// own name, then each next; `None` once no alternative is left, so that a
/// taken name is never written over.
pub fn next_download_attempt(attempt: Option<u32>) -> (r: Option<u32>)
    ensures
        r == match attempt {
            None => Some(1u32),
            Some(i) => if i < u32::MAX {
                Some((i + 1) as u32)
            } else {
                None
            },
        },
{
    match attempt {
        None => Some(1),
        Some(i) => if i < u32::MAX {
            Some(i + 1)
        } else {
            None
        },
    }
}

/// The reply when no wallpaper has the requested id.
pub fn wallpaper_not_found<T>() -> (r: CommandResult<T>)
    ensures
        !r.ok && r.data is None && r.error is Some,
        r.error->0.code@ == "NOT_FOUND"@ && r.error->0.message@ == "Wallpaper not found"@,
{
    CommandResult::error("NOT_FOUND", "Wallpaper not found")
}

} // verus!
