//! Which files are wallpapers: the image and video formats the library
//! accepts, told apart by file extension, and the MIME types it serves them
//! with.
use vstd::prelude::*;
use crate::external::{lowercase, lowercase_chars};
use crate::layout::Platform;
use crate::paths::{extension, extension_of, native, native_chars};
use crate::text::{ascii_lower_seq, chars_eq, chars_of, string_of, to_ascii_lower};

verus! {

/// The image formats: jpg, jpeg, png, gif, bmp, webp, tiff, ico, svg.
pub open spec fn is_image_format(e: Seq<char>) -> bool {
    ||| e == "jpg"@
    ||| e == "jpeg"@
    ||| e == "png"@
    ||| e == "gif"@
    ||| e == "bmp"@
    ||| e == "webp"@
    ||| e == "tiff"@
    ||| e == "ico"@
    ||| e == "svg"@
}

/// The video formats: mp4, webm, mkv, avi, mov, wmv, flv, m4v.
pub open spec fn is_video_format(e: Seq<char>) -> bool {
    ||| e == "mp4"@
    ||| e == "webm"@
    ||| e == "mkv"@
    ||| e == "avi"@
    ||| e == "mov"@
    ||| e == "wmv"@
    ||| e == "flv"@
    ||| e == "m4v"@
}

/// The extension of a path in lower case, or the empty text when it has
/// none.
pub open spec fn lower_extension(p: Seq<char>) -> Seq<char> {
    lowercase(
        match extension(p) {
            Some(e) => e,
            None => Seq::empty(),
        },
    )
}

/// A path whose extension names a video format.
pub open spec fn is_video(p: Seq<char>) -> bool {
    is_video_format(lower_extension(p))
}

/// A path whose extension names an image or a video format, and is not a
/// Windows shortcut (`lnk` in any ASCII case).
pub open spec fn is_supported_media(p: Seq<char>) -> bool {
    let e = match extension(p) {
        Some(e) => e,
        None => Seq::empty(),
    };
    &&& ascii_lower_seq(e) != "lnk"@
    &&& is_image_format(lowercase(e)) || is_video_format(lowercase(e))
}

fn eq_lit(e: &[char], lit: &str) -> (r: bool)
    ensures
        r == (e@ == lit@),
{
    chars_eq(e, &chars_of(lit))
}

/// Whether a lower case extension names an image format.
pub fn is_image_format_ext(e: &[char]) -> (r: bool)
    ensures
        r == is_image_format(e@),
{
    eq_lit(e, "jpg") || eq_lit(e, "jpeg") || eq_lit(e, "png") || eq_lit(e, "gif") || eq_lit(
        e,
        "bmp",
    ) || eq_lit(e, "webp") || eq_lit(e, "tiff") || eq_lit(e, "ico") || eq_lit(e, "svg")
}

/// Whether a lower case extension names a video format.
pub fn is_video_format_ext(e: &[char]) -> (r: bool)
    ensures
        r == is_video_format(e@),
{
    eq_lit(e, "mp4") || eq_lit(e, "webm") || eq_lit(e, "mkv") || eq_lit(e, "avi") || eq_lit(
        e,
        "mov",
    ) || eq_lit(e, "wmv") || eq_lit(e, "flv") || eq_lit(e, "m4v")
}

/// The extension of a path, or nothing.
pub(crate) fn extension_or_empty(p: &[char]) -> (r: Vec<char>)
    ensures
        r@ == match extension(p@) {
            Some(e) => e,
            None => Seq::empty(),
        },
{
    match extension_of(p) {
        Some(e) => e,
        None => Vec::new(),
    }
}

/// The lower case extension of a path of the platform.
pub fn lower_extension_of(p: &str, platform: Platform) -> (r: String)
    ensures
        r@ == lower_extension(native(p@, platform)),
{
    let e = extension_or_empty(&native_chars(&chars_of(p), platform));
    string_of(&lowercase_chars(&e))
}

/// Whether a path names a video file.
pub fn is_video_path(p: &str, platform: Platform) -> (r: bool)
    ensures
        r == is_video(native(p@, platform)),
{
    let e = extension_or_empty(&native_chars(&chars_of(p), platform));
    is_video_format_ext(&lowercase_chars(&e))
}

/// Whether a path names a file the library can import, judged by its name
/// alone (the caller checks that it is a regular file).
pub fn is_supported_media_path(p: &str, platform: Platform) -> (r: bool)
    ensures
        r == is_supported_media(native(p@, platform)),
{
    let e = extension_or_empty(&native_chars(&chars_of(p), platform));
    if eq_lit(&to_ascii_lower(&e), "lnk") {
        return false;
    }
    let l = lowercase_chars(&e);
    is_image_format_ext(&l) || is_video_format_ext(&l)
}

/// The MIME type the media server sends for a lower case extension.
pub open spec fn served_mime(e: Seq<char>) -> Seq<char> {
    if e == "webm"@ {
        "video/webm"@
    } else if e == "mp4"@ {
        "video/mp4"@
    } else if e == "mkv"@ {
        "video/x-matroska"@
    } else if e == "mov"@ {
        "video/quicktime"@
    } else if e == "avi"@ {
        "video/x-msvideo"@
    } else if e == "jpg"@ || e == "jpeg"@ {
        "image/jpeg"@
    } else if e == "png"@ {
        "image/png"@
    } else if e == "webp"@ {
        "image/webp"@
    } else if e == "gif"@ {
        "image/gif"@
    } else {
        "application/octet-stream"@
    }
}

/// The MIME type of a file the media server sends.
pub fn guess_mime(p: &str, platform: Platform) -> (r: String)
    ensures
        r@ == served_mime(lower_extension(native(p@, platform))),
{
    let e = chars_of(lower_extension_of(p, platform).as_str());
    let m = if eq_lit(&e, "webm") {
        "video/webm"
    } else if eq_lit(&e, "mp4") {
        "video/mp4"
    } else if eq_lit(&e, "mkv") {
        "video/x-matroska"
    } else if eq_lit(&e, "mov") {
        "video/quicktime"
    } else if eq_lit(&e, "avi") {
        "video/x-msvideo"
    } else if eq_lit(&e, "jpg") || eq_lit(&e, "jpeg") {
        "image/jpeg"
    } else if eq_lit(&e, "png") {
        "image/png"
    } else if eq_lit(&e, "webp") {
        "image/webp"
    } else if eq_lit(&e, "gif") {
        "image/gif"
    } else {
        "application/octet-stream"
    };
    string_of(&chars_of(m))
}

/// The MIME type of a video sent inline as a data URL.
pub open spec fn inline_video_mime(e: Seq<char>) -> Seq<char> {
    if e == "mp4"@ {
        "video/mp4"@
    } else if e == "webm"@ {
        "video/webm"@
    } else if e == "mkv"@ {
        "video/x-matroska"@
    } else if e == "mov"@ {
        "video/quicktime"@
    } else if e == "avi"@ {
        "video/x-msvideo"@
    } else {
        "application/octet-stream"@
    }
}

/// The MIME type of a video file sent inline.
pub fn video_mime(p: &str, platform: Platform) -> (r: String)
    ensures
        r@ == inline_video_mime(lower_extension(native(p@, platform))),
{
    let e = chars_of(lower_extension_of(p, platform).as_str());
    let m = if eq_lit(&e, "mp4") {
        "video/mp4"
    } else if eq_lit(&e, "webm") {
        "video/webm"
    } else if eq_lit(&e, "mkv") {
        "video/x-matroska"
    } else if eq_lit(&e, "mov") {
        "video/quicktime"
    } else if eq_lit(&e, "avi") {
        "video/x-msvideo"
    } else {
        "application/octet-stream"
    };
    string_of(&chars_of(m))
}

/// What kind of wallpaper a file is, judged by its lower case extension.
#[derive(Clone, Copy, Debug, PartialEq, Eq, Structural)]
pub enum MediaKind {
    Image,
    Video,
}

/// The kind of a lower case extension, if it names an accepted format.
pub open spec fn kind_of_extension(e: Seq<char>) -> Option<MediaKind> {
    if is_image_format(e) {
        Some(MediaKind::Image)
    } else if is_video_format(e) {
        Some(MediaKind::Video)
    } else {
        None
    }
}

/// The kind of wallpaper a path names, if any.
pub fn media_kind_of(p: &str, platform: Platform) -> (r: Option<MediaKind>)
    ensures
        r == kind_of_extension(lower_extension(native(p@, platform))),
{
    let e = chars_of(lower_extension_of(p, platform).as_str());
    if is_image_format_ext(&e) {
        Some(MediaKind::Image)
    } else if is_video_format_ext(&e) {
        Some(MediaKind::Video)
    } else {
        None
    }
}

/// The kinds of file the library takes, by lower case extension: an image
/// is exactly one of jpg, jpeg, png, gif, bmp, webp, tiff, ico and svg, a
/// video exactly one of mp4, webm, mkv, avi, mov, wmv, flv and m4v, and
/// every other extension names no kind.
pub proof fn lemma_kinds_of_extensions(e: Seq<char>)
    ensures
        kind_of_extension(e) == Some(MediaKind::Image) <==> set![
            "jpg"@,
            "jpeg"@,
            "png"@,
            "gif"@,
            "bmp"@,
            "webp"@,
            "tiff"@,
            "ico"@,
            "svg"@,
        ].contains(e),
        kind_of_extension(e) == Some(MediaKind::Video) <==> !set![
            "jpg"@,
            "jpeg"@,
            "png"@,
            "gif"@,
            "bmp"@,
            "webp"@,
            "tiff"@,
            "ico"@,
            "svg"@,
        ].contains(e) && set![
            "mp4"@,
            "webm"@,
            "mkv"@,
            "avi"@,
            "mov"@,
            "wmv"@,
            "flv"@,
            "m4v"@,
        ].contains(e),
        is_image_format(e) || is_video_format(e) <==> set![
            "jpg"@,
            "jpeg"@,
            "png"@,
            "gif"@,
            "bmp"@,
            "webp"@,
            "tiff"@,
            "ico"@,
            "svg"@,
            "mp4"@,
            "webm"@,
            "mkv"@,
            "avi"@,
            "mov"@,
            "wmv"@,
            "flv"@,
            "m4v"@,
        ].contains(e),
{
}

/// A path names a file the library takes exactly when its extension is
/// not `lnk` (in any ASCII case) and, in lower case, names an image or a
/// video format; a video path is one whose lower case extension is one of
/// mp4, webm, mkv, avi, mov, wmv, flv and m4v.
pub proof fn lemma_supported_paths(p: Seq<char>)
    ensures
        is_supported_media(p) <==> ascii_lower_seq(
            match extension(p) {
                Some(e) => e,
                None => Seq::empty(),
            },
        ) != "lnk"@ && set![
            "jpg"@,
            "jpeg"@,
            "png"@,
            "gif"@,
            "bmp"@,
            "webp"@,
            "tiff"@,
            "ico"@,
            "svg"@,
            "mp4"@,
            "webm"@,
            "mkv"@,
            "avi"@,
            "mov"@,
            "wmv"@,
            "flv"@,
            "m4v"@,
        ].contains(lower_extension(p)),
        is_video(p) <==> set![
            "mp4"@,
            "webm"@,
            "mkv"@,
            "avi"@,
            "mov"@,
            "wmv"@,
            "flv"@,
            "m4v"@,
        ].contains(lower_extension(p)),
{
    lemma_kinds_of_extensions(lower_extension(p));
}

/// The MIME types the media server sends: webm, mp4, mkv, mov and avi as
/// their video types, jpg and jpeg as `image/jpeg`, png, webp and gif as
/// their image types, and anything else as `application/octet-stream`.
/// Inline videos use the same video types and octet-stream otherwise.
pub proof fn lemma_mime_types(e: Seq<char>)
    ensures
        e == "webm"@ ==> served_mime(e) == "video/webm"@ && inline_video_mime(e) == "video/webm"@,
        e == "mp4"@ ==> served_mime(e) == "video/mp4"@ && inline_video_mime(e) == "video/mp4"@,
        e == "mkv"@ ==> served_mime(e) == "video/x-matroska"@ && inline_video_mime(e)
            == "video/x-matroska"@,
        e == "mov"@ ==> served_mime(e) == "video/quicktime"@ && inline_video_mime(e)
            == "video/quicktime"@,
        e == "avi"@ ==> served_mime(e) == "video/x-msvideo"@ && inline_video_mime(e)
            == "video/x-msvideo"@,
        e == "jpg"@ || e == "jpeg"@ ==> served_mime(e) == "image/jpeg"@,
        e == "png"@ ==> served_mime(e) == "image/png"@,
        e == "webp"@ ==> served_mime(e) == "image/webp"@,
        e == "gif"@ ==> served_mime(e) == "image/gif"@,
        !set!["webm"@, "mp4"@, "mkv"@, "mov"@, "avi"@, "jpg"@, "jpeg"@, "png"@, "webp"@, "gif"@].contains(
            e,
        ) ==> served_mime(e) == "application/octet-stream"@,
        !set!["webm"@, "mp4"@, "mkv"@, "mov"@, "avi"@].contains(e) ==> inline_video_mime(e)
            == "application/octet-stream"@,
{
    reveal_strlit("webm");
    reveal_strlit("mp4");
    reveal_strlit("mkv");
    reveal_strlit("mov");
    reveal_strlit("avi");
    reveal_strlit("jpg");
    reveal_strlit("jpeg");
    reveal_strlit("png");
    reveal_strlit("webp");
    reveal_strlit("gif");
    if e.len() >= 3 {
        let (c0, c1, c2) = (e[0], e[1], e[2]);
        assert(e.len() == e.len() && c0 == e[0] && c1 == e[1] && c2 == e[2]);
    }
    if e.len() >= 4 {
        let c3 = e[3];
        assert(c3 == e[3]);
    }
}

} // verus!
