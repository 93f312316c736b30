//! Thumbnails and previews: which file stands for a wallpaper in the list,
//! and what to look at or make when it is missing.
use vstd::prelude::*;
use crate::index::{metadata_resolution, resolution_from_metadata};
use crate::layout::{
    get_thumbnail_path_for_id, get_video_preview_path_for_id, id_file_name, preview_suffix,
    previews_dir, thumbnails_dir, Platform,
};
use crate::media::{is_video, is_video_path};
use crate::models::{copy_string, Wallpaper};
use crate::paths::{join, native};
use crate::text::{chars_eq, chars_of};

verus! {

/// Platforms that make video previews (Linux and Windows); elsewhere the
/// video itself stands as its preview.
pub open spec fn makes_previews(p: Platform) -> bool {
    p == Platform::Linux || p == Platform::Windows
}

/// What to make when a wallpaper has no usable thumbnail.
pub enum ThumbnailJob {
    /// Make (or find) the video preview.
    VideoPreview,
    /// The wallpaper's own file is its thumbnail.
    UseSource(String),
    /// Make the image thumbnail at this path, unless it exists.
    ImageThumbnail(String),
}

/// The thumbnail job of a wallpaper: a video gets a preview where the
/// platform makes them and is its own thumbnail elsewhere; an image gets a
/// thumbnail file named by its id.
pub fn thumbnail_job(data_dir: &str, w: &Wallpaper, p: Platform) -> (r: ThumbnailJob)
    ensures
        is_video(native(w.local_path@, p)) && makes_previews(p) ==> r is VideoPreview,
        is_video(native(w.local_path@, p)) && !makes_previews(p) ==> (r matches ThumbnailJob::UseSource(s)
            && s@ == w.local_path@),
        !is_video(native(w.local_path@, p)) ==> (r matches ThumbnailJob::ImageThumbnail(t) && t@ == join(
            thumbnails_dir(data_dir@),
            id_file_name(w.id@, ".jpg"@),
        )),
{
    if is_video_path(w.local_path.as_str(), p) {
        match p {
            Platform::Linux | Platform::Windows => ThumbnailJob::VideoPreview,
            _ => ThumbnailJob::UseSource(copy_string(&w.local_path)),
        }
    } else {
        ThumbnailJob::ImageThumbnail(get_thumbnail_path_for_id(data_dir, w.id.as_str()))
    }
}

/// Where to look when a wallpaper's stored thumbnail is missing or broken.
pub enum ThumbnailFallback {
    /// Check the video preview that its id names.
    CheckPreview(String),
    /// Use the wallpaper's own file.
    UseSource,
    /// Check the image thumbnail that its id names.
    CheckThumbnail(String),
}

/// The file to look at before making a thumbnail anew.
pub fn thumbnail_fallback(data_dir: &str, w: &Wallpaper, p: Platform) -> (r: ThumbnailFallback)
    ensures
        is_video(native(w.local_path@, p)) && makes_previews(p) ==> (r matches ThumbnailFallback::CheckPreview(
            s,
        ) && s@ == join(previews_dir(data_dir@), id_file_name(w.id@, preview_suffix(p)))),
        is_video(native(w.local_path@, p)) && !makes_previews(p) ==> r is UseSource,
        !is_video(native(w.local_path@, p)) ==> (r matches ThumbnailFallback::CheckThumbnail(t) && t@ == join(
            thumbnails_dir(data_dir@),
            id_file_name(w.id@, ".jpg"@),
        )),
{
    if is_video_path(w.local_path.as_str(), p) {
        match p {
            Platform::Linux | Platform::Windows => ThumbnailFallback::CheckPreview(
                get_video_preview_path_for_id(data_dir, w.id.as_str(), p),
            ),
            _ => ThumbnailFallback::UseSource,
        }
    } else {
        ThumbnailFallback::CheckThumbnail(get_thumbnail_path_for_id(data_dir, w.id.as_str()))
    }
}

/// Gives a wallpaper without a resolution the one its metadata knows;
/// tells whether it changed.
pub fn refresh_resolution(w: &mut Wallpaper) -> (changed: bool)
    ensures
        *final(w) == (Wallpaper { resolution: final(w).resolution, ..*old(w) }),
        changed == (old(w).resolution is None && metadata_resolution(old(w).metadata) is Some),
        changed ==> final(w).resolution is Some && final(w).resolution->0@ == metadata_resolution(
            old(w).metadata,
        )->0,
        !changed ==> final(w).resolution == old(w).resolution,
{
    if w.resolution.is_some() {
        return false;
    }
    match resolution_from_metadata(&w.metadata) {
        Some(r) => {
            w.resolution = Some(r);
            true
        },
        None => false,
    }
}

/// The first step of the preview warm-up for one wallpaper.
pub enum WarmStart {
    /// Not a video: nothing to do.
    Skip,
    /// No preview recorded: make one.
    Generate,
    /// Check that the recorded preview is a valid video.
    CheckCurrent(String),
}

/// How the preview warm-up starts on a wallpaper.
pub fn warm_start(w: &Wallpaper, p: Platform) -> (r: WarmStart)
    ensures
        !is_video(native(w.local_path@, p)) ==> r is Skip,
        is_video(native(w.local_path@, p)) && (w.thumbnail_path is None || w.thumbnail_path->0@.len() == 0)
            ==> r is Generate,
        is_video(native(w.local_path@, p)) && w.thumbnail_path is Some && w.thumbnail_path->0@.len() > 0
            ==> (r matches WarmStart::CheckCurrent(c) && c == w.thumbnail_path->0),
{
    if !is_video_path(w.local_path.as_str(), p) {
        return WarmStart::Skip;
    }
    match &w.thumbnail_path {
        Some(c) => if c.as_str().is_empty() {
            WarmStart::Generate
        } else {
            WarmStart::CheckCurrent(copy_string(c))
        },
        None => WarmStart::Generate,
    }
}

/// The step after the recorded preview was checked.
pub enum WarmNext {
    /// It is broken: make a new one.
    Generate,
    /// It is valid and already has the name its id gives: nothing to do.
    Skip,
    /// It is valid but named otherwise: check the file its id names.
    CheckDesired,
}

/// The warm-up step after checking the recorded preview `current`
/// (`current_valid`), where `desired` is the preview file its id names.
pub fn warm_after_current(current: &str, desired: &str, current_valid: bool) -> (r: WarmNext)
    ensures
        !current_valid ==> r is Generate,
        current_valid && current@ == desired@ ==> r is Skip,
        current_valid && current@ != desired@ ==> r is CheckDesired,
{
    if !current_valid {
        WarmNext::Generate
    } else if chars_eq(&chars_of(current), &chars_of(desired)) {
        WarmNext::Skip
    } else {
        WarmNext::CheckDesired
    }
}

} // verus!
