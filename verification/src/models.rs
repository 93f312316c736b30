//! The records the application stores and exchanges: wallpapers, the
//! library index, settings, the discover history and command results.
use vstd::prelude::*;
use crate::text::{chars_of, string_of};

verus! {

/// Copies a string.
pub fn copy_string(s: &String) -> (r: String)
    ensures
        r == *s,
{
    s.clone()
}

/// Copies an optional string.
pub fn copy_opt_string(s: &Option<String>) -> (r: Option<String>)
    ensures
        r == *s,
{
    match s {
        Some(v) => Some(v.clone()),
        None => None,
    }
}

/// What probing a media file found. The two real-valued figures (duration
/// in seconds and frames per second) are carried as the bit patterns of
/// their IEEE 754 `f64` values, unchanged; nothing here reads them.
#[derive(Clone, Debug)]
pub struct MediaMetadata {
    pub width: Option<u32>,
    pub height: Option<u32>,
    pub format_name: Option<String>,
    pub duration_sec_bits: Option<u64>,
    pub bit_rate: Option<u64>,
    pub video_codec: Option<String>,
    pub pix_fmt: Option<String>,
    pub fps_bits: Option<u64>,
    pub audio_codec: Option<String>,
    pub sample_rate: Option<u32>,
    pub channels: Option<u32>,
}

impl MediaMetadata {
    /// Metadata with nothing known.
    pub fn empty() -> (r: Self)
        ensures
            r.width is None && r.height is None && r.format_name is None,
            r.duration_sec_bits is None && r.bit_rate is None && r.video_codec is None,
            r.pix_fmt is None && r.fps_bits is None && r.audio_codec is None,
            r.sample_rate is None && r.channels is None,
    {
        MediaMetadata {
            width: None,
            height: None,
            format_name: None,
            duration_sec_bits: None,
            bit_rate: None,
            video_codec: None,
            pix_fmt: None,
            fps_bits: None,
            audio_codec: None,
            sample_rate: None,
            channels: None,
        }
    }

    /// An exact copy.
    pub fn duplicate(&self) -> (r: Self)
        ensures
            r == *self,
    {
        MediaMetadata {
            width: self.width,
            height: self.height,
            format_name: copy_opt_string(&self.format_name),
            duration_sec_bits: self.duration_sec_bits,
            bit_rate: self.bit_rate,
            video_codec: copy_opt_string(&self.video_codec),
            pix_fmt: copy_opt_string(&self.pix_fmt),
            fps_bits: self.fps_bits,
            audio_codec: copy_opt_string(&self.audio_codec),
            sample_rate: self.sample_rate,
            channels: self.channels,
        }
    }
}

impl Default for MediaMetadata {
    fn default() -> (r: Self)
        ensures
            r.width is None && r.height is None && r.format_name is None,
            r.duration_sec_bits is None && r.bit_rate is None && r.video_codec is None,
            r.pix_fmt is None && r.fps_bits is None && r.audio_codec is None,
            r.sample_rate is None && r.channels is None,
    {
        MediaMetadata::empty()
    }
}

/// A wallpaper of the library.
#[derive(Clone, Debug)]
pub struct Wallpaper {
    pub id: String,
    pub title: String,
    pub local_path: String,
    pub thumbnail_path: Option<String>,
    pub resolution: Option<String>,
    pub file_size: Option<u64>,
    pub metadata: Option<MediaMetadata>,
    pub import_time: String,
}

impl Wallpaper {
    /// An exact copy.
    pub fn duplicate(&self) -> (r: Self)
        ensures
            r == *self,
    {
        Wallpaper {
            id: copy_string(&self.id),
            title: copy_string(&self.title),
            local_path: copy_string(&self.local_path),
            thumbnail_path: copy_opt_string(&self.thumbnail_path),
            resolution: copy_opt_string(&self.resolution),
            file_size: self.file_size,
            metadata: match &self.metadata {
                Some(m) => Some(m.duplicate()),
                None => None,
            },
            import_time: copy_string(&self.import_time),
        }
    }
}

/// The URLs the discover page visited.
#[derive(Clone, Debug)]
pub struct DiscoverHistory {
    pub schema_version: u32,
    pub urls: Vec<String>,
}

impl Default for DiscoverHistory {
    fn default() -> (r: Self)
        ensures
            r.schema_version == 1,
            r.urls@.len() == 0,
    {
        DiscoverHistory { schema_version: 1, urls: Vec::new() }
    }
}

/// The library index: every wallpaper the application knows.
#[derive(Clone, Debug)]
pub struct LibraryIndex {
    pub schema_version: u32,
    pub wallpapers: Vec<Wallpaper>,
}

impl Default for LibraryIndex {
    fn default() -> (r: Self)
        ensures
            r.schema_version == 1,
            r.wallpapers@.len() == 0,
    {
        LibraryIndex { schema_version: 1, wallpapers: Vec::new() }
    }
}

/// How video wallpapers are transcoded. A limit of 0 counts as no limit.
#[derive(Clone, Debug)]
pub struct VideoWallpaperSettings {
    pub max_width: Option<u32>,
    pub max_height: Option<u32>,
    pub fps: Option<u32>,
    pub crf: Option<u8>,
    pub bitrate_kbps: Option<u32>,
    pub hwdec: bool,
}

/// Whether a video wallpaper stops when the application exits, where the
/// stored settings do not say.
pub fn default_stop_video_on_exit() -> (r: bool)
    ensures
        r,
{
    true
}

/// Whether closing the window hides it in the tray, where the stored
/// settings do not say.
pub fn default_minimize_to_tray() -> (r: bool)
    ensures
        r,
{
    true
}

/// Whether video wallpapers use hardware decoding, where the stored
/// settings do not say.
pub fn default_video_wallpaper_hwdec() -> (r: bool)
    ensures
        r,
{
    true
}

impl Default for VideoWallpaperSettings {
    fn default() -> (r: Self)
        ensures
            r.max_width == Some(2560u32),
            r.max_height == Some(1440u32),
            r.fps == Some(30u32),
            r.crf == Some(23u8),
            r.bitrate_kbps is None,
            r.hwdec,
    {
        VideoWallpaperSettings {
            max_width: Some(2560),
            max_height: Some(1440),
            fps: Some(30),
            crf: Some(23),
            bitrate_kbps: None,
            hwdec: default_video_wallpaper_hwdec(),
        }
    }
}

/// The application's settings.
#[derive(Clone, Debug)]
pub struct Settings {
    pub schema_version: u32,
    pub language: String,
    pub theme_mode: String,
    pub primary_color: Option<String>,
    pub video_wallpaper: VideoWallpaperSettings,
    pub current_wallpaper_id: Option<String>,
    pub stop_video_on_exit: bool,
    pub minimize_to_tray: bool,
    pub first_close_handled: bool,
}

impl Default for Settings {
    fn default() -> (r: Self)
        ensures
            r.schema_version == 1,
            r.language@ == "zh-CN"@,
            r.theme_mode@ == "dark"@,
            r.primary_color is Some && r.primary_color->0@ == "#18a058"@,
            r.video_wallpaper.max_width == Some(2560u32),
            r.video_wallpaper.max_height == Some(1440u32),
            r.video_wallpaper.fps == Some(30u32),
            r.video_wallpaper.crf == Some(23u8),
            r.video_wallpaper.bitrate_kbps is None,
            r.video_wallpaper.hwdec,
            r.current_wallpaper_id is None,
            r.stop_video_on_exit,
            r.minimize_to_tray,
            !r.first_close_handled,
    {
        Settings {
            schema_version: 1,
            language: string_of(&chars_of("zh-CN")),
            theme_mode: string_of(&chars_of("dark")),
            primary_color: Some(string_of(&chars_of("#18a058"))),
            video_wallpaper: VideoWallpaperSettings::default(),
            current_wallpaper_id: None,
            stop_video_on_exit: true,
            minimize_to_tray: true,
            first_close_handled: false,
        }
    }
}

/// The error part of a command result.
#[derive(Clone, Debug)]
pub struct CommandError {
    pub code: String,
    pub message: String,
}

/// What a command returns to the front end: `ok` with data, or an error.
#[derive(Clone, Debug)]
pub struct CommandResult<T> {
    pub ok: bool,
    pub data: Option<T>,
    pub error: Option<CommandError>,
}

impl<T> CommandResult<T> {
    /// A successful result carrying `data`.
    pub fn success(data: T) -> (r: Self)
        ensures
            r.ok,
            r.data == Some(data),
            r.error is None,
    {
        CommandResult { ok: true, data: Some(data), error: None }
    }

    /// A failed result with an error code and message.
    pub fn error(code: &str, message: &str) -> (r: Self)
        ensures
            !r.ok,
            r.data is None,
            r.error is Some,
            r.error->0.code@ == code@,
            r.error->0.message@ == message@,
    {
        CommandResult {
            ok: false,
            data: None,
            error: Some(
                CommandError {
                    code: string_of(&chars_of(code)),
                    message: string_of(&chars_of(message)),
                },
            ),
        }
    }
}

/// The size of the primary screen in pixels.
#[derive(Clone, Copy, Debug)]
pub struct ScreenResolution {
    pub width: i32,
    pub height: i32,
}

} // verus!
