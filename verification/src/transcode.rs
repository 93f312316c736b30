//! Plans for the ffmpeg runs: transcoding a video for use as a wallpaper,
//! and making the preview and detail-play copies of a video.
use vstd::prelude::*;
use crate::external::{lowercase, lowercase_chars, uuid_v5_url, uuid_v5_url_text};
use crate::layout::{cache_dir, get_cache_dir, Platform};
use crate::media::{is_video, is_video_path};
use crate::models::Settings;
use crate::paths::{join, join_chars, native, with_extension, with_extension_chars};
use crate::text::{
    append_chars, chars_eq, chars_of, concat_chars, decimal, decimal_chars, has_prefix, has_suffix,
    string_of, trim, trim_chars,
};

verus! {

/// A limit of 0 counts as no limit.
pub open spec fn normalized_u32(v: Option<u32>) -> Option<u32> {
    match v {
        Some(x) => if x == 0 {
            None
        } else {
            Some(x)
        },
        None => None,
    }
}

pub open spec fn normalized_u8(v: Option<u8>) -> Option<u8> {
    match v {
        Some(x) => if x == 0 {
            None
        } else {
            Some(x)
        },
        None => None,
    }
}

/// Treats `Some(0)` as `None`.
pub fn normalize_opt_u32(v: Option<u32>) -> (r: Option<u32>)
    ensures
        r == normalized_u32(v),
{
    match v {
        Some(0) => None,
        Some(x) => Some(x),
        None => None,
    }
}

/// Treats `Some(0)` as `None`.
pub fn normalize_opt_u8(v: Option<u8>) -> (r: Option<u8>)
    ensures
        r == normalized_u8(v),
{
    match v {
        Some(0) => None,
        Some(x) => Some(x),
        None => None,
    }
}

/// The transcoding limits of the settings, with 0 read as no limit.
#[derive(Clone, Copy, Debug, PartialEq, Eq, Structural)]
pub struct VideoLimits {
    pub max_width: Option<u32>,
    pub max_height: Option<u32>,
    pub fps: Option<u32>,
    pub crf: Option<u8>,
    pub bitrate_kbps: Option<u32>,
}

pub open spec fn limits_of(s: Settings) -> VideoLimits {
    VideoLimits {
        max_width: normalized_u32(s.video_wallpaper.max_width),
        max_height: normalized_u32(s.video_wallpaper.max_height),
        fps: normalized_u32(s.video_wallpaper.fps),
        crf: normalized_u8(s.video_wallpaper.crf),
        bitrate_kbps: normalized_u32(s.video_wallpaper.bitrate_kbps),
    }
}

/// The normalized limits of some settings.
pub fn video_limits(settings: &Settings) -> (r: VideoLimits)
    ensures
        r == limits_of(*settings),
{
    VideoLimits {
        max_width: normalize_opt_u32(settings.video_wallpaper.max_width),
        max_height: normalize_opt_u32(settings.video_wallpaper.max_height),
        fps: normalize_opt_u32(settings.video_wallpaper.fps),
        crf: normalize_opt_u8(settings.video_wallpaper.crf),
        bitrate_kbps: normalize_opt_u32(settings.video_wallpaper.bitrate_kbps),
    }
}

/// Whether the limits leave nothing to change.
pub open spec fn no_limits(l: VideoLimits) -> bool {
    l.max_width is None && l.max_height is None && l.fps is None && l.crf is None
        && l.bitrate_kbps is None
}

/// A probed video codec that calls for transcoding to H.264: after
/// trimming and lower-casing, not empty and not `h264`.
pub open spec fn codec_forces_h264(codec: Seq<char>) -> bool {
    let c = lowercase(trim(codec));
    c.len() > 0 && c != "h264"@
}

/// Whether the source must be transcoded to H.264 because of its codec:
/// only a video file, whose probe reported a codec, counts.
pub open spec fn forces_h264(source: Seq<char>, probed_codec: Option<Seq<char>>) -> bool {
    is_video(source) && match probed_codec {
        Some(c) => codec_forces_h264(c),
        None => false,
    }
}

/// Whether a source file is used as it is, with no transcoding.
pub open spec fn used_as_is(
    source: Seq<char>,
    probed_codec: Option<Seq<char>>,
    l: VideoLimits,
) -> bool {
    !forces_h264(source, probed_codec) && no_limits(l)
}

fn codec_forces_h264_exec(codec: &str) -> (r: bool)
    ensures
        r == codec_forces_h264(codec@),
{
    let c = lowercase_chars(&trim_chars(&chars_of(codec)));
    c.len() > 0 && !chars_eq(&c, &chars_of("h264"))
}

fn forces_h264_exec(source: &str, probed_codec: Option<&str>, platform: Platform) -> (r: bool)
    ensures
        r == forces_h264(
            native(source@, platform),
            match probed_codec {
                Some(c) => Some(c@),
                None => None,
            },
        ),
{
    if !is_video_path(source, platform) {
        return false;
    }
    match probed_codec {
        Some(c) => codec_forces_h264_exec(c),
        None => false,
    }
}

/// How `{:?}` writes an optional number: `Some(n)` or `None`.
pub open spec fn debug_opt(v: Option<nat>) -> Seq<char> {
    match v {
        Some(n) => "Some("@ + decimal(n) + ")"@,
        None => "None"@,
    }
}

pub open spec fn opt_u32_nat(v: Option<u32>) -> Option<nat> {
    match v {
        Some(x) => Some(x as nat),
        None => None,
    }
}

pub open spec fn opt_u8_nat(v: Option<u8>) -> Option<nat> {
    match v {
        Some(x) => Some(x as nat),
        None => None,
    }
}

fn debug_opt_chars(v: Option<u64>) -> (r: Vec<char>)
    ensures
        r@ == debug_opt(
            match v {
                Some(x) => Some(x as nat),
                None => None,
            },
        ),
{
    match v {
        Some(x) => {
            let mut r = chars_of("Some(");
            append_chars(&mut r, &decimal_chars(x));
            append_chars(&mut r, &chars_of(")"));
            r
        },
        None => chars_of("None"),
    }
}

fn widen_u32(v: Option<u32>) -> (r: Option<u64>)
    ensures
        match v {
            Some(x) => r == Some(x as u64),
            None => r is None,
        },
{
    match v {
        Some(x) => Some(x as u64),
        None => None,
    }
}

fn widen_u8(v: Option<u8>) -> (r: Option<u64>)
    ensures
        match v {
            Some(x) => r == Some(x as u64),
            None => r is None,
        },
{
    match v {
        Some(x) => Some(x as u64),
        None => None,
    }
}

/// The text that names a transcoded copy: the source path and each limit.
pub open spec fn cache_key_text(source: Seq<char>, l: VideoLimits) -> Seq<char> {
    source + "|w="@ + debug_opt(opt_u32_nat(l.max_width)) + "|h="@ + debug_opt(
        opt_u32_nat(l.max_height),
    ) + "|fps="@ + debug_opt(opt_u32_nat(l.fps)) + "|crf="@ + debug_opt(opt_u8_nat(l.crf))
        + "|br_kbps="@ + debug_opt(opt_u32_nat(l.bitrate_kbps))
}

/// Where the transcoded copy for a source and limits is cached:
/// `data/cache/video_wallpaper/<uuid of the key text>.mp4`.
pub open spec fn cache_path(data_dir: Seq<char>, source: Seq<char>, l: VideoLimits) -> Seq<char> {
    join(
        join(cache_dir(data_dir), "video_wallpaper"@),
        uuid_v5_url(cache_key_text(source, l)) + ".mp4"@,
    )
}

fn cache_key_chars(source: &str, l: &VideoLimits) -> (r: Vec<char>)
    ensures
        r@ == cache_key_text(source@, *l),
{
    let mut r = chars_of(source);
    append_chars(&mut r, &chars_of("|w="));
    append_chars(&mut r, &debug_opt_chars(widen_u32(l.max_width)));
    append_chars(&mut r, &chars_of("|h="));
    append_chars(&mut r, &debug_opt_chars(widen_u32(l.max_height)));
    append_chars(&mut r, &chars_of("|fps="));
    append_chars(&mut r, &debug_opt_chars(widen_u32(l.fps)));
    append_chars(&mut r, &chars_of("|crf="));
    append_chars(&mut r, &debug_opt_chars(widen_u8(l.crf)));
    append_chars(&mut r, &chars_of("|br_kbps="));
    append_chars(&mut r, &debug_opt_chars(widen_u32(l.bitrate_kbps)));
    r
}

/// The cache path of the transcoded copy of a source.
pub fn video_wallpaper_cache_path(data_dir: &str, source_path: &str, l: &VideoLimits) -> (r:
    String)
    ensures
        r@ == cache_path(data_dir@, source_path@, *l),
{
    let key = uuid_v5_url_text(&cache_key_chars(source_path, l));
    let dir = join_chars(&chars_of(get_cache_dir(data_dir).as_str()), &chars_of("video_wallpaper"));
    let name = concat_chars(&key, &chars_of(".mp4"));
    string_of(&join_chars(&dir, &name))
}

pub open spec fn opt_view(v: Option<&str>) -> Option<Seq<char>> {
    match v {
        Some(s) => Some(s@),
        None => None,
    }
}

/// Where the wallpaper copy of a source would be cached: `None` when the
/// source is used as it is (a video whose probed codec is H.264 or unknown,
/// or any other file, with no limit set), else the cache path.
/// `probed_video_codec` is the video codec that probing the source reported;
/// the source is a path of `platform`.
pub fn get_cached_video_path(
    data_dir: &str,
    source_path: &str,
    settings: &Settings,
    probed_video_codec: Option<&str>,
    platform: Platform,
) -> (r: Option<String>)
    ensures
        used_as_is(native(source_path@, platform), opt_view(probed_video_codec), limits_of(*settings)) ==> r is None,
        !used_as_is(native(source_path@, platform), opt_view(probed_video_codec), limits_of(*settings)) ==> r is Some
            && r->0@ == cache_path(data_dir@, source_path@, limits_of(*settings)),
{
    let l = video_limits(settings);
    let force = forces_h264_exec(source_path, probed_video_codec, platform);
    if !force && l.max_width.is_none() && l.max_height.is_none() && l.fps.is_none()
        && l.crf.is_none() && l.bitrate_kbps.is_none() {
        return None;
    }
    Some(video_wallpaper_cache_path(data_dir, source_path, &l))
}

/// The texts of a vector of strings.
pub open spec fn texts(v: Seq<String>) -> Seq<Seq<char>> {
    v.map_values(|s: String| s@)
}

/// The `-vf` filter for some limits: a scale filter when a width or height
/// limit is set (`iw`/`ih` standing for the missing one), then `fps=N`,
/// joined by commas; `None` when neither applies.
pub open spec fn video_filter(l: VideoLimits) -> Option<Seq<char>> {
    let scale = if l.max_width is Some || l.max_height is Some {
        let w = match l.max_width {
            Some(v) => decimal(v as nat),
            None => "iw"@,
        };
        let h = match l.max_height {
            Some(v) => decimal(v as nat),
            None => "ih"@,
        };
        Some(
            "scale=w='min(iw,"@ + w + ")':h='min(ih,"@ + h
                + ")':force_original_aspect_ratio=decrease"@,
        )
    } else {
        None
    };
    let fps = match l.fps {
        Some(f) => Some("fps="@ + decimal(f as nat)),
        None => None,
    };
    match (scale, fps) {
        (Some(s), Some(f)) => Some(s + ","@ + f),
        (Some(s), None) => Some(s),
        (None, Some(f)) => Some(f),
        (None, None) => None,
    }
}

/// The buffer size for a bitrate: twice it, saturating at `u32::MAX`, and
/// never below it.
pub open spec fn buffer_kbps(br: u32) -> nat {
    let doubled = if 2 * br > u32::MAX {
        u32::MAX as nat
    } else {
        (2 * br) as nat
    };
    if doubled >= br {
        doubled
    } else {
        br as nat
    }
}

/// The arguments of the ffmpeg run that makes a wallpaper copy: H.264 in an
/// MP4 without audio, at the given bitrate (or quality, 23 by default), with
/// the filter of `video_filter`, written to `out_tmp`.
pub open spec fn transcode_arg_list(source: Seq<char>, out_tmp: Seq<char>, l: VideoLimits) -> Seq<
    Seq<char>,
> {
    let head = seq![
        "-y"@,
        "-i"@,
        source,
        "-an"@,
        "-c:v"@,
        "libx264"@,
        "-preset"@,
        "ultrafast"@,
        "-tune"@,
        "fastdecode"@,
    ];
    let rate = match l.bitrate_kbps {
        Some(br) => seq![
            "-b:v"@,
            decimal(br as nat) + "k"@,
            "-maxrate"@,
            decimal(br as nat) + "k"@,
            "-bufsize"@,
            decimal(buffer_kbps(br)) + "k"@,
        ],
        None => seq![
            "-crf"@,
            decimal(
                match l.crf {
                    Some(c) => c as nat,
                    None => 23,
                },
            ),
        ],
    };
    let format = seq!["-f"@, "mp4"@, "-pix_fmt"@, "yuv420p"@, "-movflags"@, "+faststart"@];
    let filter = match video_filter(l) {
        Some(vf) => seq!["-vf"@, vf],
        None => Seq::empty(),
    };
    head + rate + format + filter + seq![out_tmp]
}

/// The quality of a transcoded wallpaper: without a bitrate the arguments
/// hold `-crf` followed by the configured quality, or by 23 when none is
/// configured; with a bitrate `br` they hold `-b:v` and `-maxrate`, each
/// followed by `<br>k`. The source follows `-i` and the output comes last.
pub proof fn lemma_transcode_quality(source: Seq<char>, out_tmp: Seq<char>, l: VideoLimits)
    ensures
        ({
            let a = transcode_arg_list(source, out_tmp, l);
            &&& a[1] == "-i"@ && a[2] == source
            &&& a.last() == out_tmp
            &&& (l.bitrate_kbps is None && l.crf is Some) ==> exists|i: int|
                0 <= i < a.len() - 1 && #[trigger] a[i] == "-crf"@ && a[i + 1] == decimal(l.crf->0 as nat)
            &&& (l.bitrate_kbps is None && l.crf is None) ==> exists|i: int|
                0 <= i < a.len() - 1 && #[trigger] a[i] == "-crf"@ && a[i + 1] == decimal(23)
            &&& l.bitrate_kbps is Some ==> exists|i: int|
                0 <= i < a.len() - 5 && #[trigger] a[i] == "-b:v"@ && a[i + 1] == decimal(
                    l.bitrate_kbps->0 as nat,
                ) + "k"@ && a[i + 2] == "-maxrate"@ && a[i + 3] == decimal(
                    l.bitrate_kbps->0 as nat,
                ) + "k"@ && a[i + 4] == "-bufsize"@ && a[i + 5] == decimal(
                    if 2 * l.bitrate_kbps->0 <= u32::MAX {
                        (2 * l.bitrate_kbps->0) as nat
                    } else {
                        u32::MAX as nat
                    },
                ) + "k"@
        }),
{
    let a = transcode_arg_list(source, out_tmp, l);
    if l.bitrate_kbps is None {
        assert(a[10] == "-crf"@);
    } else {
        assert(a[10] == "-b:v"@);
    }
}

/// The video filter scales only when a largest width or height is set,
/// keeping the aspect ratio, with `iw`/`ih` for the side left free; it sets
/// the frame rate last, and only when one is set; with no limit there is
/// no filter, and a filter is passed to ffmpeg after `-vf`.
pub proof fn lemma_transcode_filter(source: Seq<char>, out_tmp: Seq<char>, l: VideoLimits)
    ensures
        (l.max_width is None && l.max_height is None && l.fps is None) <==> video_filter(l) is None,
        (l.max_width is Some || l.max_height is Some) ==> video_filter(l) is Some && has_prefix(
            video_filter(l)->0,
            "scale=w='min(iw,"@ + (match l.max_width {
                Some(w) => decimal(w as nat),
                None => "iw"@,
            }) + ")':h='min(ih,"@ + (match l.max_height {
                Some(h) => decimal(h as nat),
                None => "ih"@,
            }) + ")':force_original_aspect_ratio=decrease"@,
        ),
        (l.max_width is None && l.max_height is None && l.fps is Some) ==> video_filter(l) == Some(
            "fps="@ + decimal(l.fps->0 as nat),
        ),
        l.fps is Some ==> video_filter(l) is Some && has_suffix(
            video_filter(l)->0,
            "fps="@ + decimal(l.fps->0 as nat),
        ),
        video_filter(l) is Some ==> {
            let a = transcode_arg_list(source, out_tmp, l);
            &&& a[a.len() - 3] == "-vf"@
            &&& a[a.len() - 2] == video_filter(l)->0
        },
{
    let a = transcode_arg_list(source, out_tmp, l);
    if let Some(f) = video_filter(l) {
        if l.max_width is Some || l.max_height is Some {
            let sc = "scale=w='min(iw,"@ + (match l.max_width {
                Some(w) => decimal(w as nat),
                None => "iw"@,
            }) + ")':h='min(ih,"@ + (match l.max_height {
                Some(h) => decimal(h as nat),
                None => "ih"@,
            }) + ")':force_original_aspect_ratio=decrease"@;
            if let Some(fp) = l.fps {
                let fs = "fps="@ + decimal(fp as nat);
                assert(f == sc + ","@ + fs);
                assert((sc + ","@ + fs).subrange(0, sc.len() as int) =~= sc);
                assert((sc + ","@ + fs).subrange((sc + ","@ + fs).len() - fs.len(), (sc + ","@ + fs).len() as int) =~= fs);
            } else {
                assert(f == sc);
                assert(sc.subrange(0, sc.len() as int) =~= sc);
            }
        } else {
            let fs = "fps="@ + decimal(l.fps->0 as nat);
            assert(f == fs);
            assert(fs.subrange(0, fs.len() as int) =~= fs);
        }
    }
}

fn push_lit(v: &mut Vec<String>, s: &str)
    ensures
        texts(final(v)@) == texts(old(v)@).push(s@),
{
    let ghost before = v@;
    v.push(string_of(&chars_of(s)));
    assert(texts(v@) =~= texts(before).push(s@));
}

fn push_chars(v: &mut Vec<String>, s: &[char])
    ensures
        texts(final(v)@) == texts(old(v)@).push(s@),
{
    let ghost before = v@;
    v.push(string_of(s));
    assert(texts(v@) =~= texts(before).push(s@));
}

fn decimal_k(n: u64) -> (r: Vec<char>)
    ensures
        r@ == decimal(n as nat) + "k"@,
{
    concat_chars(&decimal_chars(n), &chars_of("k"))
}

/// The `-vf` filter for some limits.
pub fn video_filter_text(l: &VideoLimits) -> (r: Option<String>)
    ensures
        match r {
            Some(s) => video_filter(*l) == Some(s@),
            None => video_filter(*l) is None,
        },
{
    let scale: Option<Vec<char>> = if l.max_width.is_some() || l.max_height.is_some() {
        let w = match l.max_width {
            Some(v) => decimal_chars(v as u64),
            None => chars_of("iw"),
        };
        let h = match l.max_height {
            Some(v) => decimal_chars(v as u64),
            None => chars_of("ih"),
        };
        let mut s = chars_of("scale=w='min(iw,");
        append_chars(&mut s, &w);
        append_chars(&mut s, &chars_of(")':h='min(ih,"));
        append_chars(&mut s, &h);
        append_chars(&mut s, &chars_of(")':force_original_aspect_ratio=decrease"));
        Some(s)
    } else {
        None
    };
    let fps: Option<Vec<char>> = match l.fps {
        Some(f) => Some(concat_chars(&chars_of("fps="), &decimal_chars(f as u64))),
        None => None,
    };
    match (scale, fps) {
        (Some(s), Some(f)) => {
            let mut r = s;
            append_chars(&mut r, &chars_of(","));
            append_chars(&mut r, &f);
            Some(string_of(&r))
        },
        (Some(s), None) => Some(string_of(&s)),
        (None, Some(f)) => Some(string_of(&f)),
        (None, None) => None,
    }
}

/// The ffmpeg arguments that make a wallpaper copy of `source` in
/// `out_tmp`.
pub fn transcode_args(source: &str, out_tmp: &str, l: &VideoLimits) -> (r: Vec<String>)
    ensures
        texts(r@) == transcode_arg_list(source@, out_tmp@, *l),
{
    let mut v: Vec<String> = Vec::new();
    push_lit(&mut v, "-y");
    push_lit(&mut v, "-i");
    push_lit(&mut v, source);
    push_lit(&mut v, "-an");
    push_lit(&mut v, "-c:v");
    push_lit(&mut v, "libx264");
    push_lit(&mut v, "-preset");
    push_lit(&mut v, "ultrafast");
    push_lit(&mut v, "-tune");
    push_lit(&mut v, "fastdecode");
    match l.bitrate_kbps {
        Some(br) => {
            push_lit(&mut v, "-b:v");
            push_chars(&mut v, &decimal_k(br as u64));
            push_lit(&mut v, "-maxrate");
            push_chars(&mut v, &decimal_k(br as u64));
            push_lit(&mut v, "-bufsize");
            let doubled: u32 = if br > u32::MAX / 2 {
                u32::MAX
            } else {
                br * 2
            };
            let buf = if doubled >= br {
                doubled
            } else {
                br
            };
            push_chars(&mut v, &decimal_k(buf as u64));
        },
        None => {
            push_lit(&mut v, "-crf");
            let c: u8 = match l.crf {
                Some(c) => c,
                None => 23,
            };
            push_chars(&mut v, &decimal_chars(c as u64));
        },
    }
    push_lit(&mut v, "-f");
    push_lit(&mut v, "mp4");
    push_lit(&mut v, "-pix_fmt");
    push_lit(&mut v, "yuv420p");
    push_lit(&mut v, "-movflags");
    push_lit(&mut v, "+faststart");
    match video_filter_text(l) {
        Some(vf) => {
            push_lit(&mut v, "-vf");
            push_lit(&mut v, vf.as_str());
        },
        None => {},
    }
    push_lit(&mut v, out_tmp);
    assert(texts(v@) =~= transcode_arg_list(source@, out_tmp@, *l));
    v
}

/// What preparing a video wallpaper source comes to, before any file is
/// touched.
pub enum TranscodePlan {
    /// Play the source itself.
    UseSource,
    /// Play the copy at `out`, made (unless it is already cached) by running
    /// ffmpeg with `args`, which write `tmp`.
    Transcode { out: String, tmp: String, args: Vec<String> },
}

/// Plans the wallpaper copy of a source: none when `used_as_is` holds;
/// else the cache path, its temporary file (`with_extension("tmp.mp4")`) and
/// the ffmpeg arguments that write it.
pub fn plan_video_wallpaper_source(
    data_dir: &str,
    source_path: &str,
    settings: &Settings,
    probed_video_codec: Option<&str>,
    platform: Platform,
) -> (r: TranscodePlan)
    ensures
        used_as_is(native(source_path@, platform), opt_view(probed_video_codec), limits_of(*settings)) <==> r is UseSource,
        match r {
            TranscodePlan::UseSource => true,
            TranscodePlan::Transcode { out, tmp, args } => {
                &&& out@ == cache_path(data_dir@, source_path@, limits_of(*settings))
                &&& tmp@ == with_extension(out@, "tmp.mp4"@)
                &&& texts(args@) == transcode_arg_list(
                    source_path@,
                    tmp@,
                    limits_of(*settings),
                )
            },
        },
{
    let l = video_limits(settings);
    let force = forces_h264_exec(source_path, probed_video_codec, platform);
    if !force && l.max_width.is_none() && l.max_height.is_none() && l.fps.is_none()
        && l.crf.is_none() && l.bitrate_kbps.is_none() {
        return TranscodePlan::UseSource;
    }
    let out = video_wallpaper_cache_path(data_dir, source_path, &l);
    let tmp = string_of(&with_extension_chars(&chars_of(out.as_str()), &chars_of("tmp.mp4")));
    let args = transcode_args(source_path, tmp.as_str(), &l);
    TranscodePlan::Transcode { out, tmp, args }
}

/// The ffmpeg arguments for a detail-play copy (VP8 in WebM, at most 1080
/// lines, 30 frames a second, no audio).
pub open spec fn detail_play_arg_list(source: Seq<char>, tmp: Seq<char>) -> Seq<Seq<char>> {
    seq![
        "-y"@,
        "-i"@,
        source,
        "-vf"@,
        "scale=-2:'min(1080,ih)',fps=30"@,
        "-an"@,
        "-c:v"@,
        "libvpx"@,
        "-b:v"@,
        "1800k"@,
        "-maxrate"@,
        "2000k"@,
        "-bufsize"@,
        "4000k"@,
        "-deadline"@,
        "realtime"@,
        "-cpu-used"@,
        "4"@,
        "-pix_fmt"@,
        "yuv420p"@,
        "-f"@,
        "webm"@,
        tmp,
    ]
}

/// The ffmpeg arguments for a preview on Windows (H.264 in MP4).
pub open spec fn windows_preview_arg_list(source: Seq<char>, tmp: Seq<char>) -> Seq<Seq<char>> {
    seq![
        "-y"@,
        "-i"@,
        source,
        "-vf"@,
        "scale=-2:'min(1080,ih)',fps=30"@,
        "-an"@,
        "-c:v"@,
        "libx264"@,
        "-preset"@,
        "veryfast"@,
        "-tune"@,
        "fastdecode"@,
        "-b:v"@,
        "1800k"@,
        "-maxrate"@,
        "2000k"@,
        "-bufsize"@,
        "4000k"@,
        "-pix_fmt"@,
        "yuv420p"@,
        "-movflags"@,
        "+faststart"@,
        "-f"@,
        "mp4"@,
        tmp,
    ]
}

/// The ffmpeg arguments for a preview: MP4 on Windows, WebM elsewhere (the
/// same as a detail-play copy).
pub open spec fn preview_arg_list(source: Seq<char>, tmp: Seq<char>, platform: Platform) -> Seq<
    Seq<char>,
> {
    if platform == Platform::Windows {
        windows_preview_arg_list(source, tmp)
    } else {
        detail_play_arg_list(source, tmp)
    }
}

/// Previews and detail-play copies read `source` (after `-i`), write `tmp`
/// (last), drop the audio, and scale to at most 1080 lines at 30 frames a
/// second; they are VP8 in WebM, but for previews on Windows, which are
/// H.264 in MP4. Elsewhere a preview is made exactly as a detail-play copy.
pub proof fn lemma_preview_arguments(source: Seq<char>, tmp: Seq<char>, platform: Platform)
    ensures
        ({
            let a = preview_arg_list(source, tmp, platform);
            &&& a[1] == "-i"@ && a[2] == source && a.last() == tmp
            &&& a[3] == "-vf"@ && a[4] == "scale=-2:'min(1080,ih)',fps=30"@ && a[5] == "-an"@
            &&& a[6] == "-c:v"@
            &&& a[7] == (if platform == Platform::Windows {
                "libx264"@
            } else {
                "libvpx"@
            })
            &&& a[a.len() - 2] == (if platform == Platform::Windows {
                "mp4"@
            } else {
                "webm"@
            })
            &&& a[a.len() - 3] == "-f"@
        }),
        ({
            let a = detail_play_arg_list(source, tmp);
            &&& a[1] == "-i"@ && a[2] == source && a.last() == tmp
            &&& a[3] == "-vf"@ && a[4] == "scale=-2:'min(1080,ih)',fps=30"@ && a[5] == "-an"@
            &&& a[6] == "-c:v"@ && a[7] == "libvpx"@
            &&& a[a.len() - 3] == "-f"@ && a[a.len() - 2] == "webm"@
        }),
        platform != Platform::Windows ==> preview_arg_list(source, tmp, platform)
            == detail_play_arg_list(source, tmp),
{
}

/// The ffmpeg arguments that write a detail-play copy of `source` to `tmp`.
pub fn detail_play_args(source: &str, tmp: &str) -> (r: Vec<String>)
    ensures
        texts(r@) == detail_play_arg_list(source@, tmp@),
{
    let mut v: Vec<String> = Vec::new();
    push_lit(&mut v, "-y");
    push_lit(&mut v, "-i");
    push_lit(&mut v, source);
    push_lit(&mut v, "-vf");
    push_lit(&mut v, "scale=-2:'min(1080,ih)',fps=30");
    push_lit(&mut v, "-an");
    push_lit(&mut v, "-c:v");
    push_lit(&mut v, "libvpx");
    push_lit(&mut v, "-b:v");
    push_lit(&mut v, "1800k");
    push_lit(&mut v, "-maxrate");
    push_lit(&mut v, "2000k");
    push_lit(&mut v, "-bufsize");
    push_lit(&mut v, "4000k");
    push_lit(&mut v, "-deadline");
    push_lit(&mut v, "realtime");
    push_lit(&mut v, "-cpu-used");
    push_lit(&mut v, "4");
    push_lit(&mut v, "-pix_fmt");
    push_lit(&mut v, "yuv420p");
    push_lit(&mut v, "-f");
    push_lit(&mut v, "webm");
    push_lit(&mut v, tmp);
    assert(texts(v@) =~= detail_play_arg_list(source@, tmp@));
    v
}

/// The ffmpeg arguments that write a preview of `source` to `tmp`.
pub fn preview_args(source: &str, tmp: &str, platform: Platform) -> (r: Vec<String>)
    ensures
        texts(r@) == preview_arg_list(source@, tmp@, platform),
{
    match platform {
        Platform::Windows => {
            let mut v: Vec<String> = Vec::new();
            push_lit(&mut v, "-y");
            push_lit(&mut v, "-i");
            push_lit(&mut v, source);
            push_lit(&mut v, "-vf");
            push_lit(&mut v, "scale=-2:'min(1080,ih)',fps=30");
            push_lit(&mut v, "-an");
            push_lit(&mut v, "-c:v");
            push_lit(&mut v, "libx264");
            push_lit(&mut v, "-preset");
            push_lit(&mut v, "veryfast");
            push_lit(&mut v, "-tune");
            push_lit(&mut v, "fastdecode");
            push_lit(&mut v, "-b:v");
            push_lit(&mut v, "1800k");
            push_lit(&mut v, "-maxrate");
            push_lit(&mut v, "2000k");
            push_lit(&mut v, "-bufsize");
            push_lit(&mut v, "4000k");
            push_lit(&mut v, "-pix_fmt");
            push_lit(&mut v, "yuv420p");
            push_lit(&mut v, "-movflags");
            push_lit(&mut v, "+faststart");
            push_lit(&mut v, "-f");
            push_lit(&mut v, "mp4");
            push_lit(&mut v, tmp);
            assert(texts(v@) =~= windows_preview_arg_list(source@, tmp@));
            v
        },
        _ => detail_play_args(source, tmp),
    }
}

/// The extension of a preview's temporary file: `tmp.mp4` on Windows,
/// `tmp.webm` elsewhere.
pub open spec fn preview_tmp_extension(platform: Platform) -> Seq<char> {
    if platform == Platform::Windows {
        "tmp.mp4"@
    } else {
        "tmp.webm"@
    }
}

/// The temporary file that a preview is written to before it replaces the
/// preview file.
pub fn preview_tmp_path(preview_path: &str, platform: Platform) -> (r: String)
    ensures
        r@ == with_extension(preview_path@, preview_tmp_extension(platform)),
{
    let ext = match platform {
        Platform::Windows => "tmp.mp4",
        _ => "tmp.webm",
    };
    string_of(&with_extension_chars(&chars_of(preview_path), &chars_of(ext)))
}

/// The temporary file that a detail-play copy is written to.
pub fn detail_play_tmp_path(play_path: &str) -> (r: String)
    ensures
        r@ == with_extension(play_path@, "tmp.webm"@),
{
    string_of(&with_extension_chars(&chars_of(play_path), &chars_of("tmp.webm")))
}

/// What a failed ffmpeg run reports: its trimmed standard error, else its
/// trimmed standard output, else a fixed text.
pub open spec fn failure_detail(stderr: Seq<char>, stdout: Seq<char>) -> Seq<char> {
    if trim(stderr).len() > 0 {
        trim(stderr)
    } else if trim(stdout).len() > 0 {
        trim(stdout)
    } else {
        "ffmpeg failed without output"@
    }
}

/// The error message of a failed ffmpeg run: `status=<status> detail=<detail>`.
pub fn ffmpeg_failure_message(status: &str, stderr: &str, stdout: &str) -> (r: String)
    ensures
        r@ == "status="@ + status@ + " detail="@ + failure_detail(stderr@, stdout@),
{
    let e = trim_chars(&chars_of(stderr));
    let o = trim_chars(&chars_of(stdout));
    let detail = if e.len() > 0 {
        e
    } else if o.len() > 0 {
        o
    } else {
        chars_of("ffmpeg failed without output")
    };
    let mut r = chars_of("status=");
    append_chars(&mut r, &chars_of(status));
    append_chars(&mut r, &chars_of(" detail="));
    append_chars(&mut r, &detail);
    string_of(&r)
}

} // verus!
