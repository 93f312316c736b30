//! The metadata of a media file: built from ffprobe's report (its `format`
//! object and its `streams`) for a video, and from the dimensions and the
//! extension for an image.
use vstd::prelude::*;
use crate::external::{lowercase, lowercase_chars};
use crate::media::extension_or_empty;
use crate::models::{copy_opt_string, MediaMetadata};
use crate::layout::Platform;
use crate::paths::{extension, native, native_chars};
use crate::scan::{parse_u64, parsed_u64};
use crate::text::{chars_eq, chars_of, string_of, trim, trim_chars};

verus! {

/// The `format` object of a report, as far as the metadata reads it. A
/// field the report holds as a string is its text; one it holds as an
/// unsigned number is that number. The duration, a real number, is held as
/// the bit pattern of an `f64`: read from its text (`None` inside when the
/// text is no number) or taken from its numeric value.
pub struct ProbeFormat {
    pub format_name: Option<String>,
    pub duration_text: Option<Option<u64>>,
    pub duration_number: Option<u64>,
    pub bit_rate_text: Option<String>,
    pub bit_rate_number: Option<u64>,
}

/// One entry of the report's `streams`. The frame rates are given where
/// the report holds them as strings, each as the bit pattern of the `f64`
/// read from it (`None` inside when it cannot be read).
pub struct ProbeStream {
    pub codec_type: Option<String>,
    pub codec_name: Option<String>,
    pub pix_fmt: Option<String>,
    pub width: Option<u64>,
    pub height: Option<u64>,
    pub avg_frame_rate: Option<Option<u64>>,
    pub r_frame_rate: Option<Option<u64>>,
    pub sample_rate: Option<String>,
    pub channels: Option<u64>,
}

/// Metadata with nothing known.
pub open spec fn no_metadata() -> MediaMetadata {
    MediaMetadata {
        width: None,
        height: None,
        format_name: None,
        duration_sec_bits: None,
        bit_rate: None,
        video_codec: None,
        pix_fmt: None,
        fps_bits: None,
        audio_codec: None,
        sample_rate: None,
        channels: None,
    }
}

/// `str::parse::<u32>`: a `u64` reading that fits in 32 bits.
pub open spec fn parsed_u32(s: Seq<char>) -> Option<u32> {
    match parsed_u64(s) {
        Some(v) => if v <= u32::MAX {
            Some(v as u32)
        } else {
            None
        },
        None => None,
    }
}

/// A number of the report cut to 32 bits, as `as u32` does.
pub open spec fn cut_u32(v: Option<u64>) -> Option<u32> {
    match v {
        Some(x) => Some(x as u32),
        None => None,
    }
}

/// What the `format` object adds: a name that is not blank, the duration
/// (from its text, else from its number) and the bit rate (parsed from its
/// text, else its number).
pub open spec fn with_format(m: MediaMetadata, f: ProbeFormat) -> MediaMetadata {
    MediaMetadata {
        format_name: match f.format_name {
            Some(n) => if trim(n@).len() > 0 {
                Some(n)
            } else {
                m.format_name
            },
            None => m.format_name,
        },
        duration_sec_bits: match f.duration_text {
            Some(d) => d,
            None => match f.duration_number {
                Some(d) => Some(d),
                None => m.duration_sec_bits,
            },
        },
        bit_rate: match f.bit_rate_text {
            Some(b) => parsed_u64(b@),
            None => match f.bit_rate_number {
                Some(b) => Some(b),
                None => m.bit_rate,
            },
        },
        ..m
    }
}

/// The codec type of a stream, the empty text where it has none.
pub open spec fn stream_type(s: ProbeStream) -> Seq<char> {
    match s.codec_type {
        Some(t) => t@,
        None => Seq::empty(),
    }
}

/// What one stream adds. A video stream, while no video codec is known,
/// sets the video codec, pixel format, width and height, and the frame rate
/// from its average rate (else its base rate, else the rate is kept). An
/// audio stream, while no audio codec is known, sets the audio codec, the
/// sample rate (parsed from its text) and the channels.
pub open spec fn with_stream(m: MediaMetadata, s: ProbeStream) -> MediaMetadata {
    let m1 = if stream_type(s) == "video"@ && m.video_codec is None {
        MediaMetadata {
            video_codec: s.codec_name,
            pix_fmt: s.pix_fmt,
            width: cut_u32(s.width),
            height: cut_u32(s.height),
            fps_bits: match s.avg_frame_rate {
                Some(r) => r,
                None => match s.r_frame_rate {
                    Some(r) => r,
                    None => m.fps_bits,
                },
            },
            ..m
        }
    } else {
        m
    };
    if stream_type(s) == "audio"@ && m1.audio_codec is None {
        MediaMetadata {
            audio_codec: s.codec_name,
            sample_rate: match s.sample_rate {
                Some(t) => parsed_u32(t@),
                None => None,
            },
            channels: cut_u32(s.channels),
            ..m1
        }
    } else {
        m1
    }
}

/// The streams, taken in the report's order.
pub open spec fn with_streams(m: MediaMetadata, ss: Seq<ProbeStream>) -> MediaMetadata
    decreases ss.len(),
{
    if ss.len() == 0 {
        m
    } else {
        with_streams(with_stream(m, ss[0]), ss.drop_first())
    }
}

/// Whether probing found anything worth keeping: a width, a height, a
/// duration, a video or audio codec, or a format name.
pub open spec fn has_findings(m: MediaMetadata) -> bool {
    ||| m.width is Some
    ||| m.height is Some
    ||| m.duration_sec_bits is Some
    ||| m.video_codec is Some
    ||| m.audio_codec is Some
    ||| m.format_name is Some
}

/// The metadata of a report: the format object, then the streams; nothing
/// when it found nothing.
pub open spec fn probe_report(format: Option<ProbeFormat>, streams: Seq<ProbeStream>) -> Option<
    MediaMetadata,
> {
    let m0 = match format {
        Some(f) => with_format(no_metadata(), f),
        None => no_metadata(),
    };
    let m = with_streams(m0, streams);
    if has_findings(m) {
        Some(m)
    } else {
        None
    }
}

/// Once a video codec is known, no stream changes the video fields; once
/// an audio codec is known, no stream changes the audio fields.
pub proof fn lemma_known_codec_stays(m: MediaMetadata, s: ProbeStream)
    ensures
        m.video_codec is Some ==> {
            let r = with_stream(m, s);
            &&& r.video_codec == m.video_codec && r.pix_fmt == m.pix_fmt
            &&& r.width == m.width && r.height == m.height && r.fps_bits == m.fps_bits
        },
        m.audio_codec is Some ==> {
            let r = with_stream(m, s);
            &&& r.audio_codec == m.audio_codec && r.sample_rate == m.sample_rate
            &&& r.channels == m.channels
        },
        stream_type(s) != "audio"@ ==> {
            let r = with_stream(m, s);
            &&& r.audio_codec == m.audio_codec && r.sample_rate == m.sample_rate
            &&& r.channels == m.channels
        },
        format_fields_kept(m, with_stream(m, s)),
{
}

/// The fields that only the `format` object sets.
pub open spec fn format_fields_kept(m: MediaMetadata, r: MediaMetadata) -> bool {
    r.format_name == m.format_name && r.duration_sec_bits == m.duration_sec_bits && r.bit_rate
        == m.bit_rate
}

/// A video stream met while no video codec is known gives the video
/// fields: its codec, pixel format, width and height (cut to 32 bits), and
/// its average frame rate, else its base frame rate, else the rate stays.
/// An audio stream met while no audio codec is known gives the audio
/// fields likewise.
pub proof fn lemma_stream_taken_up(m: MediaMetadata, s: ProbeStream)
    ensures
        stream_type(s) == "video"@ && m.video_codec is None ==> {
            let r = with_stream(m, s);
            &&& r.video_codec == s.codec_name && r.pix_fmt == s.pix_fmt
            &&& r.width == (match s.width {
                Some(w) => Some(w as u32),
                None => None,
            })
            &&& r.height == (match s.height {
                Some(h) => Some(h as u32),
                None => None,
            })
            &&& s.avg_frame_rate is Some ==> r.fps_bits == s.avg_frame_rate->0
            &&& s.avg_frame_rate is None && s.r_frame_rate is Some ==> r.fps_bits
                == s.r_frame_rate->0
            &&& s.avg_frame_rate is None && s.r_frame_rate is None ==> r.fps_bits == m.fps_bits
        },
        stream_type(s) == "audio"@ && m.audio_codec is None ==> {
            let r = with_stream(m, s);
            &&& r.audio_codec == s.codec_name
            &&& r.sample_rate == (match s.sample_rate {
                Some(t) => parsed_u32(t@),
                None => None,
            })
            &&& r.channels == (match s.channels {
                Some(c) => Some(c as u32),
                None => None,
            })
        },
        stream_type(s) != "video"@ ==> {
            let r = with_stream(m, s);
            &&& r.video_codec == m.video_codec && r.pix_fmt == m.pix_fmt
            &&& r.width == m.width && r.height == m.height && r.fps_bits == m.fps_bits
        },
{
    reveal_strlit("audio");
    reveal_strlit("video");
    assert("audio"@[0] != "video"@[0]);
}

/// The `format` object gives a name that is not blank, the duration read
/// from its text (else its number), and the bit rate parsed from its text
/// (else its number); the streams never change these.
pub proof fn lemma_format_fields(m: MediaMetadata, f: ProbeFormat, ss: Seq<ProbeStream>)
    ensures
        f.format_name is Some && trim(f.format_name->0@).len() > 0 ==> with_format(m, f).format_name
            == f.format_name,
        (f.format_name is None || trim(f.format_name->0@).len() == 0) ==> with_format(
            m,
            f,
        ).format_name == m.format_name,
        f.duration_text is Some ==> with_format(m, f).duration_sec_bits == f.duration_text->0,
        f.duration_text is None && f.duration_number is Some ==> with_format(m, f).duration_sec_bits
            == f.duration_number,
        f.bit_rate_text is Some ==> with_format(m, f).bit_rate == parsed_u64(f.bit_rate_text->0@),
        f.bit_rate_text is None && f.bit_rate_number is Some ==> with_format(m, f).bit_rate
            == f.bit_rate_number,
        format_fields_kept(m, with_streams(m, ss)),
    decreases ss.len(),
{
    if ss.len() > 0 {
        lemma_known_codec_stays(m, ss[0]);
        lemma_format_fields(with_stream(m, ss[0]), f, ss.drop_first());
    }
}

/// Over any streams: a known audio codec keeps the audio fields as they
/// are.
pub proof fn lemma_known_audio_stays(m: MediaMetadata, ss: Seq<ProbeStream>)
    requires
        m.audio_codec is Some,
    ensures
        with_streams(m, ss).audio_codec == m.audio_codec,
        with_streams(m, ss).sample_rate == m.sample_rate,
        with_streams(m, ss).channels == m.channels,
    decreases ss.len(),
{
    if ss.len() > 0 {
        lemma_known_codec_stays(m, ss[0]);
        lemma_known_audio_stays(with_stream(m, ss[0]), ss.drop_first());
    }
}

/// The audio fields of a report come from its first audio stream, when that
/// stream names its codec: its codec, its sample rate (read from its text)
/// and its channels (cut to 32 bits); later audio streams change nothing.
pub proof fn lemma_first_audio_stream(m: MediaMetadata, ss: Seq<ProbeStream>, j: int)
    requires
        m.audio_codec is None,
        0 <= j < ss.len(),
        stream_type(ss[j]) == "audio"@,
        ss[j].codec_name is Some,
        forall|k: int| 0 <= k < j ==> stream_type(#[trigger] ss[k]) != "audio"@,
    ensures
        with_streams(m, ss).audio_codec == ss[j].codec_name,
        with_streams(m, ss).sample_rate == match ss[j].sample_rate {
            Some(t) => parsed_u32(t@),
            None => None,
        },
        with_streams(m, ss).channels == match ss[j].channels {
            Some(c) => Some(c as u32),
            None => None,
        },
    decreases j,
{
    let m1 = with_stream(m, ss[0]);
    lemma_known_codec_stays(m, ss[0]);
    if j == 0 {
        lemma_known_audio_stays(m1, ss.drop_first());
    } else {
        assert(stream_type(ss[0]) != "audio"@);
        let rest = ss.drop_first();
        assert forall|k: int| 0 <= k < j - 1 implies stream_type(#[trigger] rest[k]) != "audio"@ by {
            assert(rest[k] == ss[k + 1]);
        }
        lemma_first_audio_stream(m1, rest, j - 1);
    }
}

fn parse_u32(t: &String) -> (r: Option<u32>)
    ensures
        r == parsed_u32(t@),
{
    match parse_u64(&chars_of(t.as_str())) {
        Some(v) => if v <= 4294967295u64 {
            Some(v as u32)
        } else {
            None
        },
        None => None,
    }
}

fn cut_to_u32(v: Option<u64>) -> (r: Option<u32>)
    ensures
        r == cut_u32(v),
{
    match v {
        Some(x) => Some(#[verifier::truncate] (x as u32)),
        None => None,
    }
}

fn is_blank(t: &String) -> (r: bool)
    ensures
        r == (trim(t@).len() == 0),
{
    trim_chars(&chars_of(t.as_str())).len() == 0
}

fn apply_format(m: MediaMetadata, f: &ProbeFormat) -> (r: MediaMetadata)
    ensures
        r == with_format(m, *f),
{
    let mut m = m;
    match &f.format_name {
        Some(n) => if !is_blank(n) {
            m.format_name = Some(n.clone());
        },
        None => {},
    }
    match f.duration_text {
        Some(d) => m.duration_sec_bits = d,
        None => match f.duration_number {
            Some(d) => m.duration_sec_bits = Some(d),
            None => {},
        },
    }
    match &f.bit_rate_text {
        Some(b) => m.bit_rate = parse_u64(&chars_of(b.as_str())),
        None => match f.bit_rate_number {
            Some(b) => m.bit_rate = Some(b),
            None => {},
        },
    }
    m
}

fn type_is(s: &ProbeStream, kind: &str) -> (r: bool)
    ensures
        r == (stream_type(*s) == kind@),
{
    match &s.codec_type {
        Some(t) => chars_eq(&chars_of(t.as_str()), &chars_of(kind)),
        None => chars_eq(&Vec::new(), &chars_of(kind)),
    }
}

fn apply_stream(m: MediaMetadata, s: &ProbeStream) -> (r: MediaMetadata)
    ensures
        r == with_stream(m, *s),
{
    let mut m = m;
    if type_is(s, "video") && m.video_codec.is_none() {
        m.video_codec = copy_opt_string(&s.codec_name);
        m.pix_fmt = copy_opt_string(&s.pix_fmt);
        m.width = cut_to_u32(s.width);
        m.height = cut_to_u32(s.height);
        match s.avg_frame_rate {
            Some(r) => m.fps_bits = r,
            None => match s.r_frame_rate {
                Some(r) => m.fps_bits = r,
                None => {},
            },
        }
    }
    if type_is(s, "audio") && m.audio_codec.is_none() {
        m.audio_codec = copy_opt_string(&s.codec_name);
        m.sample_rate = match &s.sample_rate {
            Some(t) => parse_u32(t),
            None => None,
        };
        m.channels = cut_to_u32(s.channels);
    }
    m
}

/// The metadata that a probe report gives.
pub fn probe_metadata(format: &Option<ProbeFormat>, streams: &Vec<ProbeStream>) -> (r: Option<
    MediaMetadata,
>)
    ensures
        r == probe_report(*format, streams@),
{
    let mut m = match format {
        Some(f) => apply_format(MediaMetadata::empty(), f),
        None => MediaMetadata::empty(),
    };
    let ghost m0 = m;
    let n = streams.len();
    let mut i: usize = 0;
    assert(streams@.subrange(0, n as int) =~= streams@);
    while i < n
        invariant
            n == streams@.len(),
            i <= n,
            with_streams(m0, streams@) == with_streams(m, streams@.subrange(i as int, n as int)),
        decreases n - i,
    {
        let ghost rest = streams@.subrange(i as int, n as int);
        assert(rest[0] == streams@[i as int]);
        assert(rest.drop_first() =~= streams@.subrange(i + 1, n as int));
        m = apply_stream(m, &streams[i]);
        i += 1;
    }
    assert(streams@.subrange(n as int, n as int).len() == 0);
    if m.width.is_some() || m.height.is_some() || m.duration_sec_bits.is_some()
        || m.video_codec.is_some() || m.audio_codec.is_some() || m.format_name.is_some() {
        Some(m)
    } else {
        None
    }
}

/// The extension of a path, trimmed; the empty text when it has none.
pub open spec fn trimmed_extension(p: Seq<char>) -> Seq<char> {
    trim(
        match extension(p) {
            Some(e) => e,
            None => Seq::empty(),
        },
    )
}

/// The metadata of an image (a path of the platform): its dimensions where they could be read and,
/// as the format name, its trimmed extension in lower case where that is
/// not empty; nothing when neither is known.
pub fn image_metadata(dimensions: Option<(u32, u32)>, path: &str, platform: Platform) -> (r: Option<
    MediaMetadata,
>)
    ensures
        r is Some <==> (dimensions is Some || trimmed_extension(native(path@, platform)).len() > 0),
        r matches Some(m) ==> {
            &&& m.width == (match dimensions {
                Some(d) => Some(d.0),
                None => None,
            })
            &&& m.height == (match dimensions {
                Some(d) => Some(d.1),
                None => None,
            })
            &&& trimmed_extension(native(path@, platform)).len() > 0 ==> m.format_name is Some
                && m.format_name->0@ == lowercase(trimmed_extension(native(path@, platform)))
            &&& trimmed_extension(native(path@, platform)).len() == 0 ==> m.format_name is None
            &&& m.duration_sec_bits is None && m.bit_rate is None && m.video_codec is None
            &&& m.pix_fmt is None && m.fps_bits is None && m.audio_codec is None
            &&& m.sample_rate is None && m.channels is None
        },
{
    let mut m = MediaMetadata::empty();
    match dimensions {
        Some((w, h)) => {
            m.width = Some(w);
            m.height = Some(h);
        },
        None => {},
    }
    let e = trim_chars(&extension_or_empty(&native_chars(&chars_of(path), platform)));
    if e.len() > 0 {
        m.format_name = Some(string_of(&lowercase_chars(&e)));
    }
    if m.width.is_some() || m.height.is_some() || m.format_name.is_some() {
        Some(m)
    } else {
        None
    }
}

} // verus!
