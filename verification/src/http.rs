//! The local media server and the `wallcraft://` protocol: how a request
//! is read, which files may be served (only those under the data
//! directory), and the text of each reply's header.
use vstd::prelude::*;
use crate::external::{
    allow_headers_header, allow_methods_header, allow_origin_header, no_content_status,
    percent_decode, percent_decoded,
};
use crate::layout::Platform;
use crate::paths::{native, native_chars, path_starts_with, starts_with_path};
use crate::scan::{
    all_digits, is_digit, lemma_decimal_reads_back, lemma_first_index_of,
    first_index, first_index_of, lines, lines_of, parse_u64, parsed_u64, split_at_char, split_on,
    views, words, words_of,
};
use crate::text::{
    append_chars, ascii_lower_seq, chars_eq, chars_of, decimal, decimal_chars, ends_with,
    has_prefix, has_suffix, is_white_space, starts_with, string_of, sub_chars, to_ascii_lower, trim,
    trim_chars, trim_end, trim_start,
};

verus! {

/// The method of a request line: its first word, `GET` when it has none.
pub open spec fn request_method(first: Seq<char>) -> Seq<char> {
    let w = words(first);
    if w.len() > 0 {
        w[0]
    } else {
        "GET"@
    }
}

/// The target of a request line: its second word, `/` when it has none.
pub open spec fn request_target(first: Seq<char>) -> Seq<char> {
    let w = words(first);
    if w.len() > 1 {
        w[1]
    } else {
        "/"@
    }
}

/// A header line that names a byte range: it starts with `range:` in any
/// ASCII case.
pub open spec fn is_range_line(l: Seq<char>) -> bool {
    has_prefix(ascii_lower_seq(l), "range:"@)
}

/// The first range line of some header lines.
pub open spec fn first_range_line(ls: Seq<Seq<char>>) -> Option<Seq<char>>
    decreases ls.len(),
{
    if ls.len() == 0 {
        None
    } else if is_range_line(ls[0]) {
        Some(ls[0])
    } else {
        first_range_line(ls.drop_first())
    }
}

/// The query of a target: the text after its first `?`, or nothing.
pub open spec fn query_of(target: Seq<char>) -> Seq<char> {
    let q = first_index_of(target, '?');
    if q < 0 {
        Seq::empty()
    } else {
        target.subrange(q + 1, target.len() as int)
    }
}

/// The key of a `key=value` pair (the whole text when it has no `=`).
pub open spec fn pair_key(kv: Seq<char>) -> Seq<char> {
    let e = first_index_of(kv, '=');
    if e < 0 {
        kv
    } else {
        kv.subrange(0, e)
    }
}

/// The value of a `key=value` pair (nothing when it has no `=`).
pub open spec fn pair_value(kv: Seq<char>) -> Seq<char> {
    let e = first_index_of(kv, '=');
    if e < 0 {
        Seq::empty()
    } else {
        kv.subrange(e + 1, kv.len() as int)
    }
}

/// The value of the first pair whose key is `path`.
pub open spec fn first_path_value(pairs: Seq<Seq<char>>) -> Option<Seq<char>>
    decreases pairs.len(),
{
    if pairs.len() == 0 {
        None
    } else if pair_key(pairs[0]) == "path"@ {
        Some(pair_value(pairs[0]))
    } else {
        first_path_value(pairs.drop_first())
    }
}

/// The `path` parameter of a target's query.
pub open spec fn path_param(target: Seq<char>) -> Option<Seq<char>> {
    first_path_value(split_on(query_of(target), '&'))
}

/// The percent-decoded text, or the text itself where decoding fails.
pub open spec fn decoded_or_raw(raw: Seq<char>) -> Seq<char> {
    match percent_decoded(raw) {
        Some(d) => d,
        None => raw,
    }
}

/// The reply that a reply line with no body carries: `HTTP/1.1 <code>` and
/// an empty body.
pub open spec fn bare_reply(code: Seq<char>) -> Seq<char> {
    "HTTP/1.1 "@ + code + "\r\nContent-Length: 0\r\n\r\n"@
}

/// The reply to `OPTIONS`: 204 with the cross-origin headers.
pub open spec fn options_reply() -> Seq<char> {
    "HTTP/1.1 "@ + decimal(204) + "\r\n"@ + "access-control-allow-origin"@ + ": *\r\n"@
        + "access-control-allow-headers"@ + ": *\r\n"@ + "access-control-allow-methods"@
        + ": GET,HEAD,OPTIONS\r\nContent-Length: 0\r\n\r\n"@
}

/// What a request to the media server comes to, in terms of text.
pub enum MediaRouteSpec {
    /// The request holds no line; nothing is sent back.
    NoReply,
    /// Send this reply and close.
    Reply(Seq<char>),
    /// Send the file at `path` (a `HEAD` request asks for its header only),
    /// honouring the range line when there is one.
    Serve { head: bool, path: Seq<char>, range: Option<Seq<char>> },
}

/// How the media server answers a request, up to the point where it looks
/// at the file: only a path under the data directory is served.
pub open spec fn media_route(req: Seq<char>, data_dir: Seq<char>, platform: Platform) -> MediaRouteSpec {
    let ls = lines(req);
    if ls.len() == 0 {
        MediaRouteSpec::NoReply
    } else {
        let method = request_method(ls[0]);
        let target = request_target(ls[0]);
        let range = first_range_line(ls.drop_first());
        if method == "OPTIONS"@ {
            MediaRouteSpec::Reply(options_reply())
        } else if !has_prefix(target, "/file"@) {
            MediaRouteSpec::Reply(bare_reply("404"@))
        } else {
            match path_param(target) {
                None => MediaRouteSpec::Reply(bare_reply("400"@)),
                Some(raw) => {
                    let p = decoded_or_raw(raw);
                    if !path_starts_with(native(p, platform), native(data_dir, platform)) {
                        MediaRouteSpec::Reply(bare_reply("403"@))
                    } else {
                        MediaRouteSpec::Serve { head: method == "HEAD"@, path: p, range: range }
                    }
                },
            }
        }
    }
}

/// What a request to the media server comes to.
pub enum MediaRoute {
    NoReply,
    Reply(String),
    Serve { head: bool, path: String, range: Option<String> },
}

pub open spec fn media_route_view(r: MediaRoute) -> MediaRouteSpec {
    match r {
        MediaRoute::NoReply => MediaRouteSpec::NoReply,
        MediaRoute::Reply(t) => MediaRouteSpec::Reply(t@),
        MediaRoute::Serve { head, path, range } => MediaRouteSpec::Serve {
            head: head,
            path: path@,
            range: match range {
                Some(l) => Some(l@),
                None => None,
            },
        },
    }
}

fn first_range_line_of(ls: &Vec<Vec<char>>) -> (r: Option<Vec<char>>)
    requires
        ls@.len() > 0,
    ensures
        match r {
            Some(l) => first_range_line(views(ls@).drop_first()) == Some(l@),
            None => first_range_line(views(ls@).drop_first()) is None,
        },
{
    let prefix = chars_of("range:");
    let mut i: usize = 1;
    assert(views(ls@).drop_first() =~= views(ls@).subrange(1, ls@.len() as int));
    while i < ls.len()
        invariant
            1 <= i <= ls@.len(),
            prefix@ == "range:"@,
            first_range_line(views(ls@).drop_first()) == first_range_line(
                views(ls@).subrange(i as int, ls@.len() as int),
            ),
        decreases ls@.len() - i,
    {
        let ghost rest = views(ls@).subrange(i as int, ls@.len() as int);
        assert(rest[0] == ls@[i as int]@);
        if starts_with(&to_ascii_lower(&ls[i]), &prefix) {
            return Some(sub_chars(&ls[i], 0, ls[i].len()));
        }
        assert(rest.drop_first() =~= views(ls@).subrange(i + 1, ls@.len() as int));
        i += 1;
    }
    None
}

fn query_text(target: &[char]) -> (r: Vec<char>)
    ensures
        r@ == query_of(target@),
{
    let n = target.len();
    match first_index(target, '?') {
        Some(q) => sub_chars(target, q + 1, n),
        None => Vec::new(),
    }
}

fn path_value(query: &[char]) -> (r: Option<Vec<char>>)
    ensures
        match r {
            Some(v) => first_path_value(split_on(query@, '&')) == Some(v@),
            None => first_path_value(split_on(query@, '&')) is None,
        },
{
    let pairs = split_at_char(query, '&');
    let key = chars_of("path");
    let mut i: usize = 0;
    assert(views(pairs@).subrange(0, pairs@.len() as int) =~= views(pairs@));
    while i < pairs.len()
        invariant
            i <= pairs@.len(),
            key@ == "path"@,
            first_path_value(split_on(query@, '&')) == first_path_value(
                views(pairs@).subrange(i as int, pairs@.len() as int),
            ),
            views(pairs@) == split_on(query@, '&'),
        decreases pairs@.len() - i,
    {
        let ghost rest = views(pairs@).subrange(i as int, pairs@.len() as int);
        let kv = &pairs[i];
        assert(rest[0] == kv@);
        let (k, v) = match first_index(kv, '=') {
            Some(e) => (sub_chars(kv, 0, e), sub_chars(kv, e + 1, kv.len())),
            None => (sub_chars(kv, 0, kv.len()), Vec::new()),
        };
        proof {
            assert(kv@.subrange(0, kv@.len() as int) =~= kv@);
        }
        if chars_eq(&k, &key) {
            return Some(v);
        }
        assert(rest.drop_first() =~= views(pairs@).subrange(i + 1, pairs@.len() as int));
        i += 1;
    }
    None
}

fn decoded_or_raw_text(raw: &[char]) -> (r: Vec<char>)
    ensures
        r@ == decoded_or_raw(raw@),
{
    match percent_decode(raw) {
        Some(d) => d,
        None => sub_chars(raw, 0, raw.len()),
    }
}

fn bare_reply_text(code: &str) -> (r: String)
    ensures
        r@ == bare_reply(code@),
{
    let mut v = chars_of("HTTP/1.1 ");
    append_chars(&mut v, &chars_of(code));
    append_chars(&mut v, &chars_of("\r\nContent-Length: 0\r\n\r\n"));
    string_of(&v)
}

/// The reply to `OPTIONS`.
pub fn options_reply_text() -> (r: String)
    ensures
        r@ == options_reply(),
{
    let mut v = chars_of("HTTP/1.1 ");
    append_chars(&mut v, &decimal_chars(no_content_status() as u64));
    append_chars(&mut v, &chars_of("\r\n"));
    append_chars(&mut v, &allow_origin_header());
    append_chars(&mut v, &chars_of(": *\r\n"));
    append_chars(&mut v, &allow_headers_header());
    append_chars(&mut v, &chars_of(": *\r\n"));
    append_chars(&mut v, &allow_methods_header());
    append_chars(&mut v, &chars_of(": GET,HEAD,OPTIONS\r\nContent-Length: 0\r\n\r\n"));
    string_of(&v)
}

/// The reply when the file cannot be found.
pub fn not_found_reply() -> (r: String)
    ensures
        r@ == bare_reply("404"@),
{
    bare_reply_text("404")
}

/// The reply when the file cannot be read.
pub fn server_error_reply() -> (r: String)
    ensures
        r@ == bare_reply("500"@),
{
    bare_reply_text("500")
}

/// Reads a request to the media server (its text as received) and decides
/// how to answer it; `data_dir` is the only directory whose files it serves,
/// paths being read as `platform` reads them.
pub fn route_media_request(req: &str, data_dir: &str, platform: Platform) -> (r: MediaRoute)
    ensures
        media_route_view(r) == media_route(req@, data_dir@, platform),
        r is Serve ==> path_starts_with(native(r->path@, platform), native(data_dir@, platform)),
{
    let ls = lines_of(&chars_of(req));
    if ls.len() == 0 {
        return MediaRoute::NoReply;
    }
    let w = words_of(&ls[0]);
    let method = if w.len() > 0 {
        sub_chars(&w[0], 0, w[0].len())
    } else {
        chars_of("GET")
    };
    let target = if w.len() > 1 {
        sub_chars(&w[1], 0, w[1].len())
    } else {
        chars_of("/")
    };
    proof {
        if w@.len() > 0 {
            assert(w@[0]@.subrange(0, w@[0]@.len() as int) =~= w@[0]@);
        }
        if w@.len() > 1 {
            assert(w@[1]@.subrange(0, w@[1]@.len() as int) =~= w@[1]@);
        }
        assert(views(ls@)[0] == ls@[0]@);
    }
    let range = first_range_line_of(&ls);
    if chars_eq(&method, &chars_of("OPTIONS")) {
        return MediaRoute::Reply(options_reply_text());
    }
    if !starts_with(&target, &chars_of("/file")) {
        return MediaRoute::Reply(bare_reply_text("404"));
    }
    let raw = match path_value(&query_text(&target)) {
        Some(v) => v,
        None => return MediaRoute::Reply(bare_reply_text("400")),
    };
    let p = decoded_or_raw_text(&raw);
    if !starts_with_path(&native_chars(&p, platform), &native_chars(&chars_of(data_dir), platform)) {
        return MediaRoute::Reply(bare_reply_text("403"));
    }
    let head = chars_eq(&method, &chars_of("HEAD"));
    let range_text = match range {
        Some(l) => Some(string_of(&l)),
        None => None,
    };
    MediaRoute::Serve { head, path: string_of(&p), range: range_text }
}

/// The header of a whole file, sent for `HEAD` and before a full body.
pub open spec fn full_header(mime: Seq<char>, len: nat) -> Seq<char> {
    "HTTP/1.1 200\r\nContent-Type: "@ + mime + "\r\nContent-Length: "@ + decimal(len)
        + "\r\nAccept-Ranges: bytes\r\n"@ + "access-control-allow-origin"@ + ": *\r\n\r\n"@
}

/// The header of a whole file of `len` bytes.
pub fn full_header_text(mime: &str, len: u64) -> (r: String)
    ensures
        r@ == full_header(mime@, len as nat),
{
    let mut v = chars_of("HTTP/1.1 200\r\nContent-Type: ");
    append_chars(&mut v, &chars_of(mime));
    append_chars(&mut v, &chars_of("\r\nContent-Length: "));
    append_chars(&mut v, &decimal_chars(len));
    append_chars(&mut v, &chars_of("\r\nAccept-Ranges: bytes\r\n"));
    append_chars(&mut v, &allow_origin_header());
    append_chars(&mut v, &chars_of(": *\r\n\r\n"));
    string_of(&v)
}

/// The start and end that a range line asks for, a single range
/// `bytes=start-end` with either number left out: the line (trimmed) holds
/// a `=` whose text before it ends with the unit `bytes`; the text after the
/// `=` up to the first `-` is the start and the text after that `-` the
/// end, each trimmed. An empty or unreadable number gives nothing, and so
/// does a line of another form.
pub open spec fn range_bounds(line: Seq<char>) -> (Option<u64>, Option<u64>) {
    let r = trim(line);
    let eq = first_index_of(r, '=');
    if eq < 0 {
        (None, None)
    } else {
        let unit = r.subrange(0, eq);
        let v = r.subrange(eq + 1, r.len() as int);
        let dash = first_index_of(v, '-');
        if !has_suffix(unit, "bytes"@) || dash < 0 {
            (None, None)
        } else {
            let a = trim(v.subrange(0, dash));
            let b = trim(v.subrange(dash + 1, v.len() as int));
            (
                if a.len() > 0 {
                    parsed_u64(a)
                } else {
                    None
                },
                if b.len() > 0 {
                    parsed_u64(b)
                } else {
                    None
                },
            )
        }
    }
}

/// A text whose first and last characters are not white space is its own
/// trimmed text.
proof fn lemma_trim_keeps(t: Seq<char>)
    requires
        t.len() > 0,
        !is_white_space(t[0]),
        !is_white_space(t.last()),
    ensures
        trim(t) == t,
{
    assert(trim_start(t) == t);
    assert(trim_end(t) == t);
}

proof fn lemma_number_text(n: u64)
    ensures
        decimal(n as nat).len() > 0,
        all_digits(decimal(n as nat)),
        trim(decimal(n as nat)) == decimal(n as nat),
        parsed_u64(decimal(n as nat)) == Some(n),
        forall|i: int|
            0 <= i < decimal(n as nat).len() ==> #[trigger] decimal(n as nat)[i] != '-'
                && decimal(n as nat)[i] != '=',
{
    let d = decimal(n as nat);
    lemma_decimal_reads_back(n as nat);
    assert(is_digit(d[0]));
    assert(is_digit(d[d.len() - 1]));
    lemma_trim_keeps(d);
    assert forall|i: int| 0 <= i < d.len() implies #[trigger] d[i] != '-' && d[i] != '=' by {
        assert(is_digit(d[i]));
    }
}

/// The single ranges of the `Range` header are read as asked:
/// `Range: bytes=<a>-<b>` asks for the bytes `a` to `b`, and
/// `Range: bytes=<a>-` for the bytes from `a` on.
pub proof fn lemma_range_lines_read(a: u64, b: u64)
    ensures
        range_bounds("Range: bytes="@ + decimal(a as nat) + "-"@ + decimal(b as nat)) == (
            Some(a),
            Some(b),
        ),
        range_bounds("Range: bytes="@ + decimal(a as nat) + "-"@) == (Some(a), None::<u64>),
{
    reveal_strlit("Range: bytes=");
    reveal_strlit("-");
    reveal_strlit("bytes");
    let p = "Range: bytes="@;
    let da = decimal(a as nat);
    let db = decimal(b as nat);
    lemma_number_text(a);
    lemma_number_text(b);
    assert(p.len() == 13);
    // the full range
    let line = p + da + "-"@ + db;
    lemma_trim_keeps(line);
    lemma_first_index_of(line, '=', 12);
    assert(line.subrange(0, 12).subrange(7, 12) =~= "bytes"@);
    let v = line.subrange(13, line.len() as int);
    assert(v =~= da + "-"@ + db);
    assert forall|j: int| 0 <= j < da.len() implies v[j] != '-' by {
        assert(v[j] == da[j]);
    }
    lemma_first_index_of(v, '-', da.len() as int);
    assert(v.subrange(0, da.len() as int) =~= da);
    assert(v.subrange(da.len() as int + 1, v.len() as int) =~= db);
    // the open range
    let line2 = p + da + "-"@;
    lemma_trim_keeps(line2);
    lemma_first_index_of(line2, '=', 12);
    assert(line2.subrange(0, 12).subrange(7, 12) =~= "bytes"@);
    let v2 = line2.subrange(13, line2.len() as int);
    assert(v2 =~= da + "-"@);
    assert forall|j: int| 0 <= j < da.len() implies v2[j] != '-' by {
        assert(v2[j] == da[j]);
    }
    lemma_first_index_of(v2, '-', da.len() as int);
    assert(v2.subrange(0, da.len() as int) =~= da);
    assert(v2.subrange(da.len() as int + 1, v2.len() as int).len() == 0);
    assert(trim(Seq::<char>::empty()).len() == 0);
}

/// How a range request is answered.
pub enum RangeReply {
    /// The range lies outside the file: send this header alone.
    NotSatisfiable(String),
    /// Send `header`, then `to_read` bytes of the file from `start` on
    /// (the bytes `start..=end`).
    Partial { start: u64, end: u64, to_read: u64, header: String },
}

/// The header of a range outside a file of `len` bytes (416).
pub open spec fn unsatisfiable_header(len: nat) -> Seq<char> {
    "HTTP/1.1 416\r\nContent-Range: bytes */"@ + decimal(len)
        + "\r\nContent-Length: 0\r\nAccept-Ranges: bytes\r\n"@ + "access-control-allow-origin"@
        + ": *\r\n\r\n"@
}

/// The header of part of a file (206).
pub open spec fn partial_header(mime: Seq<char>, start: nat, end: nat, len: nat) -> Seq<char> {
    "HTTP/1.1 206\r\nContent-Type: "@ + mime + "\r\nContent-Length: "@ + decimal(
        (end - start + 1) as nat,
    ) + "\r\nContent-Range: bytes "@ + decimal(start) + "-"@ + decimal(end) + "/"@ + decimal(len)
        + "\r\nAccept-Ranges: bytes\r\n"@ + "access-control-allow-origin"@ + ": *\r\n\r\n"@
}

fn trimmed_bound(t: &[char]) -> (r: Option<u64>)
    ensures
        r == if trim(t@).len() > 0 {
            parsed_u64(trim(t@))
        } else {
            None
        },
{
    let a = trim_chars(t);
    if a.len() > 0 {
        parse_u64(&a)
    } else {
        None
    }
}

/// The start and end that a range line asks for.
pub fn range_bounds_of(line: &str) -> (r: (Option<u64>, Option<u64>))
    ensures
        r == range_bounds(line@),
{
    let r = trim_chars(&chars_of(line));
    let rn = r.len();
    let eq = match first_index(&r, '=') {
        Some(e) => e,
        None => return (None, None),
    };
    let unit = sub_chars(&r, 0, eq);
    if !ends_with(&unit, &chars_of("bytes")) {
        return (None, None);
    }
    let v = sub_chars(&r, eq + 1, rn);
    let vn = v.len();
    let dash = match first_index(&v, '-') {
        Some(d) => d,
        None => return (None, None),
    };
    let a = trimmed_bound(&sub_chars(&v, 0, dash));
    let b = trimmed_bound(&sub_chars(&v, dash + 1, vn));
    (a, b)
}

/// How a range request for a file of `len` bytes is answered: a missing
/// start is 0 and a missing end the last byte; a start past the file, or an
/// end before the start, cannot be satisfied; otherwise the end is cut to
/// the last byte.
pub fn plan_range(line: &str, mime: &str, len: u64) -> (r: RangeReply)
    ensures
        ({
            let (s, e) = range_bounds(line@);
            let start = match s {
                Some(v) => v as int,
                None => 0,
            };
            let end = match e {
                Some(v) => v as int,
                None => if len > 0 {
                    len - 1
                } else {
                    0
                },
            };
            if start >= len || end < start {
                r matches RangeReply::NotSatisfiable(h) && h@ == unsatisfiable_header(len as nat)
            } else {
                let last = if end < len - 1 {
                    end
                } else {
                    len - 1
                };
                r matches RangeReply::Partial { start: s2, end: e2, to_read, header }
                    && s2 == start && e2 == last && to_read == last - start + 1 && header@
                    == partial_header(mime@, start as nat, last as nat, len as nat)
            }
        }),
        r matches RangeReply::Partial { start, end, to_read, .. } ==> start <= end < len
            && to_read == end - start + 1 && to_read <= len,
{
    let (s, e) = range_bounds_of(line);
    let start: u64 = match s {
        Some(v) => v,
        None => 0,
    };
    let end: u64 = match e {
        Some(v) => v,
        None => if len > 0 {
            len - 1
        } else {
            0
        },
    };
    if start >= len || end < start {
        let mut v = chars_of("HTTP/1.1 416\r\nContent-Range: bytes */");
        append_chars(&mut v, &decimal_chars(len));
        append_chars(&mut v, &chars_of("\r\nContent-Length: 0\r\nAccept-Ranges: bytes\r\n"));
        append_chars(&mut v, &allow_origin_header());
        append_chars(&mut v, &chars_of(": *\r\n\r\n"));
        return RangeReply::NotSatisfiable(string_of(&v));
    }
    let last = if end < len - 1 {
        end
    } else {
        len - 1
    };
    let to_read = last - start + 1;
    let mut v = chars_of("HTTP/1.1 206\r\nContent-Type: ");
    append_chars(&mut v, &chars_of(mime));
    append_chars(&mut v, &chars_of("\r\nContent-Length: "));
    append_chars(&mut v, &decimal_chars(to_read));
    append_chars(&mut v, &chars_of("\r\nContent-Range: bytes "));
    append_chars(&mut v, &decimal_chars(start));
    append_chars(&mut v, &chars_of("-"));
    append_chars(&mut v, &decimal_chars(last));
    append_chars(&mut v, &chars_of("/"));
    append_chars(&mut v, &decimal_chars(len));
    append_chars(&mut v, &chars_of("\r\nAccept-Ranges: bytes\r\n"));
    append_chars(&mut v, &allow_origin_header());
    append_chars(&mut v, &chars_of(": *\r\n\r\n"));
    RangeReply::Partial { start, end: last, to_read, header: string_of(&v) }
}

/// `s` without its leading `c`s (`str::trim_start_matches`).
pub open spec fn trim_start_char(s: Seq<char>, c: char) -> Seq<char>
    decreases s.len(),
{
    if s.len() > 0 && s[0] == c {
        trim_start_char(s.drop_first(), c)
    } else {
        s
    }
}

fn trim_start_matching(s: &[char], c: char) -> (r: Vec<char>)
    ensures
        r@ == trim_start_char(s@, c),
{
    let n = s.len();
    let mut i: usize = 0;
    assert(s@.subrange(0, n as int) =~= s@);
    while i < n && s[i] == c
        invariant
            n == s@.len(),
            i <= n,
            trim_start_char(s@, c) == trim_start_char(s@.subrange(i as int, n as int), c),
        decreases n - i,
    {
        let ghost t = s@.subrange(i as int, n as int);
        assert(t[0] == s@[i as int]);
        assert(t.drop_first() =~= s@.subrange(i + 1, n as int));
        i += 1;
    }
    sub_chars(s, i, n)
}

/// What a request of the `wallcraft://` protocol comes to, before the file
/// is looked at.
pub enum ProtocolRoute {
    /// The path is empty (400).
    BadRequest,
    /// `OPTIONS` (204).
    NoContent,
    /// The path is not under the data directory (403).
    Forbidden,
    /// Serve the file at `path`; for `HEAD`, its header only.
    Serve { path: String, head: bool },
}

/// The file that a protocol URI's path names: the path without leading `/`,
/// percent-decoded where that works.
pub open spec fn protocol_file(uri_path: Seq<char>) -> Seq<char> {
    decoded_or_raw(trim_start_char(uri_path, '/'))
}

/// Decides a request of the `wallcraft://` protocol: an empty path is a bad
/// request, `OPTIONS` is answered at once, a path outside the data
/// directory (paths read as `platform` reads them) is refused, and any other
/// is served.
pub fn route_protocol_request(method: &str, uri_path: &str, data_dir: &str, platform: Platform) -> (r:
    ProtocolRoute)
    ensures
        protocol_file(uri_path@).len() == 0 <==> r is BadRequest,
        protocol_file(uri_path@).len() > 0 && method@ == "OPTIONS"@ <==> r is NoContent,
        protocol_file(uri_path@).len() > 0 && method@ != "OPTIONS"@ && !path_starts_with(
            native(protocol_file(uri_path@), platform),
            native(data_dir@, platform),
        ) <==> r is Forbidden,
        match r {
            ProtocolRoute::Serve { path, head } => path@ == protocol_file(uri_path@)
                && path_starts_with(native(path@, platform), native(data_dir@, platform)) && head == (
                method@ == "HEAD"@),
            _ => true,
        },
{
    let raw = trim_start_matching(&chars_of(uri_path), '/');
    let p = decoded_or_raw_text(&raw);
    if p.len() == 0 {
        return ProtocolRoute::BadRequest;
    }
    let m = chars_of(method);
    if chars_eq(&m, &chars_of("OPTIONS")) {
        return ProtocolRoute::NoContent;
    }
    if !starts_with_path(&native_chars(&p, platform), &native_chars(&chars_of(data_dir), platform)) {
        return ProtocolRoute::Forbidden;
    }
    let head = chars_eq(&m, &chars_of("HEAD"));
    ProtocolRoute::Serve { path: string_of(&p), head }
}

} // verus!
