//! File names that the library makes: sanitized stems, the names that the
//! JSON database accepts, names of downloads and the ids of resources.
use vstd::prelude::*;
use crate::external::{
    is_uuid_text_char, lowercase, lowercase_chars, url_last_segment, url_last_segment_of,
    uuid_v5_url, uuid_v5_url_text,
};
use crate::layout::Platform;
use crate::paths::{
    file_name, file_name_of, file_stem, file_stem_of, is_plain_name, join, join_chars,
    path_starts_with, lemma_join_name_starts_with, native, native_chars,
};
use crate::text::{
    append_chars, chars_of, concat_chars, contains_char, ends_with, has_prefix, has_suffix,
    is_ascii_alphanumeric, is_ascii_alphanumeric_char, is_control, is_control_char, is_white_space,
    lemma_trim_end_shape, lemma_trim_start_shape, string_of, trim, trim_chars, trim_end,
    trim_end_char, trim_end_matching, trim_start,
};

verus! {

/// The characters that Windows does not allow in a file name.
pub open spec fn is_reserved_name_char(c: char) -> bool {
    c == '<' || c == '>' || c == ':' || c == '"' || c == '/' || c == '\\' || c == '|' || c == '?'
        || c == '*'
}

/// A character that a sanitized name may not hold.
pub open spec fn is_invalid_name_char(c: char) -> bool {
    is_reserved_name_char(c) || is_control(c)
}

/// Every invalid character replaced by `_`.
pub open spec fn replace_invalid(s: Seq<char>) -> Seq<char> {
    s.map_values(|c: char| if is_invalid_name_char(c) { '_' } else { c })
}

/// The sanitized form of `s`: invalid characters replaced by `_`, white
/// space trimmed from both ends, then trailing dots removed; `fallback` if
/// nothing is left.
pub open spec fn sanitized(s: Seq<char>, fallback: Seq<char>) -> Seq<char> {
    let t = trim_end_char(trim(replace_invalid(s)), '.');
    if t.len() == 0 {
        fallback
    } else {
        t
    }
}

fn is_invalid_name_char_exec(c: char) -> (r: bool)
    ensures
        r == is_invalid_name_char(c),
{
    c == '<' || c == '>' || c == ':' || c == '"' || c == '/' || c == '\\' || c == '|' || c == '?'
        || c == '*' || is_control_char(c)
}

fn replace_invalid_chars(s: &[char]) -> (r: Vec<char>)
    ensures
        r@ == replace_invalid(s@),
{
    let mut r: Vec<char> = Vec::new();
    let mut i: usize = 0;
    while i < s.len()
        invariant
            i <= s@.len(),
            r@ == replace_invalid(s@.subrange(0, i as int)),
        decreases s@.len() - i,
    {
        let c = s[i];
        if is_invalid_name_char_exec(c) {
            r.push('_');
        } else {
            r.push(c);
        }
        i += 1;
        assert(r@ =~= replace_invalid(s@.subrange(0, i as int)));
    }
    assert(s@.subrange(0, s@.len() as int) =~= s@);
    r
}

fn sanitize_with(s: &[char], fallback: &str) -> (r: Vec<char>)
    ensures
        r@ == sanitized(s@, fallback@),
{
    let replaced = replace_invalid_chars(s);
    let trimmed = trim_chars(&replaced);
    let t = trim_end_matching(&trimmed, '.');
    if t.len() == 0 {
        chars_of(fallback)
    } else {
        t
    }
}

/// Sanitizing changes only what it must: a name that neither starts nor
/// ends with white space and does not end with a dot keeps its length and
/// every character, but each invalid one (`<>:"/\|?*` or a control
/// character), which becomes `_`.
pub proof fn lemma_sanitize_replaces_only_invalid(s: Seq<char>, fallback: Seq<char>)
    requires
        s.len() > 0,
        !is_white_space(s[0]),
        !is_white_space(s.last()),
        s.last() != '.',
    ensures
        sanitized(s, fallback).len() == s.len(),
        forall|i: int|
            0 <= i < s.len() ==> #[trigger] sanitized(s, fallback)[i] == if is_invalid_name_char(s[i]) {
                '_'
            } else {
                s[i]
            },
{
    let r = replace_invalid(s);
    assert(r.len() == s.len());
    assert(!is_white_space(r[0]));
    assert(r.last() == r[r.len() - 1]);
    assert(!is_white_space(r.last()));
    assert(trim_start(r) == r);
    assert(trim_end(r) == r);
    assert(trim(r) == r);
    assert(r.last() != '.');
    assert(trim_end_char(r, '.') == r);
}

/// Makes a file stem safe for the file systems the application runs on:
/// the characters `<>:"/\|?*` and control characters become `_`, white
/// space is trimmed from both ends, trailing dots are removed, and an empty
/// result becomes `untitled`.
pub fn sanitize_file_stem(stem: &str) -> (r: String)
    ensures
        r@ == sanitized(stem@, "untitled"@),
{
    let v = chars_of(stem);
    let r = sanitize_with(&v, "untitled");
    string_of(&r)
}

/// Sanitizes the name of a downloaded file as `sanitize_file_stem` does,
/// with `download` in place of an empty result.
pub fn sanitize_file_name(name: &str) -> (r: String)
    ensures
        r@ == sanitized(name@, "download"@),
{
    let v = chars_of(name);
    let r = sanitize_with(&v, "download");
    string_of(&r)
}

/// Every character of `t` is a character of `s` at some index.
pub open spec fn chars_from(t: Seq<char>, s: Seq<char>) -> bool {
    forall|i: int| 0 <= i < t.len() ==> exists|j: int| 0 <= j < s.len() && s[j] == #[trigger] t[i]
}

proof fn lemma_trim_chars_from(s: Seq<char>)
    ensures
        chars_from(trim(s), s),
        trim(s).len() > 0 ==> !crate::text::is_white_space(trim(s)[0]),
{
    lemma_trim_start_shape(s);
    let a = trim_start(s);
    let i = choose|i: int|
        0 <= i <= s.len() && trim_start(s) == s.subrange(i, s.len() as int) && (forall|j: int|
            0 <= j < i ==> crate::text::is_white_space(#[trigger] s[j]));
    lemma_trim_end_shape(a);
    let k = choose|k: int|
        0 <= k <= a.len() && trim_end(a) == a.subrange(0, k) && (forall|j: int|
            k <= j < a.len() ==> crate::text::is_white_space(#[trigger] a[j]));
    assert forall|m: int| 0 <= m < trim(s).len() implies exists|j: int|
        0 <= j < s.len() && s[j] == #[trigger] trim(s)[m] by {
        assert(trim(s)[m] == s[i + m]);
    }
}

proof fn lemma_trim_end_char_shape(s: Seq<char>, c: char)
    ensures
        exists|k: int| 0 <= k <= s.len() && trim_end_char(s, c) == s.subrange(0, k),
        trim_end_char(s, c).len() > 0 ==> trim_end_char(s, c).last() != c,
    decreases s.len(),
{
    if s.len() > 0 && s.last() == c {
        lemma_trim_end_char_shape(s.drop_last(), c);
        let k = choose|k: int|
            0 <= k <= s.drop_last().len() && trim_end_char(s.drop_last(), c)
                == s.drop_last().subrange(0, k);
        assert(s.drop_last().subrange(0, k) =~= s.subrange(0, k));
    } else {
        assert(s.subrange(0, s.len() as int) =~= s);
    }
}

/// A sanitized name holds no invalid character, is not empty, does not end
/// with a dot and does not start with white space, whenever the fallback
/// itself is such a name.
pub proof fn lemma_sanitized_is_clean(s: Seq<char>, fallback: Seq<char>)
    requires
        fallback.len() > 0,
        fallback.last() != '.',
        !crate::text::is_white_space(fallback[0]),
        forall|i: int| 0 <= i < fallback.len() ==> !is_invalid_name_char(#[trigger] fallback[i]),
    ensures
        sanitized(s, fallback).len() > 0,
        sanitized(s, fallback).last() != '.',
        !crate::text::is_white_space(sanitized(s, fallback)[0]),
        forall|i: int|
            0 <= i < sanitized(s, fallback).len() ==> !is_invalid_name_char(
                #[trigger] sanitized(s, fallback)[i],
            ),
        is_plain_name(sanitized(s, fallback)),
{
    let rep = replace_invalid(s);
    let t1 = trim(rep);
    lemma_trim_chars_from(rep);
    let t = trim_end_char(t1, '.');
    lemma_trim_end_char_shape(t1, '.');
    let k = choose|k: int| 0 <= k <= t1.len() && trim_end_char(t1, '.') == t1.subrange(0, k);
    let r = sanitized(s, fallback);
    if t.len() > 0 {
        assert forall|i: int| 0 <= i < r.len() implies !is_invalid_name_char(#[trigger] r[i]) by {
            assert(r[i] == t1[i]);
            let j = choose|j: int| 0 <= j < rep.len() && rep[j] == t1[i];
            assert(rep[j] == (if is_invalid_name_char(s[j]) { '_' } else { s[j] }));
        }
        assert(r[0] == t1[0]);
    }
    assert(!r.contains('/')) by {
        if r.contains('/') {
            let j = choose|j: int| 0 <= j < r.len() && r[j] == '/';
            assert(!is_invalid_name_char(r[j]));
        }
    }
    if r == crate::paths::dot() || r == crate::paths::dot_dot() {
        assert(r.last() == '.');
    }
}

/// The texts `untitled` and `download` are themselves clean names.
pub proof fn lemma_fallbacks_clean()
    ensures
        "untitled"@.len() > 0,
        "untitled"@.last() != '.',
        !crate::text::is_white_space("untitled"@[0]),
        forall|i: int| 0 <= i < "untitled"@.len() ==> !is_invalid_name_char(#[trigger] "untitled"@[i]),
        "download"@.len() > 0,
        "download"@.last() != '.',
        !crate::text::is_white_space("download"@[0]),
        forall|i: int| 0 <= i < "download"@.len() ==> !is_invalid_name_char(#[trigger] "download"@[i]),
{
    reveal_strlit("untitled");
    reveal_strlit("download");
}

/// A sanitized stem holds none of `<>:"/\|?*` nor a control character, is
/// never empty, never ends with a dot, never starts with white space, and
/// is therefore a single plain file name.
pub proof fn lemma_sanitize_file_stem_is_clean(s: Seq<char>)
    ensures
        sanitized(s, "untitled"@).len() > 0,
        sanitized(s, "untitled"@).last() != '.',
        !crate::text::is_white_space(sanitized(s, "untitled"@)[0]),
        forall|i: int|
            0 <= i < sanitized(s, "untitled"@).len() ==> !is_invalid_name_char(
                #[trigger] sanitized(s, "untitled"@)[i],
            ),
        is_plain_name(sanitized(s, "untitled"@)),
{
    lemma_fallbacks_clean();
    lemma_sanitized_is_clean(s, "untitled"@);
}

/// The sanitized name of a download has the same guarantees, with
/// `download` as its fallback.
pub proof fn lemma_sanitize_file_name_is_clean(s: Seq<char>)
    ensures
        sanitized(s, "download"@).len() > 0,
        sanitized(s, "download"@).last() != '.',
        forall|i: int|
            0 <= i < sanitized(s, "download"@).len() ==> !is_invalid_name_char(
                #[trigger] sanitized(s, "download"@)[i],
            ),
        is_plain_name(sanitized(s, "download"@)),
{
    lemma_fallbacks_clean();
    lemma_sanitized_is_clean(s, "download"@);
}

/// A character allowed in a database file name.
pub open spec fn is_safe_name_char(c: char) -> bool {
    is_ascii_alphanumeric(c) || c == '_' || c == '-' || c == '.'
}

/// A name that the JSON database accepts: not empty, no `/`, `\` or `:`,
/// and only ASCII letters, digits, `_`, `-` and `.`.
pub open spec fn is_safe_name(n: Seq<char>) -> bool {
    &&& n.len() > 0
    &&& !n.contains('/')
    &&& !n.contains('\\')
    &&& !n.contains(':')
    &&& forall|i: int| 0 <= i < n.len() ==> is_safe_name_char(#[trigger] n[i])
}

/// Whether `name` is a safe database file name.
pub fn is_safe_file_name(name: &str) -> (r: bool)
    ensures
        r == is_safe_name(name@),
{
    let v = chars_of(name);
    if v.len() == 0 {
        return false;
    }
    if contains_char(&v, '/') || contains_char(&v, '\\') || contains_char(&v, ':') {
        return false;
    }
    let mut i: usize = 0;
    while i < v.len()
        invariant
            v@ == name@,
            i <= v@.len(),
            forall|j: int| 0 <= j < i ==> is_safe_name_char(#[trigger] v@[j]),
        decreases v@.len() - i,
    {
        let c = v[i];
        if !(is_ascii_alphanumeric_char(c) || c == '_' || c == '-' || c == '.') {
            assert(!is_safe_name_char(v@[i as int]));
            return false;
        }
        i += 1;
    }
    true
}

/// The database file name for a requested name: `None` for an unsafe name,
/// else the name with `.json` appended unless it already ends so.
pub open spec fn normalized_json_name(n: Seq<char>) -> Option<Seq<char>> {
    if !is_safe_name(n) {
        None
    } else if has_suffix(n, ".json"@) {
        Some(n)
    } else {
        Some(n + ".json"@)
    }
}

/// A database file name ends with `.json` and starts with the requested
/// name, which it extends by `.json` only when that is missing; asking
/// again for the file name it gives yields the same name.
pub proof fn lemma_json_names(n: Seq<char>)
    ensures
        normalized_json_name(n) matches Some(f) ==> {
            &&& has_suffix(f, ".json"@)
            &&& has_prefix(f, n)
            &&& (has_suffix(n, ".json"@) ==> f == n)
            &&& (!has_suffix(n, ".json"@) ==> f == n + ".json"@)
            &&& normalized_json_name(f) == Some(f)
        },
{
    reveal_strlit(".json");
    if let Some(f) = normalized_json_name(n) {
        assert(f.subrange(0, n.len() as int) =~= n);
        if !has_suffix(n, ".json"@) {
            let j = ".json"@;
            assert(f.subrange(f.len() - 5, f.len() as int) =~= j);
            assert(f.len() > 0);
            assert forall|i: int| 0 <= i < f.len() implies is_safe_name_char(#[trigger] f[i]) by {
                if i < n.len() {
                    assert(f[i] == n[i]);
                } else {
                    assert(f[i] == j[i - n.len()]);
                }
            }
            assert(!f.contains('/')) by {
                if f.contains('/') {
                    let i = choose|i: int| 0 <= i < f.len() && f[i] == '/';
                    assert(is_safe_name_char(f[i]));
                }
            }
            assert(!f.contains('\\')) by {
                if f.contains('\\') {
                    let i = choose|i: int| 0 <= i < f.len() && f[i] == '\\';
                    assert(is_safe_name_char(f[i]));
                }
            }
            assert(!f.contains(':')) by {
                if f.contains(':') {
                    let i = choose|i: int| 0 <= i < f.len() && f[i] == ':';
                    assert(is_safe_name_char(f[i]));
                }
            }
        }
    }
}

/// Normalizes a requested database file name.
pub fn normalize_json_file_name(name: &str) -> (r: Option<String>)
    ensures
        match r {
            Some(s) => normalized_json_name(name@) == Some(s@),
            None => normalized_json_name(name@) is None,
        },
{
    if !is_safe_file_name(name) {
        return None;
    }
    let v = chars_of(name);
    let suffix = chars_of(".json");
    if ends_with(&v, &suffix) {
        Some(string_of(&v))
    } else {
        let r = concat_chars(&v, &suffix);
        Some(string_of(&r))
    }
}

/// The directory of the JSON database under a data directory.
pub open spec fn database_dir(data_dir: Seq<char>) -> Seq<char> {
    join(data_dir, "database"@)
}

/// The file of the JSON database that a requested name stands for.
pub open spec fn database_file(data_dir: Seq<char>, name: Seq<char>) -> Result<
    Seq<char>,
    Seq<char>,
> {
    match normalized_json_name(name) {
        Some(n) => Ok(join(database_dir(data_dir), n)),
        None => Err("Invalid file name"@),
    }
}

/// The path of a database file, always inside the database directory, or
/// `Err("Invalid file name")`.
pub fn database_file_path(data_dir: &str, file_name: &str) -> (r: Result<String, String>)
    ensures
        match r {
            Ok(p) => database_file(data_dir@, file_name@) == Ok::<Seq<char>, Seq<char>>(p@),
            Err(e) => database_file(data_dir@, file_name@) == Err::<Seq<char>, Seq<char>>(e@),
        },
{
    match normalize_json_file_name(file_name) {
        Some(n) => {
            let d = join_chars(&chars_of(data_dir), &chars_of("database"));
            let p = join_chars(&d, &chars_of(n.as_str()));
            Ok(string_of(&p))
        },
        None => Err(string_of(&chars_of("Invalid file name"))),
    }
}

/// Every name that the database accepts is a single plain name.
proof fn lemma_normalized_is_plain(n: Seq<char>)
    requires
        normalized_json_name(n) is Some,
    ensures
        is_plain_name(normalized_json_name(n)->0),
{
    reveal_strlit(".json");
    let m = normalized_json_name(n)->0;
    assert(has_suffix(m, ".json"@)) by {
        if !has_suffix(n, ".json"@) {
            assert((n + ".json"@).subrange(n.len() as int, n.len() + 5int) =~= ".json"@);
        }
    }
    assert(m.subrange(m.len() - 5, m.len() as int)[1] == 'j');
    assert(m[m.len() - 4] == 'j');
    assert(!m.contains('/')) by {
        if m.contains('/') {
            let j = choose|j: int| 0 <= j < m.len() && m[j] == '/';
            if j < n.len() {
                assert(m[j] == n[j]);
                assert(n.contains('/'));
            } else {
                assert(m.subrange(m.len() - 5, m.len() as int)[j - (m.len() - 5)] == m[j]);
            }
        }
    }
    if m == crate::paths::dot() || m == crate::paths::dot_dot() {
        assert(m.len() <= 2);
    }
}

/// Whatever name is requested, a database file lies inside the database
/// directory and is named by the normalized name.
pub proof fn lemma_database_file_inside(data_dir: Seq<char>, name: Seq<char>)
    requires
        database_file(data_dir, name) is Ok,
    ensures
        path_starts_with(database_file(data_dir, name)->Ok_0, database_dir(data_dir)),
        file_name(database_file(data_dir, name)->Ok_0) == normalized_json_name(name),
{
    lemma_normalized_is_plain(name);
    lemma_join_name_starts_with(database_dir(data_dir), normalized_json_name(name)->0);
}

/// The file name taken from a URL: the error message of a URL that does not
/// parse (after `Invalid url: `), else the last path segment, or `download`
/// when there is none or it is empty, sanitized.
pub open spec fn url_file_name(raw: Seq<char>) -> Result<Seq<char>, Seq<char>> {
    match url_last_segment(raw) {
        Err(e) => Err("Invalid url: "@ + e),
        Ok(seg) => {
            let last = match seg {
                Some(s) => if s.len() > 0 {
                    s
                } else {
                    "download"@
                },
                None => "download"@,
            };
            Ok(sanitized(last, "download"@))
        },
    }
}

/// The name under which a URL is downloaded.
pub fn file_name_from_url(raw_url: &str) -> (r: Result<String, String>)
    ensures
        match r {
            Ok(n) => url_file_name(raw_url@) == Ok::<Seq<char>, Seq<char>>(n@),
            Err(e) => url_file_name(raw_url@) == Err::<Seq<char>, Seq<char>>(e@),
        },
{
    let raw = chars_of(raw_url);
    match url_last_segment_of(&raw) {
        Err(e) => {
            let m = concat_chars(&chars_of("Invalid url: "), &e);
            Err(string_of(&m))
        },
        Ok(seg) => {
            let last = match seg {
                Some(s) => if s.len() > 0 {
                    s
                } else {
                    chars_of("download")
                },
                None => chars_of("download"),
            };
            let n = sanitize_with(&last, "download");
            Ok(string_of(&n))
        },
    }
}

/// The id of a file of the resource directory: `res_` and the UUID (v5, URL
/// namespace) of its file name, so that the id does not change when the
/// directory moves.
pub open spec fn resource_id(p: Seq<char>) -> Seq<char> {
    let name = match file_name(p) {
        Some(f) => f,
        None => Seq::empty(),
    };
    "res_"@ + uuid_v5_url(name)
}

/// The resource id of a file, whatever directory it lies in: a file of
/// the same name under any two directories has the same id.
pub proof fn lemma_resource_id_ignores_directory(d1: Seq<char>, d2: Seq<char>, n: Seq<char>)
    requires
        is_plain_name(n),
    ensures
        resource_id(join(d1, n)) == resource_id(join(d2, n)),
        resource_id(join(d1, n)) == "res_"@ + uuid_v5_url(n),
{
    lemma_join_name_starts_with(d1, n);
    lemma_join_name_starts_with(d2, n);
}

/// The resource id of a path of the platform.
pub fn resource_id_for_path(p: &str, platform: Platform) -> (r: String)
    ensures
        r@ == resource_id(native(p@, platform)),
{
    let np = native_chars(&chars_of(p), platform);
    let name = match file_name_of(&np) {
        Some(f) => f,
        None => Vec::new(),
    };
    let u = uuid_v5_url_text(&name);
    let r = concat_chars(&chars_of("res_"), &u);
    proof {
        if file_name(np@) is None {
            assert(name@ =~= Seq::<char>::empty());
        }
    }
    string_of(&r)
}

/// The title of a file: its stem, or `untitled` when it has none.
pub open spec fn path_title(p: Seq<char>) -> Seq<char> {
    match file_stem(p) {
        Some(s) => s,
        None => "untitled"@,
    }
}

/// The title shown for a wallpaper file, a path of the platform.
pub fn title_for_path(p: &str, platform: Platform) -> (r: String)
    ensures
        r@ == path_title(native(p@, platform)),
{
    match file_stem_of(&native_chars(&chars_of(p), platform)) {
        Some(s) => string_of(&s),
        None => string_of(&chars_of("untitled")),
    }
}

/// `s` with every space replaced by `_`.
pub open spec fn spaces_to_underscores(s: Seq<char>) -> Seq<char> {
    s.map_values(|c: char| if c == ' ' { '_' } else { c })
}

/// The id of a wallpaper of the default directory, made from its title:
/// `default_` and the title with spaces replaced by `_`, in lower case.
pub open spec fn default_wallpaper_id(title: Seq<char>) -> Seq<char> {
    "default_"@ + lowercase(spaces_to_underscores(title))
}

/// The id given to a wallpaper found in the default directory.
pub fn default_wallpaper_id_for_title(title: &str) -> (r: String)
    ensures
        r@ == default_wallpaper_id(title@),
{
    let t = chars_of(title);
    let mut u: Vec<char> = Vec::new();
    let mut i: usize = 0;
    while i < t.len()
        invariant
            i <= t@.len(),
            u@ == spaces_to_underscores(t@.subrange(0, i as int)),
        decreases t@.len() - i,
    {
        if t[i] == ' ' {
            u.push('_');
        } else {
            u.push(t[i]);
        }
        i += 1;
        assert(u@ =~= spaces_to_underscores(t@.subrange(0, i as int)));
    }
    assert(t@.subrange(0, t@.len() as int) =~= t@);
    let l = lowercase_chars(&u);
    let mut r = chars_of("default_");
    append_chars(&mut r, &l);
    string_of(&r)
}

} // verus!
