//! Paths as text, with the meaning that `std::path::Path` gives them: `/`
//! separates components, repeated separators and `.` components are
//! ignored (but for a leading `.`), and a path that starts with `/` is
//! absolute. On Windows `\` separates components as well; a path of the
//! platform is read through `native`, which writes each of its `\` as `/`
//! and a drive letter in upper case. A drive (`C:`) or a server share is
//! then read as the first name of the path, which std keeps as a prefix
//! component instead: paths compare alike either way, but `C:x` (a drive
//! without a root) and the verbatim `\\?\` form, in which `/` is no
//! separator, are read otherwise than std reads them. Joined paths are
//! written with `/`, which Windows accepts too.
use vstd::prelude::*;
use crate::layout::Platform;
use crate::text::{
    append_chars, ascii_upper, ascii_upper_char, chars_eq, concat_chars, has_prefix, is_ascii_letter,
    is_ascii_letter_char, sub_chars,
};

verus! {

/// The texts of the elements of a vector of character vectors.
pub open spec fn views(v: Seq<Vec<char>>) -> Seq<Seq<char>> {
    v.map_values(|x: Vec<char>| x@)
}

/// Whether a Windows path starts with a drive, `X:` with `X` an ASCII
/// letter.
pub open spec fn has_drive(p: Seq<char>) -> bool {
    p.len() >= 2 && p[1] == ':' && is_ascii_letter(p[0])
}

/// The character at `i` of a Windows path as `native` writes it: `\` as
/// `/`, and a drive letter in upper case (std reads drive letters without
/// regard to case).
pub open spec fn windows_char(p: Seq<char>, i: int) -> char {
    if i == 0 && has_drive(p) {
        ascii_upper(p[0])
    } else if p[i] == '\\' {
        '/'
    } else {
        p[i]
    }
}

/// A path of the platform, written with `/` as its only separator: on
/// Windows each `\` becomes `/` and a leading drive letter is put in upper
/// case; elsewhere `\` is an ordinary character and the path is kept as it
/// is.
pub open spec fn native(p: Seq<char>, platform: Platform) -> Seq<char> {
    if platform == Platform::Windows {
        Seq::new(p.len(), |i: int| windows_char(p, i))
    } else {
        p
    }
}

/// `native` of a path.
pub fn native_chars(p: &[char], platform: Platform) -> (r: Vec<char>)
    ensures
        r@ == native(p@, platform),
{
    match platform {
        Platform::Windows => {},
        _ => return sub_chars(p, 0, p.len()),
    }
    let drive = p.len() >= 2 && p[1] == ':' && is_ascii_letter_char(p[0]);
    let mut r: Vec<char> = Vec::new();
    let mut i: usize = 0;
    while i < p.len()
        invariant
            i <= p@.len(),
            platform == Platform::Windows,
            drive == has_drive(p@),
            r@ == Seq::new(i as nat, |k: int| windows_char(p@, k)),
        decreases p@.len() - i,
    {
        let c = p[i];
        let w = if i == 0 && drive {
            ascii_upper_char(c)
        } else if c == '\\' {
            '/'
        } else {
            c
        };
        r.push(w);
        assert(r@ =~= Seq::new((i + 1) as nat, |k: int| windows_char(p@, k)));
        i += 1;
    }
    assert(r@ =~= native(p@, platform));
    r
}

/// `s` split at every `/` (empty pieces included).
pub open spec fn split_slash(s: Seq<char>) -> Seq<Seq<char>>
    decreases s.len(),
{
    if s.len() == 0 {
        seq![Seq::<char>::empty()]
    } else if s.last() == '/' {
        split_slash(s.drop_last()).push(Seq::<char>::empty())
    } else {
        let r = split_slash(s.drop_last());
        r.update(r.len() - 1, r.last().push(s.last()))
    }
}

pub open spec fn dot() -> Seq<char> {
    seq!['.']
}

pub open spec fn dot_dot() -> Seq<char> {
    seq!['.', '.']
}

pub open spec fn root() -> Seq<char> {
    seq!['/']
}

/// A piece of a split path that names a component: not empty and not `.`.
pub open spec fn is_kept_part(p: Seq<char>) -> bool {
    p.len() != 0 && p != dot()
}

/// The pieces that name components, in order.
pub open spec fn keep_parts(parts: Seq<Seq<char>>) -> Seq<Seq<char>>
    decreases parts.len(),
{
    if parts.len() == 0 {
        Seq::empty()
    } else if is_kept_part(parts.last()) {
        keep_parts(parts.drop_last()).push(parts.last())
    } else {
        keep_parts(parts.drop_last())
    }
}

/// The component that stands before the named ones: the root `/` of an
/// absolute path, or `.` for a path that starts with `./` or is `.`.
pub open spec fn lead(p: Seq<char>) -> Seq<Seq<char>> {
    if p.len() > 0 && p[0] == '/' {
        seq![root()]
    } else if p == dot() || has_prefix(p, seq!['.', '/']) {
        seq![dot()]
    } else {
        Seq::empty()
    }
}

/// The components of a path (`Path::components`), each written as text:
/// `/` for the root, `.` for a leading current directory, and the names.
pub open spec fn components(p: Seq<char>) -> Seq<Seq<char>> {
    lead(p) + keep_parts(split_slash(p))
}

/// A component that is a name (`Component::Normal`).
pub open spec fn is_normal(c: Seq<char>) -> bool {
    c != root() && c != dot() && c != dot_dot()
}

/// `Path::file_name`: the last component, if it is a name.
pub open spec fn file_name(p: Seq<char>) -> Option<Seq<char>> {
    let c = components(p);
    if c.len() > 0 && is_normal(c.last()) {
        Some(c.last())
    } else {
        None
    }
}

/// The index of the last `c` in `s`, or -1.
pub open spec fn last_index_of(s: Seq<char>, c: char) -> int
    decreases s.len(),
{
    if s.len() == 0 {
        -1
    } else if s.last() == c {
        s.len() - 1
    } else {
        last_index_of(s.drop_last(), c)
    }
}

/// The extension of a file name: the text after its last `.`, where that
/// dot is not the first character.
pub open spec fn name_extension(f: Seq<char>) -> Option<Seq<char>> {
    let d = last_index_of(f, '.');
    if d <= 0 {
        None
    } else {
        Some(f.subrange(d + 1, f.len() as int))
    }
}

/// The stem of a file name: the text before its last `.`, where that dot is
/// not the first character; else the whole name.
pub open spec fn name_stem(f: Seq<char>) -> Seq<char> {
    let d = last_index_of(f, '.');
    if d <= 0 {
        f
    } else {
        f.subrange(0, d)
    }
}

/// `Path::extension`.
pub open spec fn extension(p: Seq<char>) -> Option<Seq<char>> {
    match file_name(p) {
        Some(f) => name_extension(f),
        None => None,
    }
}

/// `Path::file_stem`.
pub open spec fn file_stem(p: Seq<char>) -> Option<Seq<char>> {
    match file_name(p) {
        Some(f) => Some(name_stem(f)),
        None => None,
    }
}

/// `Path::join`: an absolute `part` replaces `base`; otherwise `part` is
/// appended, with a `/` between them where `base` is not empty and does not
/// already end with one.
pub open spec fn join(base: Seq<char>, part: Seq<char>) -> Seq<char> {
    if part.len() > 0 && part[0] == '/' {
        part
    } else if base.len() > 0 && base.last() != '/' {
        base + seq!['/'] + part
    } else {
        base + part
    }
}

/// `Path::starts_with`: the components of `base` are the first components
/// of `p`.
pub open spec fn path_starts_with(p: Seq<char>, base: Seq<char>) -> bool {
    let a = components(p);
    let b = components(base);
    b.len() <= a.len() && a.subrange(0, b.len() as int) == b
}

/// A single file or directory name: not empty, no `/`, and neither `.` nor
/// `..`.
pub open spec fn is_plain_name(n: Seq<char>) -> bool {
    n.len() > 0 && !n.contains('/') && n != dot() && n != dot_dot()
}

proof fn lemma_split_slash_push(s: Seq<char>, c: char)
    ensures
        c == '/' ==> split_slash(s.push(c)) == split_slash(s).push(Seq::<char>::empty()),
        c != '/' ==> split_slash(s.push(c)) == split_slash(s).update(
            split_slash(s).len() - 1,
            split_slash(s).last().push(c),
        ),
{
    assert(s.push(c).drop_last() =~= s);
}

pub proof fn lemma_split_slash_len(s: Seq<char>)
    ensures
        split_slash(s).len() >= 1,
    decreases s.len(),
{
    if s.len() > 0 {
        lemma_split_slash_len(s.drop_last());
    }
}

proof fn lemma_keep_parts_push(parts: Seq<Seq<char>>, x: Seq<char>)
    ensures
        keep_parts(parts.push(x)) == if is_kept_part(x) {
            keep_parts(parts).push(x)
        } else {
            keep_parts(parts)
        },
{
    assert(parts.push(x).drop_last() =~= parts);
}

/// Whether a piece names a component.
fn kept_part(p: &Vec<char>) -> (r: bool)
    ensures
        r == is_kept_part(p@),
{
    if p.len() == 0 {
        false
    } else if p.len() == 1 && p[0] == '.' {
        assert(p@ =~= dot());
        false
    } else {
        proof {
            if p@ == dot() {
                assert(p@[0] == '.');
            }
        }
        true
    }
}

/// The named components (`keep_parts(split_slash(p))`).
fn kept_components(p: &[char]) -> (r: Vec<Vec<char>>)
    ensures
        views(r@) == keep_parts(split_slash(p@)),
{
    let n = p.len();
    let mut kept: Vec<Vec<char>> = Vec::new();
    let mut cur: Vec<char> = Vec::new();
    let ghost mut done: Seq<Seq<char>> = Seq::empty();
    assert(p@.subrange(0, 0) =~= Seq::<char>::empty());
    assert(views(kept@) =~= keep_parts(done));
    assert(split_slash(p@.subrange(0, 0)) =~= done.push(cur@));
    let mut i: usize = 0;
    while i < n
        invariant
            n == p@.len(),
            i <= n,
            split_slash(p@.subrange(0, i as int)) == done.push(cur@),
            views(kept@) == keep_parts(done),
        decreases n - i,
    {
        let c = p[i];
        proof {
            assert(p@.subrange(0, i + 1) =~= p@.subrange(0, i as int).push(c));
            lemma_split_slash_push(p@.subrange(0, i as int), c);
        }
        if c == '/' {
            let k = kept_part(&cur);
            proof {
                lemma_keep_parts_push(done, cur@);
            }
            let finished = cur;
            cur = Vec::new();
            if k {
                kept.push(finished);
                assert(views(kept@) =~= keep_parts(done).push(finished@));
            }
            proof {
                done = done.push(finished@);
                assert(split_slash(p@.subrange(0, i + 1)) =~= done.push(cur@));
            }
        } else {
            cur.push(c);
            proof {
                assert(split_slash(p@.subrange(0, i + 1)) =~= done.push(cur@));
            }
        }
        i += 1;
    }
    assert(p@.subrange(0, n as int) =~= p@);
    let k = kept_part(&cur);
    proof {
        lemma_keep_parts_push(done, cur@);
    }
    if k {
        let ghost before = kept@;
        kept.push(cur);
        assert(views(kept@) =~= views(before).push(kept@.last()@));
    }
    kept
}

/// `Path::components`, each component written as text.
pub fn components_of(p: &[char]) -> (r: Vec<Vec<char>>)
    ensures
        views(r@) == components(p@),
{
    let kept = kept_components(p);
    let mut r: Vec<Vec<char>> = Vec::new();
    if p.len() > 0 && p[0] == '/' {
        let mut slash: Vec<char> = Vec::new();
        slash.push('/');
        r.push(slash);
        assert(views(r@) =~= seq![root()]);
    } else {
        let dot_slash = p.len() >= 2 && p[0] == '.' && p[1] == '/';
        let is_dot = p.len() == 1 && p[0] == '.';
        proof {
            let ds = seq!['.', '/'];
            if has_prefix(p@, ds) {
                assert(p@.subrange(0, 2)[0] == '.');
                assert(p@.subrange(0, 2)[1] == '/');
            }
            if dot_slash {
                assert(p@.subrange(0, 2) =~= ds);
            }
            if p@ == dot() {
                assert(p@[0] == '.');
            }
            if is_dot {
                assert(p@ =~= dot());
            }
        }
        if dot_slash || is_dot {
            let mut d: Vec<char> = Vec::new();
            d.push('.');
            r.push(d);
            assert(views(r@) =~= seq![dot()]);
        } else {
            assert(views(r@) =~= Seq::<Seq<char>>::empty());
        }
    }
    assert(views(r@) == lead(p@));
    let ghost lead_part = views(r@);
    let mut i: usize = 0;
    let mut kept = kept;
    let ghost all = views(kept@);
    // Move the named components over, keeping their order.
    let mut rest: Vec<Vec<char>> = Vec::new();
    while kept.len() > 0
        invariant
            views(rest@) + views(kept@).reverse() == all.reverse(),
        decreases kept@.len(),
    {
        let x = kept.pop().unwrap();
        proof {
            let before = views(rest@);
            assert(views(kept@.push(x)).reverse() =~= seq![x@] + views(kept@).reverse());
        }
        rest.push(x);
        proof {
            assert(views(rest@) + views(kept@).reverse() =~= all.reverse());
        }
    }
    assert(views(kept@).reverse() =~= Seq::<Seq<char>>::empty());
    assert(views(rest@) =~= all.reverse());
    while rest.len() > 0
        invariant
            views(r@) + views(rest@).reverse() == lead_part + all,
        decreases rest@.len(),
    {
        let x = rest.pop().unwrap();
        proof {
            assert(views(rest@.push(x)).reverse() =~= seq![x@] + views(rest@).reverse());
        }
        r.push(x);
        proof {
            assert(views(r@) + views(rest@).reverse() =~= lead_part + all);
        }
    }
    assert(views(rest@).reverse() =~= Seq::<Seq<char>>::empty());
    assert(views(r@) =~= lead_part + all);
    r
}

/// Whether a component is a name (`Component::Normal`).
fn normal_component(c: &Vec<char>) -> (r: bool)
    ensures
        r == is_normal(c@),
{
    if c.len() == 1 && (c[0] == '/' || c[0] == '.') {
        proof {
            if c[0] == '/' {
                assert(c@ =~= root());
            } else {
                assert(c@ =~= dot());
            }
        }
        false
    } else if c.len() == 2 && c[0] == '.' && c[1] == '.' {
        assert(c@ =~= dot_dot());
        false
    } else {
        proof {
            if c@ == root() || c@ == dot() {
                assert(c@[0] == c@[0]);
            }
            if c@ == dot_dot() {
                assert(c@[1] == '.');
            }
        }
        true
    }
}

/// `Path::file_name`.
pub fn file_name_of(p: &[char]) -> (r: Option<Vec<char>>)
    ensures
        match r {
            Some(f) => file_name(p@) == Some(f@),
            None => file_name(p@) is None,
        },
{
    let mut comps = components_of(p);
    if comps.len() == 0 {
        return None;
    }
    let last = comps.pop().unwrap();
    proof {
        assert(views(comps@.push(last)).last() == last@);
    }
    if normal_component(&last) {
        Some(last)
    } else {
        None
    }
}

/// The index of the last `c` in `s`, if any.
pub fn last_index(s: &[char], c: char) -> (r: Option<usize>)
    ensures
        match r {
            Some(i) => i < s@.len() && last_index_of(s@, c) == i,
            None => last_index_of(s@, c) == -1,
        },
{
    let mut k: usize = s.len();
    assert(s@.subrange(0, k as int) =~= s@);
    while k > 0
        invariant
            k <= s@.len(),
            last_index_of(s@, c) == last_index_of(s@.subrange(0, k as int), c),
        decreases k,
    {
        let ghost t = s@.subrange(0, k as int);
        if s[k - 1] == c {
            assert(t.last() == c);
            return Some(k - 1);
        }
        assert(t.drop_last() =~= s@.subrange(0, k - 1));
        k -= 1;
    }
    None
}

/// The extension of a file name.
pub fn name_extension_of(f: &[char]) -> (r: Option<Vec<char>>)
    ensures
        match r {
            Some(e) => name_extension(f@) == Some(e@),
            None => name_extension(f@) is None,
        },
{
    let n = f.len();
    match last_index(f, '.') {
        Some(d) => {
            if d == 0 {
                None
            } else {
                Some(sub_chars(f, d + 1, n))
            }
        },
        None => None,
    }
}

/// The stem of a file name.
pub fn name_stem_of(f: &[char]) -> (r: Vec<char>)
    ensures
        r@ == name_stem(f@),
{
    match last_index(f, '.') {
        Some(d) => {
            if d == 0 {
                sub_chars(f, 0, f.len())
            } else {
                sub_chars(f, 0, d)
            }
        },
        None => sub_chars(f, 0, f.len()),
    }
}

/// `Path::extension`.
pub fn extension_of(p: &[char]) -> (r: Option<Vec<char>>)
    ensures
        match r {
            Some(e) => extension(p@) == Some(e@),
            None => extension(p@) is None,
        },
{
    match file_name_of(p) {
        Some(f) => name_extension_of(&f),
        None => None,
    }
}

/// `Path::file_stem`.
pub fn file_stem_of(p: &[char]) -> (r: Option<Vec<char>>)
    ensures
        match r {
            Some(s) => file_stem(p@) == Some(s@),
            None => file_stem(p@) is None,
        },
{
    match file_name_of(p) {
        Some(f) => Some(name_stem_of(&f)),
        None => None,
    }
}

/// `Path::join`.
pub fn join_chars(base: &[char], part: &[char]) -> (r: Vec<char>)
    ensures
        r@ == join(base@, part@),
{
    if part.len() > 0 && part[0] == '/' {
        sub_chars(part, 0, part.len())
    } else if base.len() > 0 && base[base.len() - 1] != '/' {
        let mut r = sub_chars(base, 0, base.len());
        r.push('/');
        append_chars(&mut r, part);
        assert(r@ =~= base@ + seq!['/'] + part@);
        r
    } else {
        concat_chars(base, part)
    }
}

/// `Path::starts_with`.
pub fn starts_with_path(p: &[char], base: &[char]) -> (r: bool)
    ensures
        r == path_starts_with(p@, base@),
{
    let a = components_of(p);
    let b = components_of(base);
    if b.len() > a.len() {
        return false;
    }
    let mut i: usize = 0;
    while i < b.len()
        invariant
            b@.len() <= a@.len(),
            i <= b@.len(),
            views(a@) == components(p@),
            views(b@) == components(base@),
            forall|j: int| 0 <= j < i ==> views(a@)[j] == views(b@)[j],
        decreases b@.len() - i,
    {
        if !chars_eq(&a[i], &b[i]) {
            assert(views(a@).subrange(0, b@.len() as int)[i as int] != views(b@)[i as int]);
            return false;
        }
        i += 1;
    }
    assert(views(a@).subrange(0, b@.len() as int) =~= views(b@));
    true
}


/// Appending text without a `/` extends the last piece of the split.
proof fn lemma_split_slash_append(s: Seq<char>, t: Seq<char>)
    requires
        !t.contains('/'),
    ensures
        split_slash(s + t) == split_slash(s).update(
            split_slash(s).len() - 1,
            split_slash(s).last() + t,
        ),
    decreases t.len(),
{
    lemma_split_slash_len(s);
    if t.len() == 0 {
        assert(s + t =~= s);
        assert(split_slash(s).last() + t =~= split_slash(s).last());
        assert(split_slash(s).update(split_slash(s).len() - 1, split_slash(s).last())
            =~= split_slash(s));
    } else {
        let t0 = t.drop_last();
        let c = t.last();
        assert(!t0.contains('/')) by {
            if t0.contains('/') {
                let k = choose|k: int| 0 <= k < t0.len() && t0[k] == '/';
                assert(t[k] == '/');
            }
        }
        assert(c != '/') by {
            assert(t[t.len() - 1] == c);
        }
        lemma_split_slash_append(s, t0);
        assert(s + t =~= (s + t0).push(c));
        lemma_split_slash_push(s + t0, c);
        lemma_split_slash_len(s + t0);
        let r = split_slash(s);
        assert(r.last() + t =~= (r.last() + t0).push(c));
        assert(split_slash(s + t) =~= r.update(r.len() - 1, r.last() + t));
    }
}

proof fn lemma_no_slash_components(n: Seq<char>)
    requires
        is_plain_name(n),
    ensures
        split_slash(n) == seq![n],
        components(n) == seq![n],
{
    lemma_split_slash_append(Seq::<char>::empty(), n);
    assert(Seq::<char>::empty() + n =~= n);
    assert(split_slash(Seq::<char>::empty()) =~= seq![Seq::<char>::empty()]);
    assert(Seq::<char>::empty() + n =~= n);
    assert(split_slash(n) =~= seq![n]);
    assert(keep_parts(seq![n]) =~= seq![n]) by {
        assert(seq![n] =~= Seq::<Seq<char>>::empty().push(n));
        lemma_keep_parts_push(Seq::<Seq<char>>::empty(), n);
        assert(keep_parts(Seq::<Seq<char>>::empty()) =~= Seq::<Seq<char>>::empty());
    }
    if n[0] == '/' {
        assert(n.contains('/'));
    }
    if has_prefix(n, seq!['.', '/']) {
        assert(n.subrange(0, 2)[1] == '/');
        assert(n[1] == '/');
        assert(n.contains('/'));
    }
    assert(lead(n) =~= Seq::<Seq<char>>::empty());
    assert(components(n) =~= seq![n]);
}

/// Joining a single name onto a path adds exactly that name as its last
/// component.
pub proof fn lemma_join_name_components(base: Seq<char>, n: Seq<char>)
    requires
        is_plain_name(n),
    ensures
        components(join(base, n)) == components(base).push(n),
{
    let j = join(base, n);
    if n[0] == '/' {
        assert(n.contains('/'));
    }
    lemma_split_slash_len(base);
    if base.len() == 0 {
        lemma_no_slash_components(n);
        assert(j =~= n);
        assert(components(base) =~= Seq::<Seq<char>>::empty()) by {
            assert(keep_parts(seq![Seq::<char>::empty()]) =~= Seq::<Seq<char>>::empty()) by {
                assert(seq![Seq::<char>::empty()] =~= Seq::<Seq<char>>::empty().push(
                    Seq::<char>::empty(),
                ));
                lemma_keep_parts_push(Seq::<Seq<char>>::empty(), Seq::<char>::empty());
                assert(keep_parts(Seq::<Seq<char>>::empty()) =~= Seq::<Seq<char>>::empty());
            }
        }
        assert(components(j) =~= components(base).push(n));
    } else if base.last() != '/' {
        let bs = base.push('/');
        assert(j =~= bs + n);
        lemma_split_slash_push(base, '/');
        lemma_split_slash_append(bs, n);
        let r = split_slash(base);
        assert(split_slash(bs) == r.push(Seq::<char>::empty()));
        assert(Seq::<char>::empty() + n =~= n);
        assert(split_slash(j) =~= r.push(n));
        lemma_keep_parts_push(r, n);
        // The lead is decided by the first characters, which the join keeps.
        assert(j[0] == base[0]);
        if base.len() >= 2 {
            assert(j.subrange(0, 2) =~= base.subrange(0, 2));
        } else {
            assert(j[1] == '/');
            if base[0] == '.' {
                assert(base =~= dot());
                assert(j.subrange(0, 2) =~= seq!['.', '/']);
            } else {
                if has_prefix(j, seq!['.', '/']) {
                    assert(j.subrange(0, 2)[0] == '.');
                }
            }
        }
        if j == dot() {
            assert(j.len() == 1);
        }
        if base == dot() {
            assert(j.subrange(0, 2) =~= seq!['.', '/']);
        }
        assert(lead(j) =~= lead(base));
        assert(components(j) =~= components(base).push(n));
    } else {
        assert(j =~= base + n);
        lemma_split_slash_append(base, n);
        let r = split_slash(base);
        // `base` ends with `/`, so its last piece is empty.
        assert(base =~= base.drop_last().push('/'));
        lemma_split_slash_push(base.drop_last(), '/');
        assert(r.last() =~= Seq::<char>::empty());
        assert(Seq::<char>::empty() + n =~= n);
        assert(split_slash(j) =~= r.drop_last().push(n));
        lemma_keep_parts_push(r.drop_last(), n);
        lemma_keep_parts_push(r.drop_last(), Seq::<char>::empty());
        assert(r.drop_last().push(Seq::<char>::empty()) =~= r);
        assert(j[0] == base[0]);
        if base.len() >= 2 {
            assert(j.subrange(0, 2) =~= base.subrange(0, 2));
        }
        if j == dot() {
            assert(j.len() == 1);
        }
        if base == dot() {
            assert(base.last() == '.');
        }
        assert(lead(j) =~= lead(base));
        assert(components(j) =~= components(base).push(n));
    }
}

/// A path joined with a single name lies under the path it was joined to.
pub proof fn lemma_join_name_starts_with(base: Seq<char>, n: Seq<char>)
    requires
        is_plain_name(n),
    ensures
        path_starts_with(join(base, n), base),
        file_name(join(base, n)) == Some(n),
{
    lemma_join_name_components(base, n);
    let b = components(base);
    assert(b.push(n).subrange(0, b.len() as int) =~= b);
}


/// `p` without trailing separators and trailing `.` components: the text up
/// to the end of its last component.
pub open spec fn strip_trailing(p: Seq<char>) -> Seq<char>
    decreases p.len(),
{
    if p.len() > 0 && p.last() == '/' {
        strip_trailing(p.drop_last())
    } else if p.len() > 0 && p.last() == '.' && (p.len() == 1 || p[p.len() - 2] == '/') {
        strip_trailing(p.drop_last())
    } else {
        p
    }
}

/// The text after the last `/` of `q`.
pub open spec fn last_segment(q: Seq<char>) -> Seq<char> {
    q.subrange(last_index_of(q, '/') + 1, q.len() as int)
}

/// `Path::with_extension`: the last component's stem followed by `.ext`
/// (or by nothing when `ext` is empty), with whatever followed that
/// component dropped; a path without a file name is unchanged.
pub open spec fn with_extension(p: Seq<char>, ext: Seq<char>) -> Seq<char> {
    let q = strip_trailing(p);
    let f = last_segment(q);
    if f.len() == 0 || f == dot_dot() {
        p
    } else {
        q.subrange(0, q.len() - f.len()) + name_stem(f) + if ext.len() > 0 {
            seq!['.'] + ext
        } else {
            Seq::empty()
        }
    }
}

/// `Path::with_extension`.
pub fn with_extension_chars(p: &[char], ext: &[char]) -> (r: Vec<char>)
    ensures
        r@ == with_extension(p@, ext@),
{
    let n = p.len();
    let mut q_end: usize = n;
    assert(p@.subrange(0, n as int) =~= p@);
    loop
        invariant
            n == p@.len(),
            q_end <= n,
            strip_trailing(p@) == strip_trailing(p@.subrange(0, q_end as int)),
        ensures
            q_end <= n,
            strip_trailing(p@) == p@.subrange(0, q_end as int),
        decreases q_end,
    {
        let ghost t = p@.subrange(0, q_end as int);
        if q_end > 0 && p[q_end - 1] == '/' {
            assert(t.drop_last() =~= p@.subrange(0, q_end - 1));
            q_end -= 1;
        } else if q_end > 0 && p[q_end - 1] == '.' && (q_end == 1 || p[q_end - 2] == '/') {
            assert(t.drop_last() =~= p@.subrange(0, q_end - 1));
            q_end -= 1;
        } else {
            break;
        }
    }
    let q = sub_chars(p, 0, q_end);
    let start: usize = match last_index(&q, '/') {
        Some(i) => i + 1,
        None => 0,
    };
    let f = sub_chars(&q, start, q_end);
    let is_dot_dot = f.len() == 2 && f[0] == '.' && f[1] == '.';
    proof {
        if f@ == dot_dot() {
            assert(f@[0] == '.' && f@[1] == '.');
        }
        if is_dot_dot {
            assert(f@ =~= dot_dot());
        }
    }
    if f.len() == 0 || is_dot_dot {
        return sub_chars(p, 0, n);
    }
    let mut r = sub_chars(&q, 0, start);
    let stem = name_stem_of(&f);
    append_chars(&mut r, &stem);
    if ext.len() > 0 {
        r.push('.');
        append_chars(&mut r, ext);
        assert(r@ =~= q@.subrange(0, q@.len() - f@.len()) + name_stem(f@) + (seq!['.'] + ext@));
    } else {
        assert(r@ =~= q@.subrange(0, q@.len() - f@.len()) + name_stem(f@) + Seq::<char>::empty());
    }
    r
}

} // verus!
