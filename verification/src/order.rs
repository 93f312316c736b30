//! The order of texts (as `String`'s `Ord` compares them: character by
//! character, by code point) and a stable sort of wallpapers, newest first.
use vstd::prelude::*;
use crate::models::Wallpaper;
use crate::text::chars_of;

verus! {

/// `a` comes before `b`: at the first place they differ, `a` has the smaller
/// character, or `a` is a proper prefix of `b`.
pub open spec fn text_lt(a: Seq<char>, b: Seq<char>) -> bool
    decreases a.len(),
{
    if a.len() == 0 {
        b.len() > 0
    } else if b.len() == 0 {
        false
    } else if a[0] != b[0] {
        a[0] < b[0]
    } else {
        text_lt(a.drop_first(), b.drop_first())
    }
}

pub proof fn lemma_text_lt_irreflexive(a: Seq<char>)
    ensures
        !text_lt(a, a),
    decreases a.len(),
{
    if a.len() > 0 {
        lemma_text_lt_irreflexive(a.drop_first());
    }
}

pub proof fn lemma_text_lt_asymmetric(a: Seq<char>, b: Seq<char>)
    ensures
        !(text_lt(a, b) && text_lt(b, a)),
    decreases a.len(),
{
    if a.len() > 0 && b.len() > 0 && a[0] == b[0] {
        lemma_text_lt_asymmetric(a.drop_first(), b.drop_first());
    }
}

pub proof fn lemma_text_lt_transitive(a: Seq<char>, b: Seq<char>, c: Seq<char>)
    requires
        text_lt(a, b),
        text_lt(b, c),
    ensures
        text_lt(a, c),
    decreases a.len(),
{
    if a.len() > 0 && b.len() > 0 && c.len() > 0 {
        if a[0] == b[0] && b[0] == c[0] {
            lemma_text_lt_transitive(a.drop_first(), b.drop_first(), c.drop_first());
        }
    }
}

pub proof fn lemma_text_lt_total(a: Seq<char>, b: Seq<char>)
    ensures
        text_lt(a, b) || text_lt(b, a) || a == b,
    decreases a.len(),
{
    if a.len() > 0 && b.len() > 0 {
        if a[0] == b[0] {
            lemma_text_lt_total(a.drop_first(), b.drop_first());
            if a.drop_first() == b.drop_first() {
                assert(a =~= seq![a[0]] + a.drop_first());
                assert(b =~= seq![b[0]] + b.drop_first());
            }
        }
    } else if a.len() == 0 && b.len() == 0 {
        assert(a =~= b);
    }
}

/// Whether `a` comes before `b`.
pub fn text_less(a: &[char], b: &[char]) -> (r: bool)
    ensures
        r == text_lt(a@, b@),
{
    let mut i: usize = 0;
    assert(a@.subrange(0, a@.len() as int) =~= a@);
    assert(b@.subrange(0, b@.len() as int) =~= b@);
    while i < a.len() && i < b.len()
        invariant
            i <= a@.len(),
            i <= b@.len(),
            text_lt(a@, b@) == text_lt(a@.subrange(i as int, a@.len() as int), b@.subrange(i as int, b@.len() as int)),
        decreases a@.len() - i,
    {
        let ghost sa = a@.subrange(i as int, a@.len() as int);
        let ghost sb = b@.subrange(i as int, b@.len() as int);
        assert(sa[0] == a@[i as int]);
        assert(sb[0] == b@[i as int]);
        if a[i] != b[i] {
            return a[i] < b[i];
        }
        assert(sa.drop_first() =~= a@.subrange(i + 1, a@.len() as int));
        assert(sb.drop_first() =~= b@.subrange(i + 1, b@.len() as int));
        i += 1;
    }
    i == a.len() && i < b.len()
}

pub open spec fn import_key(w: Wallpaper) -> Seq<char> {
    w.import_time@
}

/// The place where `x` goes in a list sorted newest first: before the first
/// entry whose import time comes before that of `x`, so after every entry
/// that is not older.
pub open spec fn insert_pos(r: Seq<Wallpaper>, x: Wallpaper) -> int
    decreases r.len(),
{
    if r.len() == 0 {
        0
    } else if text_lt(import_key(r[0]), import_key(x)) {
        0
    } else {
        1 + insert_pos(r.drop_first(), x)
    }
}

pub open spec fn insert_desc(r: Seq<Wallpaper>, x: Wallpaper) -> Seq<Wallpaper> {
    let p = insert_pos(r, x);
    r.subrange(0, p).push(x) + r.subrange(p, r.len() as int)
}

/// The stable sort of `s` by import time, newest first: what
/// `sort_by(|a, b| b.import_time.cmp(&a.import_time))` leaves.
pub open spec fn sort_newest_first(s: Seq<Wallpaper>) -> Seq<Wallpaper>
    decreases s.len(),
{
    if s.len() == 0 {
        s
    } else {
        insert_desc(sort_newest_first(s.drop_last()), s.last())
    }
}

/// Every entry's import time is not before that of any later entry.
pub open spec fn is_newest_first(r: Seq<Wallpaper>) -> bool {
    forall|i: int, j: int|
        0 <= i < j < r.len() ==> !text_lt(import_key(r[i]), import_key(r[j]))
}

proof fn lemma_insert_pos_bounds(r: Seq<Wallpaper>, x: Wallpaper)
    ensures
        0 <= insert_pos(r, x) <= r.len(),
        forall|k: int| 0 <= k < insert_pos(r, x) ==> !text_lt(import_key(r[k]), import_key(x)),
        insert_pos(r, x) < r.len() ==> text_lt(import_key(r[insert_pos(r, x)]), import_key(x)),
    decreases r.len(),
{
    if r.len() > 0 && !text_lt(import_key(r[0]), import_key(x)) {
        lemma_insert_pos_bounds(r.drop_first(), x);
        assert forall|k: int| 0 <= k < insert_pos(r, x) implies !text_lt(
            import_key(r[k]),
            import_key(x),
        ) by {
            if k > 0 {
                assert(r[k] == r.drop_first()[k - 1]);
            }
        }
    }
}

proof fn lemma_insert_keeps_order(r: Seq<Wallpaper>, x: Wallpaper)
    requires
        is_newest_first(r),
    ensures
        is_newest_first(insert_desc(r, x)),
        insert_desc(r, x).to_multiset() == r.to_multiset().insert(x),
{
    lemma_insert_pos_bounds(r, x);
    let p = insert_pos(r, x);
    let q = insert_desc(r, x);
    assert(q.len() == r.len() + 1);
    assert forall|i: int, j: int| 0 <= i < j < q.len() implies !text_lt(
        import_key(q[i]),
        import_key(q[j]),
    ) by {
        let ki = import_key(q[i]);
        let kj = import_key(q[j]);
        if i < p && j < p {
            assert(q[i] == r[i] && q[j] == r[j]);
        } else if i < p && j == p {
            assert(q[i] == r[i] && q[j] == x);
        } else if i < p && j > p {
            assert(q[i] == r[i] && q[j] == r[j - 1]);
        } else if i == p {
            // x is before r[j - 1], which is not newer than r[p].
            assert(q[i] == x && q[j] == r[j - 1]);
            let kp = import_key(r[p]);
            assert(text_lt(kp, import_key(x)));
            if j - 1 > p {
                assert(!text_lt(kp, kj));
                lemma_text_lt_total(kp, kj);
                if text_lt(import_key(x), kj) {
                    if kj == kp {
                        lemma_text_lt_asymmetric(kp, import_key(x));
                    } else {
                        lemma_text_lt_transitive(kj, kp, import_key(x));
                        lemma_text_lt_asymmetric(kj, import_key(x));
                    }
                }
            } else {
                lemma_text_lt_asymmetric(kp, import_key(x));
            }
        } else {
            assert(q[i] == r[i - 1] && q[j] == r[j - 1]);
        }
    }
    assert(r =~= r.subrange(0, p) + r.subrange(p, r.len() as int));
    vstd::seq_lib::lemma_multiset_commutative(r.subrange(0, p), r.subrange(p, r.len() as int));
    vstd::seq_lib::lemma_multiset_commutative(
        r.subrange(0, p).push(x),
        r.subrange(p, r.len() as int),
    );
    assert(r.subrange(0, p).push(x).to_multiset() == r.subrange(0, p).to_multiset().insert(x)) by {
        r.subrange(0, p).to_multiset_ensures();
    }
}

/// The stable sort by import time puts the newest first and keeps every
/// entry: its result holds the same entries, as many times each.
pub proof fn lemma_sort_newest_first(s: Seq<Wallpaper>)
    ensures
        is_newest_first(sort_newest_first(s)),
        sort_newest_first(s).to_multiset() == s.to_multiset(),
        sort_newest_first(s).len() == s.len(),
    decreases s.len(),
{
    if s.len() == 0 {
    } else {
        lemma_sort_newest_first(s.drop_last());
        lemma_insert_keeps_order(sort_newest_first(s.drop_last()), s.last());
        assert(s =~= s.drop_last().push(s.last()));
        s.drop_last().to_multiset_ensures();
        sort_newest_first(s).to_multiset_ensures();
        sort_newest_first(s.drop_last()).to_multiset_ensures();
    }
}

proof fn lemma_insert_pos_from(r: Seq<Wallpaper>, x: Wallpaper, i: int)
    requires
        0 <= i <= r.len(),
        forall|k: int| 0 <= k < i ==> !text_lt(import_key(r[k]), import_key(x)),
    ensures
        insert_pos(r, x) == i + insert_pos(r.subrange(i, r.len() as int), x),
    decreases i,
{
    if i > 0 {
        assert(!text_lt(import_key(r[0]), import_key(x)));
        let t = r.drop_first();
        assert forall|k: int| 0 <= k < i - 1 implies !text_lt(import_key(t[k]), import_key(x)) by {
            assert(t[k] == r[k + 1]);
        }
        lemma_insert_pos_from(t, x, i - 1);
        assert(t.subrange(i - 1, t.len() as int) =~= r.subrange(i, r.len() as int));
    } else {
        assert(r.subrange(0, r.len() as int) =~= r);
    }
}

/// Inserts `x` into a list sorted newest first, after every entry that is
/// not older.
fn insert_newest_first(r: &mut Vec<Wallpaper>, x: Wallpaper)
    ensures
        final(r)@ == insert_desc(old(r)@, x),
{
    let ghost r0 = r@;
    let key = chars_of(x.import_time.as_str());
    let mut p: usize = 0;
    while p < r.len() && !text_less(&chars_of(r[p].import_time.as_str()), &key)
        invariant
            r@ == r0,
            p <= r0.len(),
            forall|k: int| 0 <= k < p ==> !text_lt(import_key(r0[k]), import_key(x)),
            key@ == import_key(x),
        decreases r0.len() - p,
    {
        p += 1;
    }
    proof {
        lemma_insert_pos_from(r0, x, p as int);
        if p < r0.len() {
            assert(r0.subrange(p as int, r0.len() as int)[0] == r0[p as int]);
        }
        assert(insert_pos(r0, x) == p);
    }
    r.insert(p, x);
    assert(r@ =~= insert_desc(r0, x));
}

/// Sorts wallpapers by import time, newest first, keeping the order of
/// entries with the same import time.
pub fn sort_by_import_time_desc(ws: Vec<Wallpaper>) -> (r: Vec<Wallpaper>)
    ensures
        r@ == sort_newest_first(ws@),
        is_newest_first(r@),
        r@.to_multiset() == ws@.to_multiset(),
{
    let ghost s = ws@;
    let mut rest = ws;
    let mut taken: Vec<Wallpaper> = Vec::new();
    // Take the entries off the end, then insert them from the front.
    while rest.len() > 0
        invariant
            rest@ + taken@.reverse() == s,
        decreases rest@.len(),
    {
        let x = rest.pop().unwrap();
        let ghost before = taken@;
        taken.push(x);
        assert(taken@.reverse() =~= seq![x] + before.reverse());
        assert(rest@ + taken@.reverse() =~= s);
    }
    assert(taken@.reverse() =~= s);
    let mut r: Vec<Wallpaper> = Vec::new();
    let ghost n = s.len();
    assert(s.subrange(0, 0) =~= Seq::<Wallpaper>::empty());
    while taken.len() > 0
        invariant
            n == s.len(),
            taken@.len() <= n,
            taken@.reverse() == s.subrange(n - taken@.len(), n as int),
            r@ == sort_newest_first(s.subrange(0, n - taken@.len())),
        decreases taken@.len(),
    {
        let ghost i = n - taken@.len();
        let x = taken.pop().unwrap();
        proof {
            let t = taken@.push(x);
            assert(t.reverse()[0] == x);
            assert(s.subrange(i, n as int)[0] == s[i]);
            assert(x == s[i]);
            assert(taken@.reverse() =~= t.reverse().drop_first());
            assert(s.subrange(i, n as int).drop_first() =~= s.subrange(i + 1, n as int));
            let pre = s.subrange(0, i + 1);
            assert(pre.drop_last() =~= s.subrange(0, i));
            assert(pre.last() == x);
        }
        insert_newest_first(&mut r, x);
    }
    assert(s.subrange(0, n as int) =~= s);
    proof {
        lemma_sort_newest_first(s);
    }
    r
}

} // verus!
