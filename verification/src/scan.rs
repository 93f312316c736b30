//! Reading request text: lines, white-space separated words, splitting at a
//! character, and decimal numbers.
use vstd::prelude::*;
use crate::text::{decimal, digit_char, is_white_space, is_white_space_char, sub_chars};

verus! {

/// The index of the first `c` in `s`, or -1.
pub open spec fn first_index_of(s: Seq<char>, c: char) -> int
    decreases s.len(),
{
    if s.len() == 0 {
        -1
    } else if s[0] == c {
        0
    } else if first_index_of(s.drop_first(), c) < 0 {
        -1
    } else {
        first_index_of(s.drop_first(), c) + 1
    }
}

pub proof fn lemma_first_index_of(s: Seq<char>, c: char, k: int)
    requires
        0 <= k <= s.len(),
        forall|j: int| 0 <= j < k ==> s[j] != c,
        k < s.len() ==> s[k] == c,
    ensures
        first_index_of(s, c) == if k < s.len() {
            k
        } else {
            -1
        },
    decreases k,
{
    if s.len() > 0 && k > 0 {
        let t = s.drop_first();
        assert forall|j: int| 0 <= j < k - 1 implies t[j] != c by {
            assert(t[j] == s[j + 1]);
        }
        if k - 1 < t.len() {
            assert(t[k - 1] == s[k]);
        }
        lemma_first_index_of(t, c, k - 1);
    }
}

/// The index of the first `c` in `s`, if any.
pub fn first_index(s: &[char], c: char) -> (r: Option<usize>)
    ensures
        match r {
            Some(k) => k < s@.len() && first_index_of(s@, c) == k,
            None => first_index_of(s@, c) == -1,
        },
{
    let mut i: usize = 0;
    while i < s.len()
        invariant
            i <= s@.len(),
            forall|j: int| 0 <= j < i ==> s@[j] != c,
        decreases s@.len() - i,
    {
        if s[i] == c {
            proof {
                lemma_first_index_of(s@, c, i as int);
            }
            return Some(i);
        }
        i += 1;
    }
    proof {
        lemma_first_index_of(s@, c, s@.len() as int);
    }
    None
}

/// `s` cut at every `sep` (empty pieces included), as `str::split` does.
pub open spec fn split_on(s: Seq<char>, sep: char) -> Seq<Seq<char>>
    decreases s.len(),
{
    if s.len() == 0 {
        seq![Seq::<char>::empty()]
    } else if s.last() == sep {
        split_on(s.drop_last(), sep).push(Seq::<char>::empty())
    } else {
        let r = split_on(s.drop_last(), sep);
        r.update(r.len() - 1, r.last().push(s.last()))
    }
}

pub open spec fn views(v: Seq<Vec<char>>) -> Seq<Seq<char>> {
    v.map_values(|x: Vec<char>| x@)
}

proof fn lemma_split_on_len(s: Seq<char>, sep: char)
    ensures
        split_on(s, sep).len() >= 1,
    decreases s.len(),
{
    if s.len() > 0 {
        lemma_split_on_len(s.drop_last(), sep);
    }
}

/// `str::split` at one character.
pub fn split_at_char(s: &[char], sep: char) -> (r: Vec<Vec<char>>)
    ensures
        views(r@) == split_on(s@, sep),
{
    let n = s.len();
    let mut done: Vec<Vec<char>> = Vec::new();
    let mut cur: Vec<char> = Vec::new();
    assert(s@.subrange(0, 0) =~= Seq::<char>::empty());
    assert(split_on(s@.subrange(0, 0), sep) =~= views(done@).push(cur@));
    let mut i: usize = 0;
    while i < n
        invariant
            n == s@.len(),
            i <= n,
            split_on(s@.subrange(0, i as int), sep) == views(done@).push(cur@),
        decreases n - i,
    {
        let c = s[i];
        proof {
            assert(s@.subrange(0, i + 1).drop_last() =~= s@.subrange(0, i as int));
            assert(s@.subrange(0, i + 1).last() == c);
        }
        if c == sep {
            let finished = cur;
            cur = Vec::new();
            let ghost before = done@;
            done.push(finished);
            assert(views(done@) =~= views(before).push(finished@));
            assert(split_on(s@.subrange(0, i + 1), sep) =~= views(done@).push(cur@));
        } else {
            cur.push(c);
            assert(split_on(s@.subrange(0, i + 1), sep) =~= views(done@).push(cur@));
        }
        i += 1;
    }
    assert(s@.subrange(0, n as int) =~= s@);
    let ghost before = done@;
    done.push(cur);
    assert(views(done@) =~= views(before).push(done@.last()@));
    done
}

/// Removes one trailing carriage return.
pub open spec fn strip_cr(c: Seq<char>) -> Seq<char> {
    if c.len() > 0 && c.last() == '\r' {
        c.drop_last()
    } else {
        c
    }
}

/// The finished lines of `s` and the text after its last line feed.
pub open spec fn line_split(s: Seq<char>) -> (Seq<Seq<char>>, Seq<char>)
    decreases s.len(),
{
    if s.len() == 0 {
        (Seq::empty(), Seq::empty())
    } else {
        let (d, c) = line_split(s.drop_last());
        if s.last() == '\n' {
            (d.push(strip_cr(c)), Seq::empty())
        } else {
            (d, c.push(s.last()))
        }
    }
}

/// `str::lines`: the text between line feeds, each without a carriage
/// return before its line feed; a last line without a line feed counts only
/// if it is not empty.
pub open spec fn lines(s: Seq<char>) -> Seq<Seq<char>> {
    let (d, c) = line_split(s);
    if c.len() > 0 {
        d.push(c)
    } else {
        d
    }
}

/// `str::lines`.
pub fn lines_of(s: &[char]) -> (r: Vec<Vec<char>>)
    ensures
        views(r@) == lines(s@),
{
    let n = s.len();
    let mut done: Vec<Vec<char>> = Vec::new();
    let mut cur: Vec<char> = Vec::new();
    assert(s@.subrange(0, 0) =~= Seq::<char>::empty());
    assert(views(done@) =~= Seq::<Seq<char>>::empty());
    let mut i: usize = 0;
    while i < n
        invariant
            n == s@.len(),
            i <= n,
            line_split(s@.subrange(0, i as int)) == (views(done@), cur@),
        decreases n - i,
    {
        let c = s[i];
        proof {
            assert(s@.subrange(0, i + 1).drop_last() =~= s@.subrange(0, i as int));
            assert(s@.subrange(0, i + 1).last() == c);
        }
        if c == '\n' {
            let m = cur.len();
            let line = if m > 0 && cur[m - 1] == '\r' {
                sub_chars(&cur, 0, m - 1)
            } else {
                sub_chars(&cur, 0, m)
            };
            proof {
                assert(cur@.subrange(0, m as int) =~= cur@);
                if m > 0 {
                    assert(cur@.subrange(0, m - 1) =~= cur@.drop_last());
                }
            }
            let ghost before = done@;
            done.push(line);
            cur = Vec::new();
            assert(views(done@) =~= views(before).push(strip_cr(line_split(s@.subrange(0, i as int)).1)));
            assert(line_split(s@.subrange(0, i + 1)) == (views(done@), cur@));
        } else {
            cur.push(c);
            assert(line_split(s@.subrange(0, i + 1)) == (views(done@), cur@));
        }
        i += 1;
    }
    assert(s@.subrange(0, n as int) =~= s@);
    if cur.len() > 0 {
        let ghost before = done@;
        done.push(cur);
        assert(views(done@) =~= views(before).push(done@.last()@));
    }
    done
}

/// The words of `s` so far and the word being read.
pub open spec fn word_split(s: Seq<char>) -> (Seq<Seq<char>>, Seq<char>)
    decreases s.len(),
{
    if s.len() == 0 {
        (Seq::empty(), Seq::empty())
    } else {
        let (d, c) = word_split(s.drop_last());
        if is_white_space(s.last()) {
            if c.len() > 0 {
                (d.push(c), Seq::empty())
            } else {
                (d, c)
            }
        } else {
            (d, c.push(s.last()))
        }
    }
}

/// `str::split_whitespace`: the maximal runs of characters that are not
/// white space.
pub open spec fn words(s: Seq<char>) -> Seq<Seq<char>> {
    let (d, c) = word_split(s);
    if c.len() > 0 {
        d.push(c)
    } else {
        d
    }
}

/// `str::split_whitespace`.
pub fn words_of(s: &[char]) -> (r: Vec<Vec<char>>)
    ensures
        views(r@) == words(s@),
{
    let n = s.len();
    let mut done: Vec<Vec<char>> = Vec::new();
    let mut cur: Vec<char> = Vec::new();
    assert(s@.subrange(0, 0) =~= Seq::<char>::empty());
    assert(views(done@) =~= Seq::<Seq<char>>::empty());
    let mut i: usize = 0;
    while i < n
        invariant
            n == s@.len(),
            i <= n,
            word_split(s@.subrange(0, i as int)) == (views(done@), cur@),
        decreases n - i,
    {
        let c = s[i];
        proof {
            assert(s@.subrange(0, i + 1).drop_last() =~= s@.subrange(0, i as int));
            assert(s@.subrange(0, i + 1).last() == c);
        }
        if is_white_space_char(c) {
            if cur.len() > 0 {
                let finished = cur;
                cur = Vec::new();
                let ghost before = done@;
                done.push(finished);
                assert(views(done@) =~= views(before).push(finished@));
            }
            assert(word_split(s@.subrange(0, i + 1)) == (views(done@), cur@));
        } else {
            cur.push(c);
            assert(word_split(s@.subrange(0, i + 1)) == (views(done@), cur@));
        }
        i += 1;
    }
    assert(s@.subrange(0, n as int) =~= s@);
    if cur.len() > 0 {
        let ghost before = done@;
        done.push(cur);
        assert(views(done@) =~= views(before).push(done@.last()@));
    }
    done
}

/// Whether a character is an ASCII digit.
pub open spec fn is_digit(c: char) -> bool {
    '0' <= c <= '9'
}

pub open spec fn digit_value(c: char) -> nat {
    ((c as u32) - ('0' as u32)) as nat
}

/// The number that a text of decimal digits writes.
pub open spec fn digits_value(t: Seq<char>) -> nat
    decreases t.len(),
{
    if t.len() == 0 {
        0
    } else {
        digits_value(t.drop_last()) * 10 + digit_value(t.last())
    }
}

/// The digits part of an unsigned number: the text after a leading `+`.
pub open spec fn unsigned_digits(s: Seq<char>) -> Seq<char> {
    if s.len() > 0 && s[0] == '+' {
        s.drop_first()
    } else {
        s
    }
}

/// Every character is an ASCII digit.
pub open spec fn all_digits(t: Seq<char>) -> bool {
    forall|i: int| 0 <= i < t.len() ==> is_digit(#[trigger] t[i])
}

/// `str::parse::<u64>`: an optional `+` and then at least one ASCII digit,
/// with a value that fits in a `u64`.
pub open spec fn parsed_u64(s: Seq<char>) -> Option<u64> {
    let t = unsigned_digits(s);
    if t.len() > 0 && all_digits(t) && digits_value(t) <= u64::MAX {
        Some(digits_value(t) as u64)
    } else {
        None
    }
}

proof fn lemma_digit_char_value(k: nat)
    requires
        k < 10,
    ensures
        is_digit(digit_char(k)),
        digit_value(digit_char(k)) == k,
        digit_char(k) != '+',
{
}

/// Reading back what `decimal` writes gives the number: the decimal text
/// of `n` is a non-empty run of ASCII digits whose value is `n`, and
/// `str::parse::<u64>` reads it as `n`.
pub proof fn lemma_decimal_reads_back(n: nat)
    ensures
        decimal(n).len() > 0,
        all_digits(decimal(n)),
        digits_value(decimal(n)) == n,
        n <= u64::MAX ==> parsed_u64(decimal(n)) == Some(n as u64),
    decreases n,
{
    if n < 10 {
        lemma_digit_char_value(n);
        let d = decimal(n);
        assert(d.drop_last() =~= Seq::<char>::empty());
        assert(d.last() == digit_char(n));
        assert(digits_value(d) == digits_value(d.drop_last()) * 10 + digit_value(d.last()));
        assert(digits_value(d) == n);
    } else {
        lemma_decimal_reads_back(n / 10);
        lemma_digit_char_value(n % 10);
        let d = decimal(n);
        assert(d.drop_last() =~= decimal(n / 10));
        assert((n / 10) * 10 + n % 10 == n) by (nonlinear_arith);
        assert(d.last() == digit_char(n % 10));
        assert(digits_value(d) == digits_value(d.drop_last()) * 10 + digit_value(d.last()));
        assert(digits_value(d) == n);
        assert forall|i: int| 0 <= i < d.len() implies is_digit(#[trigger] d[i]) by {
            if i < d.len() - 1 {
                assert(d[i] == decimal(n / 10)[i]);
            }
        }
    }
    let d = decimal(n);
    assert(d[0] != '+') by {
        assert(is_digit(d[0]));
    }
    assert(unsigned_digits(d) == d);
}

proof fn lemma_digits_value_grows(t: Seq<char>, k: int)
    requires
        0 <= k <= t.len(),
        forall|i: int| 0 <= i < t.len() ==> is_digit(#[trigger] t[i]),
    ensures
        digits_value(t.subrange(0, k)) <= digits_value(t),
    decreases t.len() - k,
{
    if k < t.len() {
        lemma_digits_value_grows(t, k + 1);
        let p = t.subrange(0, k + 1);
        assert(p.drop_last() =~= t.subrange(0, k));
    } else {
        assert(t.subrange(0, k) =~= t);
    }
}

/// Parses a `u64` as `str::parse` does.
pub fn parse_u64(s: &[char]) -> (r: Option<u64>)
    ensures
        r == parsed_u64(s@),
{
    let n = s.len();
    let start: usize = if n > 0 && s[0] == '+' {
        1
    } else {
        0
    };
    let ghost t = unsigned_digits(s@);
    assert(t =~= s@.subrange(start as int, n as int));
    if start == n {
        return None;
    }
    let mut v: u64 = 0;
    let mut i: usize = start;
    assert(t.subrange(0, 0) =~= Seq::<char>::empty());
    while i < n
        invariant
            n == s@.len(),
            start <= i <= n,
            start <= 1,
            t == s@.subrange(start as int, n as int),
            t == unsigned_digits(s@),
            forall|j: int| 0 <= j < i - start ==> is_digit(#[trigger] t[j]),
            v == digits_value(t.subrange(0, i - start)),
        decreases n - i,
    {
        let c = s[i];
        assert(t[i - start] == c);
        if !('0' <= c && c <= '9') {
            assert(!is_digit(t[i - start]));
            assert(!all_digits(t));
            return None;
        }
        let d: u64 = (c as u32 - '0' as u32) as u64;
        proof {
            let p = t.subrange(0, i - start + 1);
            assert(p.drop_last() =~= t.subrange(0, i - start));
            assert(p.last() == c);
        }
        if v > 1844674407370955161 || (v == 1844674407370955161 && d > 5) {
            proof {
                assert(is_digit(t[i - start]));
                assert(digits_value(t.subrange(0, i - start + 1)) > u64::MAX);
            }
            return parse_rest_overflows(s, i + 1, start, Ghost(t));
        }
        v = v * 10 + d;
        i += 1;
    }
    assert(t.subrange(0, n - start) =~= t);
    Some(v)
}

/// After an overflow the text parses to nothing, whatever follows: a
/// non-digit makes it invalid, and more digits only make it larger.
fn parse_rest_overflows(s: &[char], from: usize, start: usize, Ghost(t): Ghost<Seq<char>>) -> (r: Option<u64>)
    requires
        start < from <= s@.len(),
        t == s@.subrange(start as int, s@.len() as int),
        start == 0 || start == 1,
        forall|j: int| 0 <= j < from - start ==> is_digit(#[trigger] t[j]),
        digits_value(t.subrange(0, from - start)) > u64::MAX,
        t.len() > 0,
        t == unsigned_digits(s@),
    ensures
        r == parsed_u64(s@),
{
    let n = s.len();
    let mut i = from;
    while i < n
        invariant
            n == s@.len(),
            from <= i <= n,
            start < from,
            start <= 1,
            t == s@.subrange(start as int, n as int),
            t == unsigned_digits(s@),
            forall|j: int| 0 <= j < i - start ==> is_digit(#[trigger] t[j]),
        decreases n - i,
    {
        let c = s[i];
        assert(t[i - start] == c);
        if !('0' <= c && c <= '9') {
            assert(!is_digit(t[i - start]));
            assert(!all_digits(t));
            return None;
        }
        i += 1;
    }
    proof {
        lemma_digits_value_grows(t, from - start);
    }
    None
}

} // verus!
