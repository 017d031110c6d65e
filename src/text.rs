//! Substring search and splitting on character sequences, the tools the
//! request router is built from.

use vstd::prelude::*;

verus! {

/// `p` occurs in `s` starting at position `i`.
pub open spec fn matches_at(s: Seq<char>, p: Seq<char>, i: int) -> bool {
    0 <= i && i + p.len() <= s.len() && s.subrange(i, i + p.len()) == p
}

/// The first position at or after `i` where `p` occurs in `s`.
pub open spec fn find_from(s: Seq<char>, p: Seq<char>, i: int) -> Option<int>
    decreases s.len() + 1 - i,
{
    if i < 0 || i + p.len() > s.len() {
        None
    } else if matches_at(s, p, i) {
        Some(i)
    } else {
        find_from(s, p, i + 1)
    }
}

/// The first position where `p` occurs in `s`.
pub open spec fn index_of(s: Seq<char>, p: Seq<char>) -> Option<int> {
    find_from(s, p, 0)
}

/// `p` occurs somewhere in `s`.
pub open spec fn has_substring(s: Seq<char>, p: Seq<char>) -> bool {
    exists|i: int| matches_at(s, p, i)
}

/// What precedes the first `sep` in `s`, or all of `s` when `sep` does not occur.
pub open spec fn first_piece(s: Seq<char>, sep: Seq<char>) -> Seq<char> {
    match index_of(s, sep) {
        Some(k) => s.subrange(0, k),
        None => s,
    }
}

/// What follows the first `sep` in `s`, or all of `s` when `sep` does not occur.
pub open spec fn after_first(s: Seq<char>, sep: Seq<char>) -> Seq<char> {
    match index_of(s, sep) {
        Some(k) => s.subrange(k + sep.len(), s.len() as int),
        None => s,
    }
}

/// The second of the pieces that `sep` cuts `s` into: what lies between its
/// first and its second occurrence (or the end). None when `sep` does not occur.
pub open spec fn second_piece(s: Seq<char>, sep: Seq<char>) -> Option<Seq<char>> {
    match index_of(s, sep) {
        Some(k) => Some(first_piece(s.subrange(k + sep.len(), s.len() as int), sep)),
        None => None,
    }
}

/// `s` without the NUL characters at its end.
pub open spec fn trim_nul(s: Seq<char>) -> Seq<char>
    decreases s.len(),
{
    if s.len() > 0 && s.last() == '\0' {
        trim_nul(s.drop_last())
    } else {
        s
    }
}

/// `find_from` returns the first match at or after `i`, and None only when
/// there is no match there.
pub proof fn lemma_find_from(s: Seq<char>, p: Seq<char>, i: int)
    requires
        0 <= i,
    ensures
        match find_from(s, p, i) {
            Some(k) => i <= k && matches_at(s, p, k) && forall|j: int|
                i <= j < k ==> !matches_at(s, p, j),
            None => forall|j: int| i <= j ==> !matches_at(s, p, j),
        },
    decreases s.len() + 1 - i,
{
    if i + p.len() > s.len() {
    } else if matches_at(s, p, i) {
    } else {
        lemma_find_from(s, p, i + 1);
    }
}

fn chars_of(s: &str) -> (r: Vec<char>)
    ensures
        r@ == s@,
{
    let n = s.unicode_len();
    let mut v: Vec<char> = Vec::new();
    let mut i: usize = 0;
    while i < n
        invariant
            n == s@.len(),
            i <= n,
            v@ == s@.subrange(0, i as int),
        decreases n - i,
    {
        v.push(s.get_char(i));
        i += 1;
        proof {
            assert(v@ =~= s@.subrange(0, i as int));
        }
    }
    assert(v@ =~= s@);
    v
}

fn matches_here(h: &Vec<char>, p: &Vec<char>, i: usize) -> (r: bool)
    requires
        i + p@.len() <= h@.len(),
    ensures
        r == matches_at(h@, p@, i as int),
{
    let m = p.len();
    let n = h.len();
    let mut j: usize = 0;
    while j < m
        invariant
            m == p@.len(),
            n == h@.len(),
            i + m <= n,
            j <= m,
            forall|k: int| 0 <= k < j ==> h@[i + k] == p@[k],
        decreases m - j,
    {
        if h[i + j] != p[j] {
            assert(h@.subrange(i as int, i + m)[j as int] != p@[j as int]);
            return false;
        }
        j += 1;
    }
    assert(h@.subrange(i as int, i + m) =~= p@);
    true
}

/// The first position of `p` in `s`, counted in characters.
pub fn find(s: &str, p: &str) -> (r: Option<usize>)
    ensures
        match r {
            Some(k) => index_of(s@, p@) == Some(k as int),
            None => index_of(s@, p@) is None,
        },
{
    let h = chars_of(s);
    let q = chars_of(p);
    let n = h.len();
    let m = q.len();
    if m > n {
        return None;
    }
    if m == 0 {
        assert(h@.subrange(0, 0) =~= q@);
        return Some(0);
    }
    let mut i: usize = 0;
    while i <= n - m
        invariant
            h@ == s@,
            q@ == p@,
            n == h@.len(),
            m == q@.len(),
            1 <= m <= n,
            i <= n - m + 1,
            index_of(s@, p@) == find_from(s@, p@, i as int),
        decreases n - m + 1 - i,
    {
        if matches_here(&h, &q, i) {
            return Some(i);
        }
        i += 1;
    }
    None
}

/// Whether `p` occurs in `s`.
pub fn contains(s: &str, p: &str) -> (r: bool)
    ensures
        r == has_substring(s@, p@),
{
    let f = find(s, p);
    proof {
        lemma_find_from(s@, p@, 0);
    }
    f.is_some()
}

/// What precedes the first `sep` in `s`.
pub fn first_field<'a>(s: &'a str, sep: &str) -> (r: &'a str)
    ensures
        r@ == first_piece(s@, sep@),
{
    match find(s, sep) {
        Some(k) => {
            proof {
                lemma_find_from(s@, sep@, 0);
            }
            s.substring_char(0, k)
        },
        None => s,
    }
}

/// What follows the first `sep` in `s`.
pub fn text_after<'a>(s: &'a str, sep: &str) -> (r: &'a str)
    ensures
        r@ == after_first(s@, sep@),
{
    match find(s, sep) {
        Some(k) => {
            proof {
                lemma_find_from(s@, sep@, 0);
            }
            let n = s.unicode_len();
            let m = sep.unicode_len();
            s.substring_char(k + m, n)
        },
        None => s,
    }
}

/// The second of the pieces that `sep` cuts `s` into.
pub fn second_field<'a>(s: &'a str, sep: &str) -> (r: Option<&'a str>)
    ensures
        match second_piece(s@, sep@) {
            Some(f) => r is Some && r->0@ == f,
            None => r is None,
        },
{
    match find(s, sep) {
        Some(_) => Some(first_field(text_after(s, sep), sep)),
        None => None,
    }
}

/// `s` without the NUL characters at its end.
pub fn trim_trailing_nul(s: &str) -> (r: &str)
    ensures
        r@ == trim_nul(s@),
{
    let mut end = s.unicode_len();
    assert(s@.subrange(0, end as int) =~= s@);
    while end > 0 && s.get_char(end - 1) == '\0'
        invariant
            end <= s@.len(),
            trim_nul(s@) == trim_nul(s@.subrange(0, end as int)),
        decreases end,
    {
        assert(s@.subrange(0, end as int).drop_last() =~= s@.subrange(0, end - 1));
        end -= 1;
    }
    assert(s@.subrange(0, end as int) =~= s@.subrange(0, end as int));
    s.substring_char(0, end)
}

} // verus!
