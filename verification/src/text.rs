//! Character-sequence utilities that the parsers are built from.

use vstd::prelude::*;

verus! {

/// Appends one character to a `String` (std `String::push`).
#[verifier::external_body]
pub(crate) fn string_push(s: &mut String, c: char)
    ensures
        final(s)@ == old(s)@.push(c),
{
    s.push(c);
}

/// The characters of `s`, in order.
pub fn chars_of(s: &str) -> (v: Vec<char>)
    ensures
        v@ == s@,
{
    let mut v: Vec<char> = Vec::new();
    for c in it: s.chars()
        invariant
            v@ == it.seq().take(it.index() as int),
    {
        v.push(c);
    }
    v
}

/// A `String` holding exactly the characters of `v`.
pub fn string_of(v: &[char]) -> (s: String)
    ensures
        s@ == v@,
{
    let mut s = String::new();
    let mut i: usize = 0;
    while i < v.len()
        invariant
            i <= v.len(),
            s@ == v@.take(i as int),
        decreases v.len() - i,
    {
        string_push(&mut s, v[i]);
        assert(v@.take(i + 1) == v@.take(i as int).push(v@[i as int]));
        i += 1;
    }
    assert(v@.take(v.len() as int) == v@);
    s
}


/// `p` occurs in `s` at position `i`.
pub open spec fn occurs_at(s: Seq<char>, i: int, p: Seq<char>) -> bool {
    0 <= i && i + p.len() <= s.len() && s.subrange(i, i + p.len()) == p
}

/// Position of the first occurrence of `p` in `s` at or after `i`.
pub open spec fn find_from(s: Seq<char>, p: Seq<char>, i: int) -> Option<int>
    decreases s.len() + 1 - i,
{
    if i < 0 || i + p.len() > s.len() {
        None
    } else if occurs_at(s, i, p) {
        Some(i)
    } else {
        find_from(s, p, i + 1)
    }
}

/// Position of the first occurrence of `p` in `s`.
pub open spec fn find(s: Seq<char>, p: Seq<char>) -> Option<int> {
    find_from(s, p, 0)
}

/// `s` contains `p` as a contiguous part.
pub open spec fn contains(s: Seq<char>, p: Seq<char>) -> bool {
    find(s, p) is Some
}

pub proof fn lemma_find_from_bounds(s: Seq<char>, p: Seq<char>, i: int)
    requires
        0 <= i,
    ensures
        find_from(s, p, i) matches Some(k) ==> i <= k && k + p.len() <= s.len() && occurs_at(
            s,
            k,
            p,
        ) && forall|j: int| i <= j < k ==> !occurs_at(s, j, p),
        find_from(s, p, i) is None ==> forall|j: int| i <= j ==> !occurs_at(s, j, p),
    decreases s.len() + 1 - i,
{
    if i < 0 || i + p.len() > s.len() {
        assert forall|j: int| i <= j implies !occurs_at(s, j, p) by {}
    } else if occurs_at(s, i, p) {
    } else {
        lemma_find_from_bounds(s, p, i + 1);
    }
}

/// The contiguous part `s[i..j]`.
pub open spec fn slice(s: Seq<char>, i: int, j: int) -> Seq<char> {
    s.subrange(i, j)
}

/// Exec: does `p` occur in `v` at position `i`?
pub fn occurs_at_exec(v: &[char], i: usize, p: &[char]) -> (r: bool)
    ensures
        r == occurs_at(v@, i as int, p@),
{
    if i > v.len() || p.len() > v.len() - i {
        return false;
    }
    let mut k: usize = 0;
    while k < p.len()
        invariant
            i + p.len() <= v.len(),
            k <= p.len(),
            forall|m: int| 0 <= m < k ==> v@[i + m] == p@[m],
        decreases p.len() - k,
    {
        if v[i + k] != p[k] {
            assert(v@.subrange(i as int, i + p.len())[k as int] != p@[k as int]);
            return false;
        }
        k += 1;
    }
    assert(v@.subrange(i as int, i + p.len()) =~= p@);
    true
}

/// Exec: first occurrence of `p` at or after `i`.
pub fn find_from_exec(v: &[char], p: &[char], i: usize) -> (r: Option<usize>)
    ensures
        r matches Some(k) ==> find_from(v@, p@, i as int) == Some(k as int),
        r is None ==> find_from(v@, p@, i as int) is None,
{
    if i > v.len() {
        return None;
    }
    let mut j = i;
    while p.len() <= v.len() - j
        invariant
            i <= j <= v.len(),
            find_from(v@, p@, i as int) == find_from(v@, p@, j as int),
        decreases v.len() - j,
    {
        if occurs_at_exec(v, j, p) {
            return Some(j);
        }
        if j == v.len() {
            assert(find_from(v@, p@, j + 1) is None);
            return None;
        }
        j += 1;
    }
    None
}

/// Exec: first occurrence of `p` in `v`.
pub fn find_exec(v: &[char], p: &[char]) -> (r: Option<usize>)
    ensures
        r matches Some(k) ==> find(v@, p@) == Some(k as int),
        r is None ==> find(v@, p@) is None,
{
    find_from_exec(v, p, 0)
}

/// Exec: `v` contains `p`.
pub fn contains_exec(v: &[char], p: &[char]) -> (r: bool)
    ensures
        r == contains(v@, p@),
{
    find_exec(v, p).is_some()
}

/// Exec: copy of `v[i..j]`.
pub fn slice_exec(v: &[char], i: usize, j: usize) -> (r: Vec<char>)
    requires
        i <= j <= v.len(),
    ensures
        r@ == v@.subrange(i as int, j as int),
{
    let mut r: Vec<char> = Vec::new();
    let mut k = i;
    while k < j
        invariant
            i <= k <= j <= v.len(),
            r@ == v@.subrange(i as int, k as int),
        decreases j - k,
    {
        r.push(v[k]);
        assert(v@.subrange(i as int, k + 1) == v@.subrange(i as int, k as int).push(v@[k as int]));
        k += 1;
    }
    r
}


/// `s` begins with `p`.
pub open spec fn starts_with(s: Seq<char>, p: Seq<char>) -> bool {
    occurs_at(s, 0, p)
}

/// `s` ends with `p`.
pub open spec fn ends_with(s: Seq<char>, p: Seq<char>) -> bool {
    occurs_at(s, s.len() - p.len(), p)
}

pub fn starts_with_exec(v: &[char], p: &[char]) -> (r: bool)
    ensures
        r == starts_with(v@, p@),
{
    occurs_at_exec(v, 0, p)
}

pub fn ends_with_exec(v: &[char], p: &[char]) -> (r: bool)
    ensures
        r == ends_with(v@, p@),
{
    if p.len() > v.len() {
        return false;
    }
    occurs_at_exec(v, v.len() - p.len(), p)
}

/// `s` with every non-overlapping occurrence of `p` (scanning from the left,
/// from position `i` on) replaced by `r`.
pub open spec fn replace_from(s: Seq<char>, p: Seq<char>, r: Seq<char>, i: int) -> Seq<char>
    decreases s.len() - i,
{
    if i < 0 || i >= s.len() {
        Seq::empty()
    } else if p.len() > 0 && occurs_at(s, i, p) {
        r + replace_from(s, p, r, i + p.len())
    } else {
        seq![s[i]] + replace_from(s, p, r, i + 1)
    }
}

/// `str::replace` with a non-empty pattern.
pub open spec fn replace(s: Seq<char>, p: Seq<char>, r: Seq<char>) -> Seq<char> {
    replace_from(s, p, r, 0)
}

pub fn replace_exec(v: &[char], p: &[char], r: &[char]) -> (out: Vec<char>)
    requires
        p@.len() > 0,
    ensures
        out@ == replace(v@, p@, r@),
{
    let mut out: Vec<char> = Vec::new();
    let mut i: usize = 0;
    while i < v.len()
        invariant
            i <= v.len(),
            p@.len() > 0,
            replace(v@, p@, r@) == out@ + replace_from(v@, p@, r@, i as int),
        decreases v.len() - i,
    {
        if occurs_at_exec(v, i, p) {
            let ghost before = out@;
            let mut k: usize = 0;
            while k < r.len()
                invariant
                    k <= r.len(),
                    out@ == before + r@.take(k as int),
                decreases r.len() - k,
            {
                out.push(r[k]);
                assert(r@.take(k + 1) == r@.take(k as int).push(r@[k as int]));
                k += 1;
            }
            assert(r@.take(r.len() as int) == r@);
            assert(before + (r@ + replace_from(v@, p@, r@, i + p.len())) == (before + r@)
                + replace_from(v@, p@, r@, i + p.len()));
            i = i + p.len();
        } else {
            let ghost before = out@;
            out.push(v[i]);
            assert(before + (seq![v@[i as int]] + replace_from(v@, p@, r@, i + 1)) == (before.push(
                v@[i as int],
            )) + replace_from(v@, p@, r@, i + 1));
            i += 1;
        }
    }
    assert(replace_from(v@, p@, r@, i as int) == Seq::<char>::empty());
    assert(out@ + Seq::<char>::empty() == out@);
    out
}

/// The pieces of `s[i..]` between the occurrences of a non-empty `p`
/// (`str::split`).
pub open spec fn split_from(s: Seq<char>, p: Seq<char>, i: int) -> Seq<Seq<char>>
    decreases s.len() + 1 - i,
{
    if p.len() == 0 || i < 0 || i > s.len() {
        seq![s.subrange(i, s.len() as int)]
    } else {
        match find_from(s, p, i) {
            None => seq![s.subrange(i, s.len() as int)],
            Some(k) => {
                proof {
                    lemma_find_from_bounds(s, p, i);
                }
                seq![s.subrange(i, k)] + split_from(s, p, k + p.len())
            },
        }
    }
}

/// `str::split` with a non-empty pattern.
pub open spec fn split(s: Seq<char>, p: Seq<char>) -> Seq<Seq<char>> {
    split_from(s, p, 0)
}

/// At most `n` pieces: like `split`, but the last piece holds the rest
/// (`str::splitn`).
pub open spec fn splitn_from(s: Seq<char>, p: Seq<char>, i: int, n: nat) -> Seq<Seq<char>>
    decreases n,
{
    if n == 0 {
        Seq::empty()
    } else if n == 1 || p.len() == 0 || i < 0 || i > s.len() {
        seq![s.subrange(i, s.len() as int)]
    } else {
        match find_from(s, p, i) {
            None => seq![s.subrange(i, s.len() as int)],
            Some(k) => seq![s.subrange(i, k)] + splitn_from(s, p, k + p.len(), (n - 1) as nat),
        }
    }
}

pub open spec fn splitn(s: Seq<char>, p: Seq<char>, n: nat) -> Seq<Seq<char>> {
    splitn_from(s, p, 0, n)
}

/// The abstract contents of a list of character vectors.
pub open spec fn views(v: Seq<Vec<char>>) -> Seq<Seq<char>> {
    v.map_values(|x: Vec<char>| x@)
}

pub proof fn lemma_views_push(v: Seq<Vec<char>>, x: Vec<char>)
    ensures
        views(v.push(x)) == views(v).push(x@),
{
    assert(views(v.push(x)) =~= views(v).push(x@));
}

pub fn split_exec(v: &[char], p: &[char]) -> (out: Vec<Vec<char>>)
    requires
        p@.len() > 0,
    ensures
        views(out@) == split(v@, p@),
{
    let mut out: Vec<Vec<char>> = Vec::new();
    let mut i: usize = 0;
    loop
        invariant
            i <= v.len(),
            p@.len() > 0,
            split(v@, p@) == views(out@) + split_from(v@, p@, i as int),
        decreases v.len() + 1 - i,
    {
        proof {
            lemma_find_from_bounds(v@, p@, i as int);
        }
        match find_from_exec(v, p, i) {
            None => {
                let piece = slice_exec(v, i, v.len());
                let ghost before = out@;
                out.push(piece);
                proof {
                    lemma_views_push(before, piece);
                }
                return out;
            },
            Some(k) => {
                let piece = slice_exec(v, i, k);
                let ghost before = out@;
                out.push(piece);
                proof {
                    lemma_views_push(before, piece);
                    assert(views(before) + (seq![piece@] + split_from(v@, p@, k + p@.len())) == (
                    views(before).push(piece@)) + split_from(v@, p@, k + p@.len()));
                }
                i = k + p.len();
            },
        }
    }
}

pub fn splitn_exec(v: &[char], p: &[char], n: usize) -> (out: Vec<Vec<char>>)
    requires
        p@.len() > 0,
    ensures
        views(out@) == splitn(v@, p@, n as nat),
{
    let mut out: Vec<Vec<char>> = Vec::new();
    if n == 0 {
        return out;
    }
    let mut i: usize = 0;
    let mut left: usize = n;
    loop
        invariant
            i <= v.len(),
            p@.len() > 0,
            left >= 1,
            splitn(v@, p@, n as nat) == views(out@) + splitn_from(v@, p@, i as int, left as nat),
        decreases left,
    {
        proof {
            lemma_find_from_bounds(v@, p@, i as int);
        }
        let found = if left == 1 {
            None
        } else {
            find_from_exec(v, p, i)
        };
        match found {
            None => {
                let piece = slice_exec(v, i, v.len());
                let ghost before = out@;
                out.push(piece);
                proof {
                    lemma_views_push(before, piece);
                }
                return out;
            },
            Some(k) => {
                let piece = slice_exec(v, i, k);
                let ghost before = out@;
                out.push(piece);
                proof {
                    lemma_views_push(before, piece);
                    assert(views(before) + (seq![piece@] + splitn_from(
                        v@,
                        p@,
                        k + p@.len(),
                        (left - 1) as nat,
                    )) == (views(before).push(piece@)) + splitn_from(
                        v@,
                        p@,
                        k + p@.len(),
                        (left - 1) as nat,
                    ));
                }
                i = k + p.len();
                left = left - 1;
            },
        }
    }
}

/// The part of `s` before and after the first occurrence of `p`
/// (`str::split_once`).
pub open spec fn split_once(s: Seq<char>, p: Seq<char>) -> Option<(Seq<char>, Seq<char>)> {
    match find(s, p) {
        Some(k) => Some((s.subrange(0, k), s.subrange(k + p.len(), s.len() as int))),
        None => None,
    }
}

pub fn split_once_exec(v: &[char], p: &[char]) -> (r: Option<(Vec<char>, Vec<char>)>)
    ensures
        r matches Some((a, b)) ==> split_once(v@, p@) == Some((a@, b@)),
        r is None ==> split_once(v@, p@) is None,
{
    proof {
        lemma_find_from_bounds(v@, p@, 0);
    }
    match find_exec(v, p) {
        Some(k) => {
            assert(find_from(v@, p@, 0) == Some(k as int));
            assert(k + p@.len() <= v@.len());
            assert(v@.len() == v.len() && p@.len() == p.len());
            let a = slice_exec(v, 0, k);
            let b = slice_exec(v, k + p.len(), v.len());
            Some((a, b))
        },
        None => None,
    }
}

/// `t` without one trailing carriage return.
pub open spec fn strip_cr(t: Seq<char>) -> Seq<char> {
    if t.len() > 0 && t.last() == '\r' {
        t.drop_last()
    } else {
        t
    }
}

/// The lines of `s[i..]` (`str::lines`): split at `\n`, a `\r` before a
/// `\n` dropped, no empty piece after a final `\n`.
pub open spec fn lines_from(s: Seq<char>, i: int) -> Seq<Seq<char>>
    decreases s.len() - i,
{
    if i < 0 || i >= s.len() {
        Seq::empty()
    } else {
        match find_from(s, seq!['\n'], i) {
            None => seq![s.subrange(i, s.len() as int)],
            Some(k) => {
                proof {
                    lemma_find_from_bounds(s, seq!['\n'], i);
                }
                seq![strip_cr(s.subrange(i, k))] + lines_from(s, k + 1)
            },
        }
    }
}

pub open spec fn lines(s: Seq<char>) -> Seq<Seq<char>> {
    lines_from(s, 0)
}

pub fn strip_cr_exec(t: Vec<char>) -> (r: Vec<char>)
    ensures
        r@ == strip_cr(t@),
{
    let mut t = t;
    if t.len() > 0 && t[t.len() - 1] == '\r' {
        t.pop();
    }
    t
}

pub fn lines_exec(v: &[char]) -> (out: Vec<Vec<char>>)
    ensures
        views(out@) == lines(v@),
{
    let nl: Vec<char> = vec!['\n'];
    assert(nl@ == seq!['\n']);
    let mut out: Vec<Vec<char>> = Vec::new();
    let mut i: usize = 0;
    while i < v.len()
        invariant
            i <= v.len(),
            nl@ == seq!['\n'],
            lines(v@) == views(out@) + lines_from(v@, i as int),
        decreases v.len() - i,
    {
        proof {
            lemma_find_from_bounds(v@, nl@, i as int);
        }
        match find_from_exec(v, nl.as_slice(), i) {
            None => {
                let piece = slice_exec(v, i, v.len());
                let ghost before = out@;
                out.push(piece);
                proof {
                    lemma_views_push(before, piece);
                    assert(lines_from(v@, v.len() as int) == Seq::<Seq<char>>::empty());
                    assert(views(out@) + Seq::<Seq<char>>::empty() == views(out@));
                }
                return out;
            },
            Some(k) => {
                let piece = strip_cr_exec(slice_exec(v, i, k));
                let ghost before = out@;
                out.push(piece);
                proof {
                    lemma_views_push(before, piece);
                    assert(views(before) + (seq![piece@] + lines_from(v@, k + 1)) == (views(
                        before,
                    ).push(piece@)) + lines_from(v@, k + 1));
                }
                i = k + 1;
            },
        }
    }
    proof {
        assert(views(out@) + Seq::<Seq<char>>::empty() == views(out@));
    }
    out
}


/// Unicode `White_Space` (what `char::is_whitespace` tests).
pub open spec fn is_ws(c: char) -> bool {
    ||| c == ' '
    ||| ('\t' <= c && c <= '\r')
    ||| c == '\u{85}'
    ||| c == '\u{A0}'
    ||| c == '\u{1680}'
    ||| ('\u{2000}' <= c && c <= '\u{200A}')
    ||| c == '\u{2028}'
    ||| c == '\u{2029}'
    ||| c == '\u{202F}'
    ||| c == '\u{205F}'
    ||| c == '\u{3000}'
}

pub fn is_ws_exec(c: char) -> (r: bool)
    ensures
        r == is_ws(c),
{
    c == ' ' || ('\t' <= c && c <= '\r') || c == '\u{85}' || c == '\u{A0}' || c == '\u{1680}'
        || ('\u{2000}' <= c && c <= '\u{200A}') || c == '\u{2028}' || c == '\u{2029}' || c
        == '\u{202F}' || c == '\u{205F}' || c == '\u{3000}'
}

/// Index of the first non-whitespace character at or after `i`.
pub open spec fn lead_from(s: Seq<char>, i: int) -> int
    decreases s.len() - i,
{
    if 0 <= i < s.len() && is_ws(s[i]) {
        lead_from(s, i + 1)
    } else {
        i
    }
}

/// End of `s[lo..j]` once its trailing whitespace is dropped.
pub open spec fn trail_to(s: Seq<char>, lo: int, j: int) -> int
    decreases j - lo,
{
    if lo < j && j <= s.len() && is_ws(s[j - 1]) {
        trail_to(s, lo, j - 1)
    } else {
        j
    }
}

pub proof fn lemma_lead_bounds(s: Seq<char>, i: int)
    requires
        0 <= i <= s.len(),
    ensures
        i <= lead_from(s, i) <= s.len(),
        forall|k: int| i <= k < lead_from(s, i) ==> is_ws(#[trigger] s[k]),
        lead_from(s, i) < s.len() ==> !is_ws(s[lead_from(s, i)]),
    decreases s.len() - i,
{
    if 0 <= i < s.len() && is_ws(s[i]) {
        lemma_lead_bounds(s, i + 1);
    }
}

pub proof fn lemma_trail_bounds(s: Seq<char>, lo: int, j: int)
    requires
        0 <= lo <= j <= s.len(),
    ensures
        lo <= trail_to(s, lo, j) <= j,
        forall|k: int| trail_to(s, lo, j) <= k < j ==> is_ws(#[trigger] s[k]),
        trail_to(s, lo, j) > lo ==> !is_ws(s[trail_to(s, lo, j) - 1]),
    decreases j - lo,
{
    if lo < j && j <= s.len() && is_ws(s[j - 1]) {
        lemma_trail_bounds(s, lo, j - 1);
    }
}

/// `str::trim_start`.
pub open spec fn trim_start(s: Seq<char>) -> Seq<char> {
    s.subrange(lead_from(s, 0), s.len() as int)
}

/// `str::trim_end`.
pub open spec fn trim_end(s: Seq<char>) -> Seq<char> {
    s.subrange(0, trail_to(s, 0, s.len() as int))
}

/// `str::trim`: leading and trailing whitespace removed.
pub open spec fn trim(s: Seq<char>) -> Seq<char> {
    s.subrange(lead_from(s, 0), trail_to(s, lead_from(s, 0), s.len() as int))
}

pub fn lead_exec(v: &[char], i: usize) -> (r: usize)
    requires
        i <= v@.len(),
    ensures
        r as int == lead_from(v@, i as int),
{
    let mut k = i;
    while k < v.len() && is_ws_exec(v[k])
        invariant
            i <= k <= v.len(),
            lead_from(v@, i as int) == lead_from(v@, k as int),
        decreases v.len() - k,
    {
        k += 1;
    }
    k
}

pub fn trail_exec(v: &[char], lo: usize, j: usize) -> (r: usize)
    requires
        lo <= j <= v@.len(),
    ensures
        r as int == trail_to(v@, lo as int, j as int),
{
    let mut k = j;
    while k > lo && is_ws_exec(v[k - 1])
        invariant
            lo <= k <= j <= v.len(),
            trail_to(v@, lo as int, j as int) == trail_to(v@, lo as int, k as int),
        decreases k - lo,
    {
        k -= 1;
    }
    k
}

pub fn trim_exec(v: &[char]) -> (r: Vec<char>)
    ensures
        r@ == trim(v@),
{
    let a = lead_exec(v, 0);
    proof {
        lemma_lead_bounds(v@, 0);
    }
    let b = trail_exec(v, a, v.len());
    proof {
        lemma_trail_bounds(v@, a as int, v@.len() as int);
    }
    slice_exec(v, a, b)
}

pub fn trim_start_exec(v: &[char]) -> (r: Vec<char>)
    ensures
        r@ == trim_start(v@),
{
    let a = lead_exec(v, 0);
    proof {
        lemma_lead_bounds(v@, 0);
    }
    slice_exec(v, a, v.len())
}

pub fn trim_end_exec(v: &[char]) -> (r: Vec<char>)
    ensures
        r@ == trim_end(v@),
{
    let b = trail_exec(v, 0, v.len());
    proof {
        lemma_trail_bounds(v@, 0, v@.len() as int);
    }
    slice_exec(v, 0, b)
}

/// Trimming twice trims no more than trimming once.
pub proof fn lemma_trim_idempotent(s: Seq<char>)
    ensures
        trim(trim(s)) == trim(s),
{
    let a = lead_from(s, 0);
    lemma_lead_bounds(s, 0);
    let b = trail_to(s, a, s.len() as int);
    lemma_trail_bounds(s, a, s.len() as int);
    let t = trim(s);
    assert(t == s.subrange(a, b));
    lemma_lead_bounds(t, 0);
    let a2 = lead_from(t, 0);
    if t.len() > 0 {
        assert(t[0] == s[a]);
        assert(!is_ws(t[0]));
        assert(a2 == 0) by {
            assert(!(0 <= 0 < t.len() && is_ws(t[0])));
        }
        lemma_trail_bounds(t, 0, t.len() as int);
        assert(t[t.len() - 1] == s[b - 1]);
        assert(trail_to(t, 0, t.len() as int) == t.len());
        assert(trim(t) =~= t);
    } else {
        assert(a2 == 0);
        lemma_trail_bounds(t, 0, 0);
        assert(trim(t) =~= t);
    }
}

/// End of the run of non-whitespace characters that starts at `i`.
pub open spec fn word_end(s: Seq<char>, i: int) -> int
    decreases s.len() - i,
{
    if 0 <= i < s.len() && !is_ws(s[i]) {
        word_end(s, i + 1)
    } else {
        i
    }
}

pub proof fn lemma_word_end_bounds(s: Seq<char>, i: int)
    requires
        0 <= i <= s.len(),
    ensures
        i <= word_end(s, i) <= s.len(),
        forall|k: int| i <= k < word_end(s, i) ==> !is_ws(#[trigger] s[k]),
        word_end(s, i) < s.len() ==> is_ws(s[word_end(s, i)]),
    decreases s.len() - i,
{
    if 0 <= i < s.len() && !is_ws(s[i]) {
        lemma_word_end_bounds(s, i + 1);
    }
}

/// The whitespace-separated words of `s[i..]` (`str::split_whitespace`).
pub open spec fn words_from(s: Seq<char>, i: int) -> Seq<Seq<char>>
    decreases s.len() - i,
{
    if i < 0 || i >= s.len() {
        Seq::empty()
    } else if is_ws(s[i]) {
        words_from(s, i + 1)
    } else {
        proof {
            lemma_word_end_bounds(s, i);
            assert(word_end(s, i) == word_end(s, i + 1));
            lemma_word_end_bounds(s, i + 1);
        }
        seq![s.subrange(i, word_end(s, i))] + words_from(s, word_end(s, i))
    }
}

pub open spec fn words(s: Seq<char>) -> Seq<Seq<char>> {
    words_from(s, 0)
}

pub fn words_exec(v: &[char]) -> (out: Vec<Vec<char>>)
    ensures
        views(out@) == words(v@),
{
    let mut out: Vec<Vec<char>> = Vec::new();
    let mut i: usize = 0;
    while i < v.len()
        invariant
            i <= v.len(),
            words(v@) == views(out@) + words_from(v@, i as int),
        decreases v.len() - i,
    {
        if is_ws_exec(v[i]) {
            i += 1;
        } else {
            let mut e = i;
            while e < v.len() && !is_ws_exec(v[e])
                invariant
                    i <= e <= v.len(),
                    word_end(v@, i as int) == word_end(v@, e as int),
                decreases v.len() - e,
            {
                e += 1;
            }
            proof {
                lemma_word_end_bounds(v@, i as int);
                assert(word_end(v@, i as int) == word_end(v@, i + 1));
                lemma_word_end_bounds(v@, i + 1);
            }
            let piece = slice_exec(v, i, e);
            let ghost before = out@;
            out.push(piece);
            proof {
                lemma_views_push(before, piece);
                assert(views(before) + (seq![piece@] + words_from(v@, e as int)) == (views(
                    before,
                ).push(piece@)) + words_from(v@, e as int));
            }
            i = e;
        }
    }
    proof {
        assert(views(out@) + Seq::<Seq<char>>::empty() == views(out@));
    }
    out
}

/// Last position `< j` holding `c`.
pub open spec fn rfind_char_below(s: Seq<char>, c: char, j: int) -> Option<int>
    decreases j,
{
    if j <= 0 || j > s.len() {
        None
    } else if s[j - 1] == c {
        Some(j - 1)
    } else {
        rfind_char_below(s, c, j - 1)
    }
}

/// Last position of `c` in `s` (`str::rfind` with a char).
pub open spec fn rfind_char(s: Seq<char>, c: char) -> Option<int> {
    rfind_char_below(s, c, s.len() as int)
}

pub proof fn lemma_rfind_bounds(s: Seq<char>, c: char, j: int)
    requires
        0 <= j <= s.len(),
    ensures
        rfind_char_below(s, c, j) matches Some(k) ==> 0 <= k < j && s[k] == c && forall|m: int|
            k < m < j ==> s[m] != c,
        rfind_char_below(s, c, j) is None ==> forall|m: int| 0 <= m < j ==> s[m] != c,
    decreases j,
{
    if j > 0 && s[j - 1] != c {
        lemma_rfind_bounds(s, c, j - 1);
    }
}

pub fn rfind_char_exec(v: &[char], c: char) -> (r: Option<usize>)
    ensures
        r matches Some(k) ==> rfind_char(v@, c) == Some(k as int),
        r is None ==> rfind_char(v@, c) is None,
{
    let mut j = v.len();
    while j > 0
        invariant
            j <= v.len(),
            rfind_char(v@, c) == rfind_char_below(v@, c, j as int),
        decreases j,
    {
        if v[j - 1] == c {
            return Some(j - 1);
        }
        j -= 1;
    }
    None
}

/// ASCII letter or digit.
pub open spec fn is_ascii_alnum(c: char) -> bool {
    ('0' <= c && c <= '9') || ('a' <= c && c <= 'z') || ('A' <= c && c <= 'Z')
}

pub open spec fn is_ascii_digit(c: char) -> bool {
    '0' <= c && c <= '9'
}

/// `char::to_ascii_lowercase`.
pub open spec fn ascii_lower(c: char) -> char {
    if 'A' <= c && c <= 'Z' {
        ((c as u32) + 32) as char
    } else {
        c
    }
}

/// `str::to_ascii_lowercase`.
pub open spec fn ascii_lower_seq(s: Seq<char>) -> Seq<char> {
    s.map_values(|c: char| ascii_lower(c))
}

pub fn ascii_lower_exec(c: char) -> (r: char)
    ensures
        r == ascii_lower(c),
{
    if 'A' <= c && c <= 'Z' {
        ((c as u8) + 32) as char
    } else {
        c
    }
}

pub fn ascii_lower_seq_exec(v: &[char]) -> (r: Vec<char>)
    ensures
        r@ == ascii_lower_seq(v@),
{
    let mut r: Vec<char> = Vec::new();
    let mut i: usize = 0;
    while i < v.len()
        invariant
            i <= v.len(),
            r@ == ascii_lower_seq(v@.take(i as int)),
        decreases v.len() - i,
    {
        r.push(ascii_lower_exec(v[i]));
        assert(ascii_lower_seq(v@.take(i + 1)) =~= ascii_lower_seq(v@.take(i as int)).push(
            ascii_lower(v@[i as int]),
        ));
        i += 1;
    }
    assert(v@.take(v.len() as int) == v@);
    r
}


/// Value of a digit in base `radix` (at most 36), as `char::to_digit`.
pub open spec fn digit_val(c: char, radix: nat) -> Option<nat> {
    let v: int = if '0' <= c && c <= '9' {
        (c as u32) - ('0' as u32)
    } else if 'a' <= c && c <= 'z' {
        (c as u32) - ('a' as u32) + 10
    } else if 'A' <= c && c <= 'Z' {
        (c as u32) - ('A' as u32) + 10
    } else {
        99
    };
    if v < radix {
        Some(v as nat)
    } else {
        None
    }
}

pub open spec fn all_digits(s: Seq<char>, radix: nat) -> bool {
    forall|i: int| 0 <= i < s.len() ==> #[trigger] digit_val(s[i], radix) is Some
}

/// Positional value of a digit string.
pub open spec fn digits_val(s: Seq<char>, radix: nat) -> nat
    decreases s.len(),
{
    if s.len() == 0 {
        0
    } else {
        digits_val(s.drop_last(), radix) * radix + digit_val(s.last(), radix).unwrap_or(0)
    }
}

/// An optional `+` followed by at least one digit, as `from_str_radix`
/// reads unsigned numbers; the value is unbounded here.
pub open spec fn parse_unsigned(s: Seq<char>, radix: nat) -> Option<nat> {
    let d = if s.len() > 0 && s[0] == '+' {
        s.drop_first()
    } else {
        s
    };
    if d.len() > 0 && all_digits(d, radix) {
        Some(digits_val(d, radix))
    } else {
        None
    }
}

/// `str::parse::<u32>()`.
pub open spec fn parse_u32(s: Seq<char>) -> Option<u32> {
    match parse_unsigned(s, 10) {
        Some(n) => if n <= u32::MAX {
            Some(n as u32)
        } else {
            None
        },
        None => None,
    }
}

/// `str::parse::<u16>()`.
pub open spec fn parse_u16(s: Seq<char>) -> Option<u16> {
    match parse_unsigned(s, 10) {
        Some(n) => if n <= u16::MAX {
            Some(n as u16)
        } else {
            None
        },
        None => None,
    }
}

/// `str::parse::<i32>()`: an optional sign followed by digits.
pub open spec fn parse_i32(s: Seq<char>) -> Option<i32> {
    if s.len() > 0 && s[0] == '-' {
        let d = s.drop_first();
        if d.len() > 0 && all_digits(d, 10) && digits_val(d, 10) <= 0x8000_0000 {
            Some((0 - digits_val(d, 10)) as i32)
        } else {
            None
        }
    } else {
        match parse_unsigned(s, 10) {
            Some(n) => if n <= i32::MAX {
                Some(n as i32)
            } else {
                None
            },
            None => None,
        }
    }
}

pub fn digit_val_exec(c: char, radix: u32) -> (r: Option<u32>)
    requires
        2 <= radix <= 36,
    ensures
        r matches Some(x) ==> digit_val(c, radix as nat) == Some(x as nat),
        r is None ==> digit_val(c, radix as nat) is None,
{
    let v: u32 = if '0' <= c && c <= '9' {
        (c as u32) - ('0' as u32)
    } else if 'a' <= c && c <= 'z' {
        (c as u32) - ('a' as u32) + 10
    } else if 'A' <= c && c <= 'Z' {
        (c as u32) - ('A' as u32) + 10
    } else {
        99
    };
    if v < radix {
        Some(v)
    } else {
        None
    }
}

proof fn lemma_digits_val_prefix_grows(s: Seq<char>, radix: nat, k: int)
    requires
        radix >= 1,
        0 <= k <= s.len(),
    ensures
        digits_val(s.take(k), radix) <= digits_val(s, radix),
    decreases s.len() - k,
{
    if k < s.len() {
        lemma_digits_val_prefix_grows(s, radix, k + 1);
        let t = s.take(k + 1);
        assert(t.drop_last() =~= s.take(k));
        let a = digits_val(s.take(k), radix);
        let d = digit_val(t.last(), radix).unwrap_or(0);
        assert(digits_val(t, radix) == a * radix + d);
        assert(a * radix >= a) by (nonlinear_arith)
            requires
                radix >= 1,
        ;
    } else {
        assert(s.take(k) =~= s);
    }
}

/// Exec: the value of `v[start..]` read as digits of base `radix`, when
/// all of them are digits, there is at least one, and the value is at most
/// `max`.
pub fn digits_upto_exec(v: &[char], start: usize, radix: u32, max: u64) -> (r: Option<u64>)
    requires
        2 <= radix <= 16,
        max <= 0x1_0000_0000,
        start <= v@.len(),
    ensures
        ({
            let d = v@.subrange(start as int, v@.len() as int);
            match r {
                Some(x) => d.len() > 0 && all_digits(d, radix as nat) && digits_val(d, radix as nat)
                    == x && x <= max,
                None => !(d.len() > 0 && all_digits(d, radix as nat) && digits_val(
                    d,
                    radix as nat,
                ) <= max),
            }
        }),
{
    let ghost d = v@.subrange(start as int, v@.len() as int);
    if start == v.len() {
        return None;
    }
    let mut acc: u64 = 0;
    let mut i = start;
    while i < v.len()
        invariant
            start <= i <= v.len(),
            d == v@.subrange(start as int, v@.len() as int),
            2 <= radix <= 16,
            max <= 0x1_0000_0000,
            acc <= max,
            all_digits(d.take(i - start), radix as nat),
            acc == digits_val(d.take(i - start), radix as nat),
        decreases v.len() - i,
    {
        let dv = digit_val_exec(v[i], radix);
        match dv {
            None => {
                assert(d[i - start] == v@[i as int]);
                return None;
            },
            Some(x) => {
                assert(acc * (radix as u64) <= 0x1_0000_0000 * 16) by (nonlinear_arith)
                    requires
                        acc <= 0x1_0000_0000,
                        radix <= 16,
                ;
                let next: u64 = acc * (radix as u64) + (x as u64);
                let ghost t = d.take(i + 1 - start);
                proof {
                    assert(t.drop_last() =~= d.take(i - start));
                    assert(t.last() == v@[i as int]);
                    assert(digits_val(t, radix as nat) == next);
                    assert(all_digits(t, radix as nat)) by {
                        assert forall|j: int| 0 <= j < t.len() implies #[trigger] digit_val(
                            t[j],
                            radix as nat,
                        ) is Some by {
                            if j < t.len() - 1 {
                                assert(t[j] == d.take(i - start)[j]);
                            }
                        }
                    }
                }
                if next > max {
                    proof {
                        lemma_digits_val_prefix_grows(d, radix as nat, i + 1 - start);
                    }
                    return None;
                }
                acc = next;
                i += 1;
            },
        }
    }
    assert(d.take(i - start) =~= d);
    Some(acc)
}

/// Exec: `parse_unsigned` bounded by `max`.
pub fn parse_unsigned_exec(v: &[char], radix: u32, max: u64) -> (r: Option<u64>)
    requires
        2 <= radix <= 16,
        max <= 0x1_0000_0000,
    ensures
        match r {
            Some(x) => parse_unsigned(v@, radix as nat) == Some(x as nat) && x <= max,
            None => match parse_unsigned(v@, radix as nat) {
                Some(n) => n > max,
                None => true,
            },
        },
{
    let start: usize = if v.len() > 0 && v[0] == '+' {
        1
    } else {
        0
    };
    assert(v@.subrange(start as int, v@.len() as int) == (if v@.len() > 0 && v@[0] == '+' {
        v@.drop_first()
    } else {
        v@
    }));
    digits_upto_exec(v, start, radix, max)
}

pub fn parse_u32_exec(v: &[char]) -> (r: Option<u32>)
    ensures
        r == parse_u32(v@),
{
    match parse_unsigned_exec(v, 10, 0xFFFF_FFFF) {
        Some(x) => Some(x as u32),
        None => None,
    }
}

pub fn parse_u16_exec(v: &[char]) -> (r: Option<u16>)
    ensures
        r == parse_u16(v@),
{
    match parse_unsigned_exec(v, 10, 0xFFFF) {
        Some(x) => Some(x as u16),
        None => None,
    }
}

pub fn parse_i32_exec(v: &[char]) -> (r: Option<i32>)
    ensures
        r == parse_i32(v@),
{
    if v.len() > 0 && v[0] == '-' {
        assert(v@.subrange(1, v@.len() as int) == v@.drop_first());
        match digits_upto_exec(v, 1, 10, 0x8000_0000) {
            Some(x) => {
                let neg: i64 = 0 - (x as i64);
                Some(neg as i32)
            },
            None => None,
        }
    } else {
        match parse_unsigned_exec(v, 10, 0x7FFF_FFFF) {
            Some(x) => Some(x as i32),
            None => None,
        }
    }
}


/// A Unicode scalar value: not a surrogate, at most `0x10FFFF`.
pub open spec fn is_scalar(code: u32) -> bool {
    code < 0xD800 || (0xE000 <= code && code <= 0x10FFFF)
}

/// `char::from_u32`: the character with code `code`, if `code` is a
/// Unicode scalar value.
#[verifier::external_body]
pub(crate) fn char_from_u32(code: u32) -> (r: Option<char>)
    ensures
        r is Some <==> is_scalar(code),
        r matches Some(c) ==> c as u32 == code,
{
    char::from_u32(code)
}

/// A character is the character of its code.
pub proof fn lemma_char_code(c: char, n: u32)
    requires
        c as u32 == n,
    ensures
        c == n as char,
{
}

/// Exec: append the characters of `src` to `out`.
pub fn push_all(out: &mut Vec<char>, src: &[char])
    ensures
        final(out)@ == old(out)@ + src@,
{
    let ghost start = out@;
    let mut k: usize = 0;
    while k < src.len()
        invariant
            k <= src.len(),
            out@ == start + src@.take(k as int),
        decreases src.len() - k,
    {
        out.push(src[k]);
        assert(src@.take(k + 1) == src@.take(k as int).push(src@[k as int]));
        k += 1;
    }
    assert(src@.take(src.len() as int) == src@);
}


/// Exec: `v` equals the characters of `lit`.
pub fn eq_str_exec(v: &[char], lit: &str) -> (r: bool)
    ensures
        r == (v@ == lit@),
{
    let l = chars_of(lit);
    if l.len() != v.len() {
        assert(v@.len() != lit@.len());
        return false;
    }
    let r = occurs_at_exec(v, 0, l.as_slice());
    assert(v@.subrange(0, l@.len() as int) =~= v@);
    r
}


/// Whether `regex`'s `\d` class (Unicode decimal digits, `\p{Nd}`) holds
/// `c`.
pub uninterp spec fn regex_digit(c: char) -> bool;

/// `regex::Regex::is_match` with the pattern `\A\d\z` on the one-character
/// string `c`. Claimed: the answer is the name `regex_digit(c)`; ASCII
/// `0`-`9` are in the class and no other ASCII character is, as the regex
/// documentation's definition of `\d` (`\p{Nd}`) implies.
#[verifier::external_body]
pub(crate) fn is_regex_digit(c: char) -> (r: bool)
    ensures
        r == regex_digit(c),
        is_ascii_digit(c) ==> r,
        (c as u32) < 0x80 && !is_ascii_digit(c) ==> !r,
{
    let mut buf = [0u8; 4];
    match regex::Regex::new(r"\A\d\z") {
        Ok(re) => re.is_match(c.encode_utf8(&mut buf)),
        Err(_) => false,
    }
}

/// On ASCII, the `\d` class holds exactly `0`-`9`.
pub open spec fn digits_are_regex_digits() -> bool {
    forall|c: char| (c as u32) < 0x80 ==> (#[trigger] regex_digit(c) == is_ascii_digit(c))
}

/// Asks the digit class about every ASCII character: afterwards it is known
/// to hold exactly `0`-`9` among them.
pub fn ascii_digit_class()
    ensures
        digits_are_regex_digits(),
{
    let mut k: u8 = 0;
    while k < 0x80
        invariant
            k <= 0x80,
            forall|c: char| (c as u32) < k ==> (#[trigger] regex_digit(c) == is_ascii_digit(c)),
        decreases 0x80 - k,
    {
        let c = k as char;
        assert(c as u32 == k as u32);
        let _ = is_regex_digit(c);
        assert forall|d: char| (d as u32) < k + 1 implies (#[trigger] regex_digit(d) == is_ascii_digit(d)) by {
            if d as u32 == k as u32 {
                lemma_char_code(d, k as u32);
                lemma_char_code(c, k as u32);
            }
        }
        k += 1;
    }
}

/// End of the run of `\d` characters that starts at `i`.
pub open spec fn digit_run_end(s: Seq<char>, i: int) -> int
    decreases s.len() - i,
{
    if 0 <= i < s.len() && regex_digit(s[i]) {
        digit_run_end(s, i + 1)
    } else {
        i
    }
}

pub proof fn lemma_digit_run_bounds(s: Seq<char>, i: int)
    requires
        0 <= i <= s.len(),
    ensures
        i <= digit_run_end(s, i) <= s.len(),
        forall|k: int| i <= k < digit_run_end(s, i) ==> regex_digit(#[trigger] s[k]),
        digit_run_end(s, i) < s.len() ==> !regex_digit(s[digit_run_end(s, i)]),
    decreases s.len() - i,
{
    if 0 <= i < s.len() && regex_digit(s[i]) {
        lemma_digit_run_bounds(s, i + 1);
    }
}

pub fn digit_run_end_exec(v: &[char], i: usize) -> (r: usize)
    requires
        i <= v@.len(),
    ensures
        r as int == digit_run_end(v@, i as int),
{
    let mut k = i;
    while k < v.len() && is_regex_digit(v[k])
        invariant
            i <= k <= v.len(),
            digit_run_end(v@, i as int) == digit_run_end(v@, k as int),
        decreases v.len() - k,
    {
        k += 1;
    }
    k
}

/// Start of the run of `\d` characters that ends at `hi` (not below `lo`).
pub open spec fn digit_suffix_start(s: Seq<char>, lo: int, hi: int) -> int
    decreases hi - lo,
{
    if lo < hi && hi <= s.len() && regex_digit(s[hi - 1]) {
        digit_suffix_start(s, lo, hi - 1)
    } else {
        hi
    }
}

pub proof fn lemma_digit_suffix_bounds(s: Seq<char>, lo: int, hi: int)
    requires
        0 <= lo <= hi <= s.len(),
    ensures
        lo <= digit_suffix_start(s, lo, hi) <= hi,
        forall|k: int| digit_suffix_start(s, lo, hi) <= k < hi ==> regex_digit(#[trigger] s[k]),
        digit_suffix_start(s, lo, hi) > lo ==> !regex_digit(s[digit_suffix_start(s, lo, hi) - 1]),
    decreases hi - lo,
{
    if lo < hi && hi <= s.len() && regex_digit(s[hi - 1]) {
        lemma_digit_suffix_bounds(s, lo, hi - 1);
    }
}

pub fn digit_suffix_start_exec(v: &[char], lo: usize, hi: usize) -> (r: usize)
    requires
        lo <= hi <= v@.len(),
    ensures
        r as int == digit_suffix_start(v@, lo as int, hi as int),
{
    let mut k = hi;
    while k > lo && is_regex_digit(v[k - 1])
        invariant
            lo <= k <= hi <= v.len(),
            digit_suffix_start(v@, lo as int, hi as int) == digit_suffix_start(
                v@,
                lo as int,
                k as int,
            ),
        decreases k - lo,
    {
        k -= 1;
    }
    k
}

/// `s[lo..hi]` holds no `c`.
pub open spec fn none_of(s: Seq<char>, c: char, lo: int, hi: int) -> bool {
    forall|k: int| lo <= k < hi ==> #[trigger] s[k] != c
}

pub fn none_of_exec(v: &[char], c: char, lo: usize, hi: usize) -> (r: bool)
    requires
        lo <= hi <= v@.len(),
    ensures
        r == none_of(v@, c, lo as int, hi as int),
{
    let mut k = lo;
    while k < hi
        invariant
            lo <= k <= hi <= v@.len(),
            none_of(v@, c, lo as int, k as int),
        decreases hi - k,
    {
        if v[k] == c {
            return false;
        }
        k += 1;
    }
    true
}

/// Length of the scheme prefix `http://` (7) or `https://` (8).
pub open spec fn scheme_end(u: Seq<char>) -> Option<int> {
    if occurs_at(u, 0, "http://"@) {
        Some(7)
    } else if occurs_at(u, 0, "https://"@) {
        Some(8)
    } else {
        None
    }
}

pub fn scheme_end_exec(v: &[char]) -> (r: Option<usize>)
    ensures
        r matches Some(k) ==> scheme_end(v@) == Some(k as int),
        r is None ==> scheme_end(v@) is None,
{
    proof {
        reveal_strlit("http://");
        reveal_strlit("https://");
    }
    let a = chars_of("http://");
    if occurs_at_exec(v, 0, a.as_slice()) {
        return Some(7);
    }
    let b = chars_of("https://");
    if occurs_at_exec(v, 0, b.as_slice()) {
        return Some(8);
    }
    None
}

/// Exec: does the literal `lit` occur at `i`?
pub fn occurs_lit_exec(v: &[char], i: usize, lit: &str) -> (r: bool)
    ensures
        r == occurs_at(v@, i as int, lit@),
{
    let l = chars_of(lit);
    occurs_at_exec(v, i, l.as_slice())
}


/// Exec: append the characters of `s` to `out`.
pub fn push_str(out: &mut Vec<char>, s: &str)
    ensures
        final(out)@ == old(out)@ + s@,
{
    let v = chars_of(s);
    push_all(out, v.as_slice());
}



/// The decimal digits of `n`, most significant first, without leading
/// zeros (`"0"` for zero), as `Display` writes an unsigned integer.
pub open spec fn decimal(n: nat) -> Seq<char>
    decreases n,
{
    if n < 10 {
        seq![((n + 48) as u32) as char]
    } else {
        decimal(n / 10).push((((n % 10) + 48) as u32) as char)
    }
}

/// Exec: the decimal digits of `n`.
pub fn decimal_exec(n: u64) -> (r: Vec<char>)
    ensures
        r@ == decimal(n as nat),
    decreases n,
{
    if n < 10 {
        let c = ((n as u8) + 48) as char;
        vec![c]
    } else {
        let mut v = decimal_exec(n / 10);
        let c = (((n % 10) as u8) + 48) as char;
        v.push(c);
        v
    }
}

/// The decimal digits of `n` read back give `n`.
pub proof fn lemma_decimal_digits(n: nat)
    ensures
        decimal(n).len() > 0,
        all_digits(decimal(n), 10),
        forall|k: int| 0 <= k < decimal(n).len() ==> is_ascii_digit(#[trigger] decimal(n)[k]),
        digits_val(decimal(n), 10) == n,
        parse_unsigned(decimal(n), 10) == Some(n),
    decreases n,
{
    if n < 10 {
        let d = decimal(n);
        assert(d.drop_last() =~= Seq::<char>::empty());
        assert(digit_val(d[0], 10) == Some(n));
        assert(d.last() == d[0]);
        assert(digits_val(d.drop_last(), 10) == 0);
        assert(digits_val(d, 10) == n);
    } else {
        lemma_decimal_digits(n / 10);
        let d = decimal(n);
        let c = (((n % 10) + 48) as u32) as char;
        assert(d.drop_last() =~= decimal(n / 10));
        assert(digit_val(c, 10) == Some(n % 10));
        assert forall|k: int| 0 <= k < d.len() implies #[trigger] digit_val(d[k], 10) is Some by {
            if k < d.len() - 1 {
                assert(d[k] == decimal(n / 10)[k]);
            }
        }
        assert forall|k: int| 0 <= k < d.len() implies is_ascii_digit(#[trigger] d[k]) by {
            if k < d.len() - 1 {
                assert(d[k] == decimal(n / 10)[k]);
            }
        }
        assert(d.last() == c);
        assert(digits_val(d, 10) == digits_val(decimal(n / 10), 10) * 10 + (n % 10));
        assert((n / 10) * 10 + n % 10 == n);
    }
    let d = decimal(n);
    assert(d[0] != '+') by {
        assert(is_ascii_digit(d[0]));
    }
}


/// The characters held by an optional vector.
pub open spec fn opt_chars(o: Option<Vec<char>>) -> Option<Seq<char>> {
    match o {
        Some(v) => Some(v@),
        None => None,
    }
}

pub fn is_ascii_alnum_exec(c: char) -> (r: bool)
    ensures
        r == is_ascii_alnum(c),
{
    ('0' <= c && c <= '9') || ('a' <= c && c <= 'z') || ('A' <= c && c <= 'Z')
}


/// What `str::to_lowercase` gives for `s` (full Unicode lower-casing).
pub uninterp spec fn lowercase(s: Seq<char>) -> Seq<char>;

/// `str::to_lowercase`. Claimed: the result is the name `lowercase` of the
/// argument (std's lower-casing depends on the text alone).
#[verifier::external_body]
pub(crate) fn to_lowercase(s: &str) -> (r: String)
    ensures
        r@ == lowercase(s@),
{
    s.to_lowercase()
}

/// `find_from` gives the first occurrence at or after `i`.
pub proof fn lemma_find_first(s: Seq<char>, p: Seq<char>, i: int, k: int)
    requires
        0 <= i <= k,
        k + p.len() <= s.len(),
        occurs_at(s, k, p),
        forall|j: int| i <= j < k ==> !#[trigger] occurs_at(s, j, p),
    ensures
        find_from(s, p, i) == Some(k),
    decreases k - i,
{
    if i < k {
        assert(!occurs_at(s, i, p));
        lemma_find_first(s, p, i + 1, k);
    }
}

/// In `s`, the field `x` at `i` followed by `<>`: the next `<>` from `i`
/// is the one right after `x` when `x` holds no `<>` itself.
pub proof fn lemma_next_field(s: Seq<char>, i: int, x: Seq<char>)
    requires
        0 <= i,
        i + x.len() + 2 <= s.len(),
        s.subrange(i, i + x.len()) == x,
        s[i + x.len()] == '<',
        s[i + x.len() + 1] == '>',
        !contains(x, "<>"@),
    ensures
        find_from(s, "<>"@, i) == Some(i + x.len()),
{
    reveal_strlit("<>");
    let e = i + x.len();
    lemma_find_from_bounds(x, "<>"@, 0);
    assert(s.subrange(e, e + 2) =~= "<>"@);
    assert forall|j: int| i <= j < e implies !#[trigger] occurs_at(s, j, "<>"@) by {
        if occurs_at(s, j, "<>"@) {
            assert(s.subrange(j, j + 2)[0] == s[j] && s.subrange(j, j + 2)[1] == s[j + 1]);
            if j + 1 < e {
                assert(s[j] == x[j - i] && s[j + 1] == x[j + 1 - i]);
                assert(x.subrange(j - i, j - i + 2) =~= "<>"@);
                assert(occurs_at(x, j - i, "<>"@));
            } else {
                assert(s[j + 1] == '<');
            }
        }
    }
    lemma_find_first(s, "<>"@, i, e);
}

} // verus!
