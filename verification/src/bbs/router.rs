//! Which board family (and so which client) a URL belongs to.

use vstd::prelude::*;
use crate::bbs::types::BoardKind;
use crate::text::{
    chars_of, digit_suffix_start, digit_suffix_start_exec, find_from, find_from_exec,
    lemma_digit_suffix_bounds, lemma_find_from_bounds, none_of, none_of_exec, occurs_at,
    occurs_lit_exec, regex_digit, scheme_end, scheme_end_exec,
};

verus! {

/// The scheme end and the position of the `/` that ends a non-empty host
/// (`^https?://[^/]+/`).
pub open spec fn host_end(u: Seq<char>) -> Option<(int, int)> {
    match scheme_end(u) {
        Some(a) => match find_from(u, seq!['/'], a) {
            Some(h) => if h > a {
                Some((a, h))
            } else {
                None
            },
            None => None,
        },
        None => None,
    }
}

pub fn host_end_exec(v: &[char]) -> (r: Option<(usize, usize)>)
    ensures
        r matches Some((a, h)) ==> host_end(v@) == Some((a as int, h as int)) && a < h < v@.len(),
        r is None ==> host_end(v@) is None,
{
    match scheme_end_exec(v) {
        None => None,
        Some(a) => {
            let slash: [char; 1] = ['/'];
            assert(slash@ == seq!['/']);
            proof {
                reveal_strlit("http://");
                reveal_strlit("https://");
                lemma_find_from_bounds(v@, seq!['/'], a as int);
            }
            match find_from_exec(v, &slash, a) {
                Some(h) => if h > a {
                    Some((a, h))
                } else {
                    None
                },
                None => None,
            }
        },
    }
}

/// `^https?://(?:[^.]+\.)?jbbs\.shitaraba\.net/`: the shitaraba host,
/// possibly behind one dot-free label.
pub open spec fn is_shitaraba_like(u: Seq<char>) -> bool {
    match scheme_end(u) {
        None => false,
        Some(a) => occurs_at(u, a, "jbbs.shitaraba.net/"@) || match find_from(u, seq!['.'], a) {
            Some(k) => k > a && occurs_at(u, k + 1, "jbbs.shitaraba.net/"@),
            None => false,
        },
    }
}

/// The path `u[p..]` is `test/read.cgi/{board}/{digits}[/]` (the board has
/// no newline).
pub open spec fn read_shape(u: Seq<char>, p: int) -> bool {
    occurs_at(u, p, "test/read.cgi/"@) && {
        let r0 = p + "test/read.cgi/"@.len();
        let re = if u.len() > r0 && u.last() == '/' {
            u.len() - 1
        } else {
            u.len() as int
        };
        let ds = digit_suffix_start(u, r0, re);
        ds < re && ds - 1 > r0 && u[ds - 1] == '/' && none_of(u, '\n', r0, ds - 1)
    }
}

/// The path `u[p..]` is `{board}/dat/{digits}.dat[/]`.
pub open spec fn dat_shape(u: Seq<char>, p: int) -> bool {
    let pe = if u.len() > p && u.last() == '/' {
        u.len() - 1
    } else {
        u.len() as int
    };
    pe >= p + 4 && occurs_at(u, pe - 4, ".dat"@) && {
        let ds = digit_suffix_start(u, p, pe - 4);
        ds < pe - 4 && ds - 5 > p && occurs_at(u, ds - 5, "/dat/"@) && none_of(u, '\n', p, ds - 5)
    }
}

/// The path `u[p..]` is one non-empty segment, maybe with a final `/`.
pub open spec fn segment_shape(u: Seq<char>, p: int) -> bool {
    let pe = if u.len() > p && u.last() == '/' {
        u.len() - 1
    } else {
        u.len() as int
    };
    pe > p && none_of(u, '/', p, pe)
}

/// The path `u[p..]` is non-empty text without newline, ending in `/`.
pub open spec fn dir_shape(u: Seq<char>, p: int) -> bool {
    u.len() >= p + 2 && u.last() == '/' && none_of(u, '\n', p, u.len() - 1)
}

/// A 2ch-compatible URL: a thread (`/test/read.cgi/{board}/{key}/`), a dat
/// (`/{board}/dat/{key}.dat`), or a board top (one segment, or any path
/// ending in `/`).
pub open spec fn is_ch2_like(u: Seq<char>) -> bool {
    match host_end(u) {
        None => false,
        Some((a, h)) => {
            let p = h + 1;
            read_shape(u, p) || dat_shape(u, p) || segment_shape(u, p) || dir_shape(u, p)
        },
    }
}

/// The board family of a URL: shitaraba first, then 2ch-compatible.
pub open spec fn board_kind(u: Seq<char>) -> Option<BoardKind> {
    if is_shitaraba_like(u) {
        Some(BoardKind::Shitaraba)
    } else if is_ch2_like(u) {
        Some(BoardKind::Ch2Compat)
    } else {
        None
    }
}

fn is_shitaraba_like_exec(v: &[char]) -> (r: bool)
    ensures
        r == is_shitaraba_like(v@),
{
    match scheme_end_exec(v) {
        None => false,
        Some(a) => {
            if occurs_lit_exec(v, a, "jbbs.shitaraba.net/") {
                return true;
            }
            let dot: [char; 1] = ['.'];
            assert(dot@ == seq!['.']);
            proof {
                reveal_strlit("http://");
                reveal_strlit("https://");
                lemma_find_from_bounds(v@, seq!['.'], a as int);
            }
            match find_from_exec(v, &dot, a) {
                Some(k) => {
                    assert(find_from(v@, seq!['.'], a as int) == Some(k as int));
                    assert(k < v@.len() && v@.len() == v.len());
                    k > a && occurs_lit_exec(v, k + 1, "jbbs.shitaraba.net/")
                },
                None => false,
            }
        },
    }
}

fn read_shape_exec(v: &[char], p: usize) -> (r: bool)
    requires
        p <= v@.len(),
    ensures
        r == read_shape(v@, p as int),
{
    proof {
        reveal_strlit("test/read.cgi/");
    }
    if !occurs_lit_exec(v, p, "test/read.cgi/") {
        return false;
    }
    assert(v@.len() == v.len());
    let r0 = p + 14;
    let re = if v.len() > r0 && v[v.len() - 1] == '/' {
        v.len() - 1
    } else {
        v.len()
    };
    let ds = digit_suffix_start_exec(v, r0, re);
    proof {
        lemma_digit_suffix_bounds(v@, r0 as int, re as int);
    }
    ds < re && ds >= 1 && ds - 1 > r0 && v[ds - 1] == '/' && none_of_exec(v, '\n', r0, ds - 1)
}

fn dat_shape_exec(v: &[char], p: usize) -> (r: bool)
    requires
        p <= v@.len(),
    ensures
        r == dat_shape(v@, p as int),
{
    proof {
        reveal_strlit(".dat");
        reveal_strlit("/dat/");
    }
    let pe = if v.len() > p && v[v.len() - 1] == '/' {
        v.len() - 1
    } else {
        v.len()
    };
    if !(pe >= p && pe - p >= 4 && occurs_lit_exec(v, pe - 4, ".dat")) {
        return false;
    }
    let ds = digit_suffix_start_exec(v, p, pe - 4);
    proof {
        lemma_digit_suffix_bounds(v@, p as int, pe - 4);
    }
    ds < pe - 4 && ds >= 5 && ds - 5 > p && occurs_lit_exec(v, ds - 5, "/dat/") && none_of_exec(
        v,
        '\n',
        p,
        ds - 5,
    )
}

fn segment_shape_exec(v: &[char], p: usize) -> (r: bool)
    requires
        p <= v@.len(),
    ensures
        r == segment_shape(v@, p as int),
{
    let pe = if v.len() > p && v[v.len() - 1] == '/' {
        v.len() - 1
    } else {
        v.len()
    };
    pe > p && none_of_exec(v, '/', p, pe)
}

fn dir_shape_exec(v: &[char], p: usize) -> (r: bool)
    requires
        p <= v@.len(),
    ensures
        r == dir_shape(v@, p as int),
{
    v.len() - p >= 2 && v[v.len() - 1] == '/' && none_of_exec(v, '\n', p, v.len() - 1)
}

/// Exec form of [`board_kind`] on characters.
pub fn classify_chars(v: &[char]) -> (r: Option<BoardKind>)
    ensures
        r == board_kind(v@),
{
    if is_shitaraba_like_exec(v) {
        return Some(BoardKind::Shitaraba);
    }
    match host_end_exec(v) {
        None => None,
        Some((a, h)) => {
            assert(v@.len() == v.len());
            let p = h + 1;
            if read_shape_exec(v, p) || dat_shape_exec(v, p) || segment_shape_exec(v, p)
                || dir_shape_exec(v, p) {
                Some(BoardKind::Ch2Compat)
            } else {
                None
            }
        },
    }
}

/// Which board family serves `url`: shitaraba (`jbbs.shitaraba.net`, maybe
/// behind one label) first, then any 2ch-compatible thread, dat or board
/// URL; `None` for anything else.
pub fn classify(url: &str) -> (r: Option<BoardKind>)
    ensures
        r == board_kind(url@),
{
    let v = chars_of(url);
    classify_chars(v.as_slice())
}

} // verus!
