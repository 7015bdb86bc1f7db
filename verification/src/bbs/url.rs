//! The URL shapes of the supported boards, reduced to the canonical
//! `(category|host, board, key?)` tuple, and the canonical board / thread
//! URLs built from them.

use vstd::prelude::*;
use crate::bbs::router::{board_kind, classify_chars, host_end, host_end_exec};
use crate::bbs::types::BoardKind;
use crate::text::{
    chars_of, digit_run_end, digit_run_end_exec, digits_are_regex_digits, find_from, find_from_exec,
    is_ascii_digit, is_regex_digit, lemma_digit_run_bounds, lemma_find_from_bounds, none_of,
    none_of_exec, occurs_at, occurs_lit_exec, push_all, push_str, regex_digit, scheme_end, scheme_end_exec,
    slice_exec, string_of,
};
use crate::util::errors::{AppError, AppResult};

verus! {

/// A shitaraba URL reduced to its parts.
#[derive(Debug, Clone, PartialEq, Eq)]
pub struct ShitarabaUrl {
    pub category: String,
    pub board_id: String,
    pub key: Option<String>,
}

/// A 2ch-compatible URL reduced to its parts. The scheme is kept: some
/// compatible boards speak http only.
#[derive(Debug, Clone, PartialEq, Eq)]
pub struct Ch2Url {
    pub scheme: String,
    pub host: String,
    pub board: String,
    pub key: Option<String>,
}

pub struct ShitarabaUrlV {
    pub category: Seq<char>,
    pub board_id: Seq<char>,
    pub key: Option<Seq<char>>,
}

pub struct Ch2UrlV {
    pub scheme: Seq<char>,
    pub host: Seq<char>,
    pub board: Seq<char>,
    pub key: Option<Seq<char>>,
}

pub open spec fn opt_view(o: Option<String>) -> Option<Seq<char>> {
    match o {
        Some(s) => Some(s@),
        None => None,
    }
}

impl View for ShitarabaUrl {
    type V = ShitarabaUrlV;

    open spec fn view(&self) -> ShitarabaUrlV {
        ShitarabaUrlV {
            category: self.category@,
            board_id: self.board_id@,
            key: opt_view(self.key),
        }
    }
}

impl View for Ch2Url {
    type V = Ch2UrlV;

    open spec fn view(&self) -> Ch2UrlV {
        Ch2UrlV {
            scheme: self.scheme@,
            host: self.host@,
            board: self.board@,
            key: opt_view(self.key),
        }
    }
}

/// Position of the first `c` at or after `i`, or the end.
pub open spec fn first_or_end(u: Seq<char>, c: char, i: int) -> int {
    match find_from(u, seq![c], i) {
        Some(k) => k,
        None => u.len() as int,
    }
}

/// `([^/]+)/([^/]+)(?:/(\d+))?` at `i`: the end of the category, the end of
/// the board, and the end of the key when a key follows.
pub open spec fn cat_board_key_at(u: Seq<char>, i: int) -> Option<(int, int, Option<int>)> {
    match find_from(u, seq!['/'], i) {
        Some(p1) => if p1 > i {
            let p2 = first_or_end(u, '/', p1 + 1);
            if p2 > p1 + 1 {
                let key = if p2 + 1 < u.len() && regex_digit(u[p2 + 1]) {
                    Some(digit_run_end(u, p2 + 1))
                } else {
                    None
                };
                Some((p1, p2, key))
            } else {
                None
            }
        } else {
            None
        },
        None => None,
    }
}

/// Where the category starts: after the host, and after a
/// `bbs/read.cgi/`, `bbs/rawmode.cgi/` or `bbs/write.cgi/` prefix when the
/// rest still has a category and a board.
pub open spec fn shitaraba_start(u: Seq<char>, b: int) -> int {
    let g: Option<int> = if occurs_at(u, b, "bbs/read.cgi/"@) {
        Some(b + "bbs/read.cgi/"@.len())
    } else if occurs_at(u, b, "bbs/rawmode.cgi/"@) {
        Some(b + "bbs/rawmode.cgi/"@.len())
    } else if occurs_at(u, b, "bbs/write.cgi/"@) {
        Some(b + "bbs/write.cgi/"@.len())
    } else {
        None
    };
    match g {
        Some(j) => if cat_board_key_at(u, j) is Some {
            j
        } else {
            b
        },
        None => b,
    }
}

/// `^https?://jbbs\.shitaraba\.net/(?:bbs/(?:read|rawmode|write)\.cgi/)?
/// (?P<cat>[^/]+)/(?P<board>[^/]+)(?:/(?P<key>\d+))?/?`
pub open spec fn shitaraba_parts(u: Seq<char>) -> Option<ShitarabaUrlV> {
    match scheme_end(u) {
        None => None,
        Some(a) => if !occurs_at(u, a, "jbbs.shitaraba.net/"@) {
            None
        } else {
            let start = shitaraba_start(u, a + "jbbs.shitaraba.net/"@.len());
            match cat_board_key_at(u, start) {
                Some((p1, p2, k)) => Some(
                    ShitarabaUrlV {
                        category: u.subrange(start, p1),
                        board_id: u.subrange(p1 + 1, p2),
                        key: match k {
                            Some(ke) => Some(u.subrange(p2 + 1, ke)),
                            None => None,
                        },
                    },
                ),
                None => None,
            }
        },
    }
}

/// Largest `e` with `lo < e < j` where a `/` followed by a `\d` sits.
pub open spec fn last_slash_digit(u: Seq<char>, lo: int, j: int) -> Option<int>
    decreases j - lo,
{
    if j - 1 <= lo {
        None
    } else if 0 <= j - 1 && j < u.len() && u[j - 1] == '/' && regex_digit(u[j]) {
        Some(j - 1)
    } else {
        last_slash_digit(u, lo, j - 1)
    }
}

/// `/dat/{\d+}.dat` at `e`.
pub open spec fn dat_at(u: Seq<char>, e: int) -> bool {
    occurs_at(u, e, "/dat/"@) && digit_run_end(u, e + 5) > e + 5 && occurs_at(
        u,
        digit_run_end(u, e + 5),
        ".dat"@,
    )
}

/// Smallest `e` with `j <= e <= hi` where [`dat_at`] holds.
pub open spec fn first_dat_from(u: Seq<char>, j: int, hi: int) -> Option<int>
    decreases hi + 1 - j,
{
    if j > hi {
        None
    } else if dat_at(u, j) {
        Some(j)
    } else {
        first_dat_from(u, j + 1, hi)
    }
}

/// `^(https?)://([^/]+)/test/read\.cgi/(.+)/(\d+)/?`
pub open spec fn ch2_read_parts(u: Seq<char>) -> Option<Ch2UrlV> {
    match host_end(u) {
        None => None,
        Some((a, h)) => if !occurs_at(u, h, "/test/read.cgi/"@) {
            None
        } else {
            let t = h + "/test/read.cgi/"@.len();
            let nl = first_or_end(u, '\n', t);
            match last_slash_digit(u, t, nl) {
                Some(e) => Some(
                    Ch2UrlV {
                        scheme: u.subrange(0, a - 3),
                        host: u.subrange(a, h),
                        board: u.subrange(t, e),
                        key: Some(u.subrange(e + 1, digit_run_end(u, e + 1))),
                    },
                ),
                None => None,
            }
        },
    }
}

/// `^(https?)://([^/]+)/(.+?)/dat/(\d+)\.dat`
pub open spec fn ch2_dat_parts(u: Seq<char>) -> Option<Ch2UrlV> {
    match host_end(u) {
        None => None,
        Some((a, h)) => {
            let t = h + 1;
            let nl = first_or_end(u, '\n', t);
            match first_dat_from(u, t + 1, nl) {
                Some(e) => Some(
                    Ch2UrlV {
                        scheme: u.subrange(0, a - 3),
                        host: u.subrange(a, h),
                        board: u.subrange(t, e),
                        key: Some(u.subrange(e + 5, digit_run_end(u, e + 5))),
                    },
                ),
                None => None,
            }
        },
    }
}

/// `^(https?)://([^/]+)/(.+?)/?$`
pub open spec fn ch2_board_parts(u: Seq<char>) -> Option<Ch2UrlV> {
    match host_end(u) {
        None => None,
        Some((a, h)) => {
            let t = h + 1;
            let e = if u.len() >= t + 2 && u.last() == '/' {
                u.len() - 1
            } else {
                u.len() as int
            };
            if e >= t + 1 && none_of(u, '\n', t, e) {
                Some(
                    Ch2UrlV {
                        scheme: u.subrange(0, a - 3),
                        host: u.subrange(a, h),
                        board: u.subrange(t, e),
                        key: None,
                    },
                )
            } else {
                None
            }
        },
    }
}

/// A thread URL first, then a dat URL, then a board URL.
pub open spec fn ch2_parts(u: Seq<char>) -> Option<Ch2UrlV> {
    if ch2_read_parts(u) is Some {
        ch2_read_parts(u)
    } else if ch2_dat_parts(u) is Some {
        ch2_dat_parts(u)
    } else {
        ch2_board_parts(u)
    }
}

fn first_or_end_exec(v: &[char], c: char, i: usize) -> (r: usize)
    requires
        i <= v@.len(),
    ensures
        r as int == first_or_end(v@, c, i as int),
        i <= r <= v@.len(),
{
    let pat: [char; 1] = [c];
    assert(pat@ == seq![c]);
    proof {
        lemma_find_from_bounds(v@, seq![c], i as int);
    }
    match find_from_exec(v, &pat, i) {
        Some(k) => k,
        None => v.len(),
    }
}

fn cat_board_key_exec(v: &[char], i: usize) -> (r: Option<(usize, usize, Option<usize>)>)
    requires
        i <= v@.len(),
    ensures
        match r {
            Some((p1, p2, k)) => cat_board_key_at(v@, i as int) == Some(
                (
                    p1 as int,
                    p2 as int,
                    match k {
                        Some(x) => Some(x as int),
                        None => None,
                    },
                ),
            ) && i < p1 < p2 <= v@.len() && match k {
                Some(x) => p2 + 1 < x <= v@.len(),
                None => true,
            },
            None => cat_board_key_at(v@, i as int) is None,
        },
{
    let slash: [char; 1] = ['/'];
    assert(slash@ == seq!['/']);
    proof {
        lemma_find_from_bounds(v@, seq!['/'], i as int);
    }
    match find_from_exec(v, &slash, i) {
        Some(p1) => {
            if p1 <= i {
                return None;
            }
            assert(find_from(v@, seq!['/'], i as int) == Some(p1 as int));
            assert(p1 < v@.len() && v@.len() == v.len());
            let p2 = first_or_end_exec(v, '/', p1 + 1);
            if p2 <= p1 + 1 {
                return None;
            }
            let key = if p2 < v.len() && v.len() - p2 > 1 && is_regex_digit(v[p2 + 1]) {
                let e = digit_run_end_exec(v, p2 + 1);
                proof {
                    lemma_digit_run_bounds(v@, p2 + 1);
                }
                Some(e)
            } else {
                None
            };
            Some((p1, p2, key))
        },
        None => None,
    }
}

/// Parse a shitaraba URL (board top, `read.cgi`, `rawmode.cgi` or
/// `write.cgi`; anything after the key, such as `/l30`, is ignored).
pub fn parse_shitaraba(url: &str) -> (r: Option<ShitarabaUrl>)
    ensures
        match r {
            Some(x) => shitaraba_parts(url@) == Some(x@),
            None => shitaraba_parts(url@) is None,
        },
{
    let v = chars_of(url);
    parse_shitaraba_chars(v.as_slice())
}

fn parse_shitaraba_chars(v: &[char]) -> (r: Option<ShitarabaUrl>)
    ensures
        match r {
            Some(x) => shitaraba_parts(v@) == Some(x@),
            None => shitaraba_parts(v@) is None,
        },
{
    proof {
        reveal_strlit("jbbs.shitaraba.net/");
        reveal_strlit("bbs/read.cgi/");
        reveal_strlit("bbs/rawmode.cgi/");
        reveal_strlit("bbs/write.cgi/");
        reveal_strlit("http://");
        reveal_strlit("https://");
    }
    let a = match scheme_end_exec(v) {
        None => return None,
        Some(a) => a,
    };
    if !occurs_lit_exec(v, a, "jbbs.shitaraba.net/") {
        return None;
    }
    assert(v@.len() == v.len());
    let b = a + 19;
    let g: Option<usize> = if occurs_lit_exec(v, b, "bbs/read.cgi/") {
        Some(b + 13)
    } else if occurs_lit_exec(v, b, "bbs/rawmode.cgi/") {
        Some(b + 16)
    } else if occurs_lit_exec(v, b, "bbs/write.cgi/") {
        Some(b + 14)
    } else {
        None
    };
    let start = match g {
        Some(j) => if cat_board_key_exec(v, j).is_some() {
            j
        } else {
            b
        },
        None => b,
    };
    assert(start as int == shitaraba_start(v@, b as int));
    match cat_board_key_exec(v, start) {
        Some((p1, p2, k)) => {
            let key = match k {
                Some(ke) => Some(string_of(slice_exec(v, p2 + 1, ke).as_slice())),
                None => None,
            };
            Some(
                ShitarabaUrl {
                    category: string_of(slice_exec(v, start, p1).as_slice()),
                    board_id: string_of(slice_exec(v, p1 + 1, p2).as_slice()),
                    key,
                },
            )
        },
        None => None,
    }
}

fn ch2_url_of(v: &[char], a: usize, h: usize, t: usize, e: usize, key: Option<(usize, usize)>) -> (r: Ch2Url)
    requires
        3 <= a <= h <= t <= e <= v@.len(),
        key matches Some((k0, k1)) ==> k0 <= k1 <= v@.len(),
    ensures
        r@ == (Ch2UrlV {
            scheme: v@.subrange(0, a - 3),
            host: v@.subrange(a as int, h as int),
            board: v@.subrange(t as int, e as int),
            key: match key {
                Some((k0, k1)) => Some(v@.subrange(k0 as int, k1 as int)),
                None => None,
            },
        }),
{
    let k = match key {
        Some((k0, k1)) => Some(string_of(slice_exec(v, k0, k1).as_slice())),
        None => None,
    };
    Ch2Url {
        scheme: string_of(slice_exec(v, 0, a - 3).as_slice()),
        host: string_of(slice_exec(v, a, h).as_slice()),
        board: string_of(slice_exec(v, t, e).as_slice()),
        key: k,
    }
}

fn ch2_read_exec(v: &[char]) -> (r: Option<Ch2Url>)
    ensures
        match r {
            Some(x) => ch2_read_parts(v@) == Some(x@),
            None => ch2_read_parts(v@) is None,
        },
{
    proof {
        reveal_strlit("/test/read.cgi/");
        reveal_strlit("http://");
        reveal_strlit("https://");
    }
    let (a, h) = match host_end_exec(v) {
        None => return None,
        Some(x) => x,
    };
    assert(scheme_end(v@) == Some(a as int));
    assert(a == 7 || a == 8);
    if !occurs_lit_exec(v, h, "/test/read.cgi/") {
        return None;
    }
    assert(v@.len() == v.len());
    let t = h + 15;
    let nl = first_or_end_exec(v, '\n', t);
    if nl - t < 2 {
        return None;
    }
    let mut j = nl;
    while j > t + 1
        invariant
            t < j <= nl <= v@.len(),
            v@.len() == v.len(),
            3 <= a < h,
            t == h + 15,
            host_end(v@) == Some((a as int, h as int)),
            occurs_at(v@, h as int, "/test/read.cgi/"@),
            "/test/read.cgi/"@.len() == 15,
            nl as int == first_or_end(v@, '\n', t as int),
            last_slash_digit(v@, t as int, nl as int) == last_slash_digit(
                v@,
                t as int,
                j as int,
            ),
        decreases j,
    {
        if j < v.len() && v[j - 1] == '/' && is_regex_digit(v[j]) {
            let e = j - 1;
            let ke = digit_run_end_exec(v, e + 1);
            proof {
                lemma_digit_run_bounds(v@, e + 1);
            }
            return Some(ch2_url_of(v, a, h, t, e, Some((e + 1, ke))));
        }
        j -= 1;
    }
    None
}

fn ch2_dat_exec(v: &[char]) -> (r: Option<Ch2Url>)
    ensures
        match r {
            Some(x) => ch2_dat_parts(v@) == Some(x@),
            None => ch2_dat_parts(v@) is None,
        },
{
    proof {
        reveal_strlit("/dat/");
        reveal_strlit(".dat");
        reveal_strlit("http://");
        reveal_strlit("https://");
    }
    let (a, h) = match host_end_exec(v) {
        None => return None,
        Some(x) => x,
    };
    assert(scheme_end(v@) == Some(a as int));
    assert(v@.len() == v.len());
    let t = h + 1;
    let nl = first_or_end_exec(v, '\n', t);
    if t >= nl {
        return None;
    }
    let mut e = t + 1;
    while e < nl
        invariant
            t < e <= nl,
            nl <= v@.len(),
            v@.len() == v.len(),
            3 <= a < h,
            t == h + 1,
            host_end(v@) == Some((a as int, h as int)),
            "/dat/"@.len() == 5,
            ".dat"@.len() == 4,
            nl as int == first_or_end(v@, '\n', t as int),
            first_dat_from(v@, t + 1, nl as int) == first_dat_from(v@, e as int, nl as int),
        decreases nl + 1 - e,
    {
        if occurs_lit_exec(v, e, "/dat/") {
            let q = digit_run_end_exec(v, e + 5);
            proof {
                lemma_digit_run_bounds(v@, e + 5);
            }
            if q > e + 5 && occurs_lit_exec(v, q, ".dat") {
                return Some(ch2_url_of(v, a, h, t, e, Some((e + 5, q))));
            }
        }
        e += 1;
    }
    proof {
        lemma_find_from_bounds(v@, seq!['\n'], t as int);
        if nl < v@.len() {
            assert(v@.subrange(nl as int, nl + 1)[0] == v@[nl as int]);
            assert(v@[nl as int] == '\n');
            assert(nl + 5 <= v@.len() ==> v@.subrange(nl as int, nl + 5)[0] == '\n');
            assert(!occurs_at(v@, nl as int, "/dat/"@));
        }
        assert(!dat_at(v@, nl as int));
        assert(first_dat_from(v@, nl as int + 1, nl as int) is None);
    }
    None
}

fn ch2_board_exec(v: &[char]) -> (r: Option<Ch2Url>)
    ensures
        match r {
            Some(x) => ch2_board_parts(v@) == Some(x@),
            None => ch2_board_parts(v@) is None,
        },
{
    proof {
        reveal_strlit("http://");
        reveal_strlit("https://");
    }
    let (a, h) = match host_end_exec(v) {
        None => return None,
        Some(x) => x,
    };
    assert(scheme_end(v@) == Some(a as int));
    assert(v@.len() == v.len());
    let t = h + 1;
    let e = if v.len() - t >= 2 && v[v.len() - 1] == '/' {
        v.len() - 1
    } else {
        v.len()
    };
    if e > t && none_of_exec(v, '\n', t, e) {
        Some(ch2_url_of(v, a, h, t, e, None))
    } else {
        None
    }
}

/// Parse a 2ch-compatible URL: `{scheme}://{host}/test/read.cgi/{board}/{key}/`,
/// `{scheme}://{host}/{board}/dat/{key}.dat` or `{scheme}://{host}/{board}/`.
/// The board may span several segments.
pub fn parse_ch2(url: &str) -> (r: Option<Ch2Url>)
    ensures
        match r {
            Some(x) => ch2_parts(url@) == Some(x@),
            None => ch2_parts(url@) is None,
        },
{
    let v = chars_of(url);
    parse_ch2_chars(v.as_slice())
}

fn parse_ch2_chars(v: &[char]) -> (r: Option<Ch2Url>)
    ensures
        match r {
            Some(x) => ch2_parts(v@) == Some(x@),
            None => ch2_parts(v@) is None,
        },
{
    match ch2_read_exec(v) {
        Some(x) => return Some(x),
        None => {},
    }
    match ch2_dat_exec(v) {
        Some(x) => return Some(x),
        None => {},
    }
    ch2_board_exec(v)
}


/// `r` is `Ok` with the text of `expect`'s `Ok`, or `Err(InvalidUrl)` with
/// the message of `expect`'s `Err`.
pub open spec fn matches_url_result(r: AppResult<String>, expect: Result<Seq<char>, Seq<char>>) -> bool {
    match (r, expect) {
        (Ok(s), Ok(t)) => s@ == t,
        (Err(AppError::InvalidUrl(m)), Err(t)) => m@ == t,
        _ => false,
    }
}

/// The canonical board top URL of any thread or board URL.
pub open spec fn board_url_of(u: Seq<char>) -> Result<Seq<char>, Seq<char>> {
    match board_kind(u) {
        None => Err("not a BBS URL: "@ + u),
        Some(BoardKind::Shitaraba) => match shitaraba_parts(u) {
            None => Err("not a shitaraba URL: "@ + u),
            Some(p) => Ok("https://jbbs.shitaraba.net/"@ + p.category + "/"@ + p.board_id + "/"@),
        },
        Some(BoardKind::Ch2Compat) => match ch2_parts(u) {
            None => Err("not a 2ch URL: "@ + u),
            Some(p) => Ok(p.scheme + "://"@ + p.host + "/"@ + p.board + "/"@),
        },
    }
}

/// A thread key: one or more ASCII digits.
pub open spec fn is_thread_key(k: Seq<char>) -> bool {
    k.len() > 0 && forall|i: int| 0 <= i < k.len() ==> is_ascii_digit(#[trigger] k[i])
}

/// The canonical thread URL for a board (or thread) URL and a thread key.
pub open spec fn thread_url_of(u: Seq<char>, key: Seq<char>) -> Result<Seq<char>, Seq<char>> {
    if !is_thread_key(key) {
        Err("invalid thread key: "@ + key)
    } else {
        match board_kind(u) {
            None => Err("not a BBS URL: "@ + u),
            Some(BoardKind::Shitaraba) => match shitaraba_parts(u) {
                None => Err("not a shitaraba URL: "@ + u),
                Some(p) => Ok(
                    "https://jbbs.shitaraba.net/bbs/read.cgi/"@ + p.category + "/"@ + p.board_id
                        + "/"@ + key + "/"@,
                ),
            },
            Some(BoardKind::Ch2Compat) => match ch2_parts(u) {
                None => Err("not a 2ch URL: "@ + u),
                Some(p) => Ok(
                    p.scheme + "://"@ + p.host + "/test/read.cgi/"@ + p.board + "/"@ + key + "/"@,
                ),
            },
        }
    }
}

fn invalid_url(prefix: &str, s: &str) -> (r: AppError)
    ensures
        r matches AppError::InvalidUrl(m) && m@ == prefix@ + s@,
{
    AppError::InvalidUrl(crate::util::errors::concat_str(prefix, s))
}

/// The canonical top URL of the board that a thread or board URL points
/// at: `https://jbbs.shitaraba.net/{cat}/{board}/` or
/// `{scheme}://{host}/{board}/`, the scheme of a 2ch-compatible board being
/// kept (some speak http only).
pub fn build_board_url(url: &str) -> (r: AppResult<String>)
    ensures
        matches_url_result(r, board_url_of(url@)),
{
    let v = chars_of(url);
    match classify_chars(v.as_slice()) {
        None => Err(invalid_url("not a BBS URL: ", url)),
        Some(BoardKind::Shitaraba) => match parse_shitaraba_chars(v.as_slice()) {
            None => Err(invalid_url("not a shitaraba URL: ", url)),
            Some(u) => {
                let mut out: Vec<char> = Vec::new();
                push_str(&mut out, "https://jbbs.shitaraba.net/");
                push_str(&mut out, u.category.as_str());
                push_str(&mut out, "/");
                push_str(&mut out, u.board_id.as_str());
                push_str(&mut out, "/");
                Ok(string_of(out.as_slice()))
            },
        },
        Some(BoardKind::Ch2Compat) => match parse_ch2_chars(v.as_slice()) {
            None => Err(invalid_url("not a 2ch URL: ", url)),
            Some(u) => {
                let mut out: Vec<char> = Vec::new();
                push_str(&mut out, u.scheme.as_str());
                push_str(&mut out, "://");
                push_str(&mut out, u.host.as_str());
                push_str(&mut out, "/");
                push_str(&mut out, u.board.as_str());
                push_str(&mut out, "/");
                Ok(string_of(out.as_slice()))
            },
        },
    }
}

/// The canonical thread URL on the board of `board_url` for thread `key`
/// (digits only): `https://jbbs.shitaraba.net/bbs/read.cgi/{cat}/{board}/{key}/`
/// or `{scheme}://{host}/test/read.cgi/{board}/{key}/`.
pub fn build_thread_url(board_url: &str, key: &str) -> (r: AppResult<String>)
    ensures
        matches_url_result(r, thread_url_of(board_url@, key@)),
{
    let kv = chars_of(key);
    let mut ok = kv.len() > 0;
    let mut i: usize = 0;
    while i < kv.len()
        invariant
            i <= kv.len(),
            ok == (kv@.len() > 0 && forall|m: int| 0 <= m < i ==> is_ascii_digit(#[trigger] kv@[m])),
        decreases kv.len() - i,
    {
        if !('0' <= kv[i] && kv[i] <= '9') {
            ok = false;
        }
        i += 1;
    }
    if !ok {
        return Err(invalid_url("invalid thread key: ", key));
    }
    let v = chars_of(board_url);
    match classify_chars(v.as_slice()) {
        None => Err(invalid_url("not a BBS URL: ", board_url)),
        Some(BoardKind::Shitaraba) => match parse_shitaraba_chars(v.as_slice()) {
            None => Err(invalid_url("not a shitaraba URL: ", board_url)),
            Some(u) => {
                let mut out: Vec<char> = Vec::new();
                push_str(&mut out, "https://jbbs.shitaraba.net/bbs/read.cgi/");
                push_str(&mut out, u.category.as_str());
                push_str(&mut out, "/");
                push_str(&mut out, u.board_id.as_str());
                push_str(&mut out, "/");
                push_str(&mut out, key);
                push_str(&mut out, "/");
                Ok(string_of(out.as_slice()))
            },
        },
        Some(BoardKind::Ch2Compat) => match parse_ch2_chars(v.as_slice()) {
            None => Err(invalid_url("not a 2ch URL: ", board_url)),
            Some(u) => {
                let mut out: Vec<char> = Vec::new();
                push_str(&mut out, u.scheme.as_str());
                push_str(&mut out, "://");
                push_str(&mut out, u.host.as_str());
                push_str(&mut out, "/test/read.cgi/");
                push_str(&mut out, u.board.as_str());
                push_str(&mut out, "/");
                push_str(&mut out, key);
                push_str(&mut out, "/");
                assert(out@ =~= u.scheme@ + "://"@ + u.host@ + "/test/read.cgi/"@ + u.board@ + "/"@
                    + key@ + "/"@);
                Ok(string_of(out.as_slice()))
            },
        },
    }
}


// ------------------------------------------------------------ laws

proof fn lemma_find_char(u: Seq<char>, c: char, i: int, j: int)
    requires
        0 <= i <= j < u.len(),
        forall|k: int| i <= k < j ==> #[trigger] u[k] != c,
        u[j] == c,
    ensures
        find_from(u, seq![c], i) == Some(j),
    decreases j - i,
{
    if i < j {
        assert(!occurs_at(u, i, seq![c])) by {
            if occurs_at(u, i, seq![c]) {
                assert(u.subrange(i, i + 1)[0] == u[i]);
            }
        }
        lemma_find_char(u, c, i + 1, j);
    } else {
        assert(u.subrange(i, i + 1) =~= seq![c]);
    }
}

proof fn lemma_find_char_none(u: Seq<char>, c: char, i: int)
    requires
        0 <= i <= u.len(),
        forall|k: int| i <= k < u.len() ==> #[trigger] u[k] != c,
    ensures
        find_from(u, seq![c], i) is None,
    decreases u.len() - i,
{
    if i < u.len() {
        assert(!occurs_at(u, i, seq![c])) by {
            if occurs_at(u, i, seq![c]) {
                assert(u.subrange(i, i + 1)[0] == u[i]);
            }
        }
        lemma_find_char_none(u, c, i + 1);
    }
}

proof fn lemma_digits_run(u: Seq<char>, i: int, j: int)
    requires
        0 <= i <= j <= u.len(),
        forall|k: int| i <= k < j ==> #[trigger] regex_digit(u[k]),
        j == u.len() || !regex_digit(u[j]),
    ensures
        digit_run_end(u, i) == j,
    decreases j - i,
{
    if i < j {
        lemma_digits_run(u, i + 1, j);
    }
}

proof fn lemma_last_slash_digit(u: Seq<char>, lo: int, j: int, e: int)
    requires
        0 <= lo < e,
        e + 1 <= j <= u.len(),
        e + 1 < u.len(),
        u[e] == '/',
        regex_digit(u[e + 1]),
        forall|k: int| e + 1 <= k < u.len() - 1 ==> #[trigger] u[k] != '/',
    ensures
        last_slash_digit(u, lo, j) == Some(e),
    decreases j - e,
{
    if j > e + 1 {
        lemma_last_slash_digit(u, lo, j - 1, e);
    }
}

/// The canonical shitaraba thread URL of a category, a board (both
/// non-empty, without `/`) and a key reduces to that category, board and
/// key again. The digit class of the URL grammar is taken as it is on
/// ASCII (see [`crate::text::ascii_digit_class`]).
#[verifier::rlimit(50)]
pub proof fn law_shitaraba_thread_url_reads_back(cat: Seq<char>, board: Seq<char>, key: Seq<char>)
    requires
        cat.len() > 0,
        forall|k: int| 0 <= k < cat.len() ==> #[trigger] cat[k] != '/',
        board.len() > 0,
        forall|k: int| 0 <= k < board.len() ==> #[trigger] board[k] != '/',
        is_thread_key(key),
        digits_are_regex_digits(),
    ensures
        shitaraba_parts("https://jbbs.shitaraba.net/bbs/read.cgi/"@ + cat + "/"@ + board + "/"@ + key + "/"@)
            matches Some(p) && p.category == cat && p.board_id == board && p.key == Some(key),
{
    reveal_strlit("https://jbbs.shitaraba.net/bbs/read.cgi/");
    reveal_strlit("jbbs.shitaraba.net/");
    reveal_strlit("bbs/read.cgi/");
    reveal_strlit("http://");
    reveal_strlit("https://");
    reveal_strlit("/");
    let u = "https://jbbs.shitaraba.net/bbs/read.cgi/"@ + cat + "/"@ + board + "/"@ + key + "/"@;
    let j: int = 40;
    let p1: int = j + cat.len();
    let p2: int = p1 + 1 + board.len();
    let ke: int = p2 + 1 + key.len();
    assert(u.len() == ke + 1);
    assert forall|k: int| j <= k < p1 implies #[trigger] u[k] == cat[k - j] by {}
    assert forall|k: int| p1 + 1 <= k < p2 implies #[trigger] u[k] == board[k - p1 - 1] by {}
    assert forall|k: int| p2 + 1 <= k < ke implies #[trigger] u[k] == key[k - p2 - 1] by {}
    assert(u[p1] == '/' && u[p2] == '/' && u[ke] == '/');
    assert(occurs_at(u, 0, "http://"@) == false) by {
        assert(u[4] == 's');
        assert("http://"@[4] == ':');
        if occurs_at(u, 0, "http://"@) {
            assert(u.subrange(0, 7)[4] == u[4]);
        }
    }
    assert(occurs_at(u, 0, "https://"@)) by {
        assert(u.subrange(0, 8) =~= "https://"@);
    }
    assert(scheme_end(u) == Some(8int));
    assert(occurs_at(u, 8, "jbbs.shitaraba.net/"@)) by {
        assert(u.subrange(8, 27) =~= "jbbs.shitaraba.net/"@);
    }
    assert(occurs_at(u, 27, "bbs/read.cgi/"@)) by {
        assert(u.subrange(27, 40) =~= "bbs/read.cgi/"@);
    }
    assert forall|k: int| j <= k < p1 implies #[trigger] u[k] != '/' by {
        assert(u[k] == cat[k - j]);
    }
    lemma_find_char(u, '/', j, p1);
    assert forall|k: int| p1 + 1 <= k < p2 implies #[trigger] u[k] != '/' by {
        assert(u[k] == board[k - p1 - 1]);
    }
    lemma_find_char(u, '/', p1 + 1, p2);
    assert(first_or_end(u, '/', p1 + 1) == p2);
    assert forall|k: int| p2 + 1 <= k < ke implies #[trigger] regex_digit(u[k]) by {
        assert(u[k] == key[k - p2 - 1]);
        assert(is_ascii_digit(key[k - p2 - 1]));
        assert((u[k] as u32) < 0x80);
    }
    assert(!regex_digit(u[ke])) by {
        assert(('/' as u32) < 0x80);
    }
    lemma_digits_run(u, p2 + 1, ke);
    assert(regex_digit(u[p2 + 1]));
    assert(cat_board_key_at(u, j) == Some((p1, p2, Some(ke))));
    assert(shitaraba_start(u, 27) == j);
    assert(u.subrange(j, p1) =~= cat);
    assert(u.subrange(p1 + 1, p2) =~= board);
    assert(u.subrange(p2 + 1, ke) =~= key);
}

/// The canonical 2ch-compatible thread URL of a scheme (`http` or
/// `https`), a host (non-empty, without `/`), a board (non-empty, without
/// a line break) and a key reduces to them again. The digit class of the
/// URL grammar is taken as it is on ASCII.
#[verifier::rlimit(50)]
pub proof fn law_ch2_thread_url_reads_back(scheme: Seq<char>, host: Seq<char>, board: Seq<char>, key: Seq<char>)
    requires
        scheme == "http"@ || scheme == "https"@,
        host.len() > 0,
        forall|k: int| 0 <= k < host.len() ==> #[trigger] host[k] != '/',
        board.len() > 0,
        forall|k: int| 0 <= k < board.len() ==> #[trigger] board[k] != '\n',
        is_thread_key(key),
        digits_are_regex_digits(),
    ensures
        crate::bbs::url::ch2_parts(scheme + "://"@ + host + "/test/read.cgi/"@ + board + "/"@ + key + "/"@)
            matches Some(p) && p.scheme == scheme && p.host == host && p.board == board && p.key == Some(key),
{
    reveal_strlit("http");
    reveal_strlit("https");
    reveal_strlit("://");
    reveal_strlit("http://");
    reveal_strlit("https://");
    reveal_strlit("/test/read.cgi/");
    reveal_strlit("/");
    let u = scheme + "://"@ + host + "/test/read.cgi/"@ + board + "/"@ + key + "/"@;
    let a: int = scheme.len() as int + 3;
    let h: int = a + host.len();
    let t: int = h + 15;
    let e: int = t + board.len();
    let ke: int = e + 1 + key.len();
    assert(u.len() == ke + 1);
    assert forall|k: int| 0 <= k < scheme.len() implies #[trigger] u[k] == scheme[k] by {}
    assert forall|k: int| a <= k < h implies #[trigger] u[k] == host[k - a] by {}
    assert forall|k: int| t <= k < e implies #[trigger] u[k] == board[k - t] by {}
    assert forall|k: int| e + 1 <= k < ke implies #[trigger] u[k] == key[k - e - 1] by {}
    assert(u[e] == '/' && u[ke] == '/');
    if scheme == "http"@ {
        assert(occurs_at(u, 0, "http://"@)) by {
            assert(u.subrange(0, 7) =~= "http://"@);
        }
    } else {
        assert(!occurs_at(u, 0, "http://"@)) by {
            assert(u[4] == 's');
            assert("http://"@[4] == ':');
            if occurs_at(u, 0, "http://"@) {
                assert(u.subrange(0, 7)[4] == u[4]);
            }
        }
        assert(occurs_at(u, 0, "https://"@)) by {
            assert(u.subrange(0, 8) =~= "https://"@);
        }
    }
    assert(scheme_end(u) == Some(a));
    assert forall|k: int| a <= k < h implies #[trigger] u[k] != '/' by {
        assert(u[k] == host[k - a]);
    }
    assert(u[h] == '/');
    lemma_find_char(u, '/', a, h);
    assert(host_end(u) == Some((a, h)));
    assert(occurs_at(u, h, "/test/read.cgi/"@)) by {
        assert(u.subrange(h, t) =~= "/test/read.cgi/"@);
    }
    assert forall|k: int| t <= k < u.len() implies #[trigger] u[k] != '\n' by {
        if k < e {
            assert(u[k] == board[k - t]);
        } else if e < k < ke {
            assert(u[k] == key[k - e - 1]);
            assert(is_ascii_digit(key[k - e - 1]));
        }
    }
    lemma_find_char_none(u, '\n', t);
    assert(first_or_end(u, '\n', t) == u.len());
    assert forall|k: int| e + 1 <= k < ke implies #[trigger] regex_digit(u[k]) by {
        assert(u[k] == key[k - e - 1]);
        assert(is_ascii_digit(key[k - e - 1]));
        assert((u[k] as u32) < 0x80);
    }
    assert forall|k: int| e + 1 <= k < u.len() - 1 implies #[trigger] u[k] != '/' by {
        assert(u[k] == key[k - e - 1]);
        assert(is_ascii_digit(key[k - e - 1]));
    }
    lemma_last_slash_digit(u, t, u.len() as int, e);
    assert(!regex_digit(u[ke])) by {
        assert(('/' as u32) < 0x80);
    }
    lemma_digits_run(u, e + 1, ke);
    assert(u.subrange(0, a - 3) =~= scheme);
    assert(u.subrange(a, h) =~= host);
    assert(u.subrange(t, e) =~= board);
    assert(u.subrange(e + 1, ke) =~= key);
    assert(ch2_read_parts(u) is Some);
}

/// In a shitaraba board top URL, a prefix `bbs/{x}.cgi/` can only sit at
/// the category when it runs to the end of the URL.
proof fn lemma_prefix_runs_to_end(b: Seq<char>, cat: Seq<char>, board: Seq<char>, pat: Seq<char>)
    requires
        b.len() == 27 + cat.len() + 1 + board.len() + 1,
        cat.len() > 0,
        board.len() > 0,
        forall|k: int| 27 <= k < 27 + cat.len() ==> #[trigger] b[k] != '/',
        b[27 + cat.len() as int] == '/',
        forall|k: int| 28 + cat.len() <= k < b.len() - 1 ==> #[trigger] b[k] != '/',
        b[b.len() - 1] == '/',
        pat.len() >= 5,
        pat[3] == '/',
        pat[pat.len() - 1] == '/',
        forall|k: int| 0 <= k < 3 ==> #[trigger] pat[k] != '/',
        occurs_at(b, 27, pat),
    ensures
        27 + pat.len() == b.len(),
{
    let L = pat.len() as int;
    assert(b[30] == pat[3]) by {
        assert(b.subrange(27, 27 + L)[3] == b[30]);
    }
    let p1: int = 27 + cat.len() as int;
    if p1 < 30 {
        assert(b[p1] == pat[p1 - 27]) by {
            assert(b.subrange(27, 27 + L)[p1 - 27] == b[p1]);
        }
    }
    assert(p1 == 30);
    let q = 27 + L - 1;
    assert(b[q] == '/') by {
        assert(b.subrange(27, 27 + L)[L - 1] == b[q]);
    }
}

proof fn lemma_no_slash_from_end(b: Seq<char>)
    ensures
        find_from(b, seq!['/'], b.len() as int) is None,
{
    lemma_find_from_bounds(b, seq!['/'], b.len() as int);
    if find_from(b, seq!['/'], b.len() as int) is Some {
        assert(false);
    }
}

/// A shitaraba board top URL, `https://jbbs.shitaraba.net/{cat}/{board}/`
/// (both non-empty, without `/`), is its own board URL: building the board
/// URL of a board URL changes nothing.
#[verifier::rlimit(50)]
pub proof fn law_shitaraba_board_url_is_fixed(cat: Seq<char>, board: Seq<char>)
    requires
        cat.len() > 0,
        forall|k: int| 0 <= k < cat.len() ==> #[trigger] cat[k] != '/',
        board.len() > 0,
        forall|k: int| 0 <= k < board.len() ==> #[trigger] board[k] != '/',
    ensures
        board_url_of("https://jbbs.shitaraba.net/"@ + cat + "/"@ + board + "/"@) == Ok::<Seq<char>, Seq<char>>(
            "https://jbbs.shitaraba.net/"@ + cat + "/"@ + board + "/"@,
        ),
{
    reveal_strlit("https://jbbs.shitaraba.net/");
    reveal_strlit("jbbs.shitaraba.net/");
    reveal_strlit("bbs/read.cgi/");
    reveal_strlit("bbs/rawmode.cgi/");
    reveal_strlit("bbs/write.cgi/");
    reveal_strlit("http://");
    reveal_strlit("https://");
    reveal_strlit("/");
    let b = "https://jbbs.shitaraba.net/"@ + cat + "/"@ + board + "/"@;
    let p1: int = 27 + cat.len() as int;
    let p2: int = p1 + 1 + board.len();
    assert(b.len() == p2 + 1);
    assert forall|k: int| 27 <= k < p1 implies #[trigger] b[k] == cat[k - 27] by {}
    assert forall|k: int| p1 + 1 <= k < p2 implies #[trigger] b[k] == board[k - p1 - 1] by {}
    assert(b[p1] == '/' && b[p2] == '/');
    assert forall|k: int| 27 <= k < p1 implies #[trigger] b[k] != '/' by {
        assert(b[k] == cat[k - 27]);
    }
    assert forall|k: int| p1 + 1 <= k < b.len() - 1 implies #[trigger] b[k] != '/' by {
        assert(b[k] == board[k - p1 - 1]);
    }
    assert(occurs_at(b, 0, "http://"@) == false) by {
        assert(b[4] == 's');
        assert("http://"@[4] == ':');
        if occurs_at(b, 0, "http://"@) {
            assert(b.subrange(0, 7)[4] == b[4]);
        }
    }
    assert(occurs_at(b, 0, "https://"@)) by {
        assert(b.subrange(0, 8) =~= "https://"@);
    }
    assert(scheme_end(b) == Some(8int));
    assert(occurs_at(b, 8, "jbbs.shitaraba.net/"@)) by {
        assert(b.subrange(8, 27) =~= "jbbs.shitaraba.net/"@);
    }
    assert(crate::bbs::router::is_shitaraba_like(b));
    assert(board_kind(b) == Some(BoardKind::Shitaraba));
    lemma_no_slash_from_end(b);
    if occurs_at(b, 27, "bbs/read.cgi/"@) {
        lemma_prefix_runs_to_end(b, cat, board, "bbs/read.cgi/"@);
    } else if occurs_at(b, 27, "bbs/rawmode.cgi/"@) {
        lemma_prefix_runs_to_end(b, cat, board, "bbs/rawmode.cgi/"@);
    } else if occurs_at(b, 27, "bbs/write.cgi/"@) {
        lemma_prefix_runs_to_end(b, cat, board, "bbs/write.cgi/"@);
    }
    assert(shitaraba_start(b, 27) == 27);
    lemma_find_char(b, '/', 27, p1);
    lemma_find_char(b, '/', p1 + 1, p2);
    assert(first_or_end(b, '/', p1 + 1) == p2);
    assert(cat_board_key_at(b, 27) == Some((p1, p2, None::<int>)));
    assert(b.subrange(27, p1) =~= cat);
    assert(b.subrange(p1 + 1, p2) =~= board);
    assert(shitaraba_parts(b) == Some(ShitarabaUrlV { category: cat, board_id: board, key: None }));
    assert("https://jbbs.shitaraba.net/"@ + cat + "/"@ + board + "/"@ =~= b);
}

proof fn lemma_first_dat_none(u: Seq<char>, j: int, hi: int)
    requires
        forall|k: int| j <= k ==> !#[trigger] occurs_at(u, k, "/dat/"@),
    ensures
        first_dat_from(u, j, hi) is None,
    decreases hi + 1 - j,
{
    if j <= hi {
        assert(!occurs_at(u, j, "/dat/"@));
        lemma_first_dat_none(u, j + 1, hi);
    }
}

/// A 2ch-compatible board top URL, `{scheme}://{host}/{board}/` (scheme
/// `http` or `https`, host non-empty without `/`, board non-empty without a
/// line break), is its own board URL when it holds no `/dat/` and no
/// `/test/read.cgi/` (which would make it a dat or thread URL) and is not
/// taken for a shitaraba URL. An input where the last point fails:
/// `http://x/a.jbbs.shitaraba.net/`.
#[verifier::rlimit(50)]
pub proof fn law_ch2_board_url_is_fixed(scheme: Seq<char>, host: Seq<char>, board: Seq<char>)
    requires
        scheme == "http"@ || scheme == "https"@,
        host.len() > 0,
        forall|k: int| 0 <= k < host.len() ==> #[trigger] host[k] != '/',
        board.len() > 0,
        forall|k: int| 0 <= k < board.len() ==> #[trigger] board[k] != '\n',
        !crate::text::contains(scheme + "://"@ + host + "/"@ + board + "/"@, "/dat/"@),
        !crate::text::contains(scheme + "://"@ + host + "/"@ + board + "/"@, "/test/read.cgi/"@),
        !crate::bbs::router::is_shitaraba_like(scheme + "://"@ + host + "/"@ + board + "/"@),
    ensures
        board_url_of(scheme + "://"@ + host + "/"@ + board + "/"@) == Ok::<Seq<char>, Seq<char>>(
            scheme + "://"@ + host + "/"@ + board + "/"@,
        ),
{
    reveal_strlit("http");
    reveal_strlit("https");
    reveal_strlit("://");
    reveal_strlit("http://");
    reveal_strlit("https://");
    reveal_strlit("/");
    let b = scheme + "://"@ + host + "/"@ + board + "/"@;
    let a: int = scheme.len() as int + 3;
    let h: int = a + host.len();
    let t: int = h + 1;
    let e: int = t + board.len();
    assert(b.len() == e + 1);
    assert forall|k: int| 0 <= k < scheme.len() implies #[trigger] b[k] == scheme[k] by {}
    assert forall|k: int| a <= k < h implies #[trigger] b[k] == host[k - a] by {}
    assert forall|k: int| t <= k < e implies #[trigger] b[k] == board[k - t] by {}
    assert(b[h] == '/' && b[e] == '/');
    if scheme == "http"@ {
        assert(occurs_at(b, 0, "http://"@)) by {
            assert(b.subrange(0, 7) =~= "http://"@);
        }
    } else {
        assert(!occurs_at(b, 0, "http://"@)) by {
            assert(b[4] == 's');
            assert("http://"@[4] == ':');
            if occurs_at(b, 0, "http://"@) {
                assert(b.subrange(0, 7)[4] == b[4]);
            }
        }
        assert(occurs_at(b, 0, "https://"@)) by {
            assert(b.subrange(0, 8) =~= "https://"@);
        }
    }
    assert(scheme_end(b) == Some(a));
    assert forall|k: int| a <= k < h implies #[trigger] b[k] != '/' by {
        assert(b[k] == host[k - a]);
    }
    lemma_find_char(b, '/', a, h);
    assert(host_end(b) == Some((a, h)));
    lemma_find_from_bounds(b, "/dat/"@, 0);
    lemma_find_from_bounds(b, "/test/read.cgi/"@, 0);
    assert(!occurs_at(b, h, "/test/read.cgi/"@));
    assert(ch2_read_parts(b) is None);
    lemma_first_dat_none(b, t + 1, first_or_end(b, '\n', t));
    assert(ch2_dat_parts(b) is None);
    assert forall|k: int| t <= k < e implies #[trigger] b[k] != '\n' by {
        assert(b[k] == board[k - t]);
    }
    assert(b.last() == '/');
    assert(b.subrange(0, a - 3) =~= scheme);
    assert(b.subrange(a, h) =~= host);
    assert(b.subrange(t, e) =~= board);
    assert(ch2_board_parts(b) == Some(Ch2UrlV { scheme, host, board, key: None }));
    assert(crate::bbs::router::dir_shape(b, h + 1));
    assert(crate::bbs::router::is_ch2_like(b));
    assert(board_kind(b) == Some(BoardKind::Ch2Compat));
    assert(scheme + "://"@ + host + "/"@ + board + "/"@ =~= b);
}

proof fn lemma_before_first(u: Seq<char>, c: char, i: int)
    requires
        0 <= i,
    ensures
        forall|k: int| i <= k < first_or_end(u, c, i) ==> #[trigger] u[k] != c,
        find_from(u, seq![c], i) matches Some(f) ==> i <= f < u.len() && u[f] == c,
        first_or_end(u, c, i) <= u.len(),
{
    lemma_find_from_bounds(u, seq![c], i);
    assert forall|k: int| i <= k < first_or_end(u, c, i) implies #[trigger] u[k] != c by {
        if u[k] == c {
            assert(u.subrange(k, k + 1) =~= seq![c]);
            assert(occurs_at(u, k, seq![c]));
        }
    }
    if let Some(f) = find_from(u, seq![c], i) {
        assert(u.subrange(f, f + 1)[0] == u[f]);
    }
}

proof fn lemma_last_slash_digit_bounds(u: Seq<char>, lo: int, j: int)
    ensures
        last_slash_digit(u, lo, j) matches Some(e) ==> lo < e < j,
    decreases j - lo,
{
    if j - 1 > lo {
        lemma_last_slash_digit_bounds(u, lo, j - 1);
    }
}

proof fn lemma_first_dat_bounds(u: Seq<char>, j: int, hi: int)
    ensures
        first_dat_from(u, j, hi) matches Some(e) ==> j <= e <= hi,
    decreases hi + 1 - j,
{
    if j <= hi && !dat_at(u, j) {
        lemma_first_dat_bounds(u, j + 1, hi);
    }
}

proof fn lemma_scheme_is_http(u: Seq<char>)
    requires
        scheme_end(u) is Some,
    ensures
        u.subrange(0, scheme_end(u)->0 - 3) == "http"@ || u.subrange(0, scheme_end(u)->0 - 3) == "https"@,
{
    reveal_strlit("http://");
    reveal_strlit("https://");
    reveal_strlit("http");
    reveal_strlit("https");
    if occurs_at(u, 0, "http://"@) {
        assert(u.subrange(0, 4) =~= "http"@) by {
            assert forall|k: int| 0 <= k < 4 implies u.subrange(0, 4)[k] == "http"@[k] by {
                assert(u.subrange(0, 7)[k] == u[k]);
            }
        }
    } else {
        assert(u.subrange(0, 5) =~= "https"@) by {
            assert forall|k: int| 0 <= k < 5 implies u.subrange(0, 5)[k] == "https"@[k] by {
                assert(u.subrange(0, 8)[k] == u[k]);
            }
        }
    }
}

/// The parts of a shitaraba URL: a category and a board, both non-empty
/// and without `/`.
proof fn lemma_shitaraba_parts_shape(u: Seq<char>)
    requires
        shitaraba_parts(u) is Some,
    ensures
        ({
            let p = shitaraba_parts(u)->0;
            &&& p.category.len() > 0
            &&& forall|k: int| 0 <= k < p.category.len() ==> #[trigger] p.category[k] != '/'
            &&& p.board_id.len() > 0
            &&& forall|k: int| 0 <= k < p.board_id.len() ==> #[trigger] p.board_id[k] != '/'
        }),
{
    reveal_strlit("jbbs.shitaraba.net/");
    let a = scheme_end(u)->0;
    let start = shitaraba_start(u, a + 19);
    assert(start >= 0);
    lemma_before_first(u, '/', start);
    let p1 = find_from(u, seq!['/'], start)->0;
    lemma_before_first(u, '/', p1 + 1);
    let p2 = first_or_end(u, '/', p1 + 1);
    let p = shitaraba_parts(u)->0;
    assert(p.category == u.subrange(start, p1));
    assert(p.board_id == u.subrange(p1 + 1, p2));
    assert forall|k: int| 0 <= k < p.category.len() implies #[trigger] p.category[k] != '/' by {
        assert(p.category[k] == u[start + k]);
    }
    assert forall|k: int| 0 <= k < p.board_id.len() implies #[trigger] p.board_id[k] != '/' by {
        assert(p.board_id[k] == u[p1 + 1 + k]);
    }
}

/// The parts of a 2ch-compatible URL: scheme `http` or `https`, a
/// non-empty host without `/`, a non-empty board without a line break.
proof fn lemma_ch2_parts_shape(u: Seq<char>)
    requires
        ch2_parts(u) is Some,
    ensures
        ({
            let p = ch2_parts(u)->0;
            &&& p.scheme == "http"@ || p.scheme == "https"@
            &&& p.host.len() > 0
            &&& forall|k: int| 0 <= k < p.host.len() ==> #[trigger] p.host[k] != '/'
            &&& p.board.len() > 0
            &&& forall|k: int| 0 <= k < p.board.len() ==> #[trigger] p.board[k] != '\n'
        }),
{
    reveal_strlit("/test/read.cgi/");
    let (a, h) = host_end(u)->0;
    lemma_scheme_is_http(u);
    lemma_before_first(u, '/', a);
    let p = ch2_parts(u)->0;
    assert(p.scheme == u.subrange(0, a - 3));
    assert(p.host == u.subrange(a, h));
    assert forall|k: int| 0 <= k < p.host.len() implies #[trigger] p.host[k] != '/' by {
        assert(p.host[k] == u[a + k]);
    }
    if ch2_read_parts(u) is Some {
        let t = h + 15;
        let nl = first_or_end(u, '\n', t);
        lemma_before_first(u, '\n', t);
        lemma_last_slash_digit_bounds(u, t, nl);
        let e = last_slash_digit(u, t, nl)->0;
        assert(p.board == u.subrange(t, e));
        assert forall|k: int| 0 <= k < p.board.len() implies #[trigger] p.board[k] != '\n' by {
            assert(p.board[k] == u[t + k]);
        }
    } else if ch2_dat_parts(u) is Some {
        let t = h + 1;
        let nl = first_or_end(u, '\n', t);
        lemma_before_first(u, '\n', t);
        lemma_first_dat_bounds(u, t + 1, nl);
        let e = first_dat_from(u, t + 1, nl)->0;
        assert(p.board == u.subrange(t, e));
        assert forall|k: int| 0 <= k < p.board.len() implies #[trigger] p.board[k] != '\n' by {
            assert(p.board[k] == u[t + k]);
        }
    } else {
        let t = h + 1;
        let e = if u.len() >= t + 2 && u.last() == '/' {
            u.len() - 1
        } else {
            u.len() as int
        };
        assert(p.board == u.subrange(t, e));
        assert forall|k: int| 0 <= k < p.board.len() implies #[trigger] p.board[k] != '\n' by {
            assert(p.board[k] == u[t + k]);
        }
    }
}

/// Building the board URL of a board URL gives it back: when `u` has the
/// board URL `b`, `b` has the board URL `b`, provided `b` holds no `/dat/`
/// and no `/test/read.cgi/` and a 2ch-compatible board URL is not taken
/// for a shitaraba one. An input where the last point fails:
/// `http://x/test/read.cgi/a.jbbs.shitaraba.net/1/`, whose board URL
/// `http://x/a.jbbs.shitaraba.net/` reads as shitaraba and is refused.
pub proof fn law_board_url_is_fixed(u: Seq<char>, b: Seq<char>)
    requires
        board_url_of(u) == Ok::<Seq<char>, Seq<char>>(b),
        !crate::text::contains(b, "/dat/"@),
        !crate::text::contains(b, "/test/read.cgi/"@),
        board_kind(u) == Some(BoardKind::Shitaraba) || !crate::bbs::router::is_shitaraba_like(b),
    ensures
        board_url_of(b) == Ok::<Seq<char>, Seq<char>>(b),
{
    if board_kind(u) == Some(BoardKind::Shitaraba) {
        lemma_shitaraba_parts_shape(u);
        let p = shitaraba_parts(u)->0;
        law_shitaraba_board_url_is_fixed(p.category, p.board_id);
    } else {
        lemma_ch2_parts_shape(u);
        let p = ch2_parts(u)->0;
        law_ch2_board_url_is_fixed(p.scheme, p.host, p.board);
    }
}

} // verus!
