//! PeerCast URL parsing.
//!
//! Three URL families are recognised:
//!
//! * `http://host:port/pls/{id}[.{ext}][?tip={tip}]`
//! * `http://host:port/stream/{id}.{ext}`
//! * `http://host:port/play.html?id={id}`
//!
//! The host is either a run of characters without `:` and `/`, or an IPv6
//! address in brackets; the port is a run of decimal digits. The first two
//! families must take the whole URL; `play.html` may be followed by
//! anything after the id.

use vstd::prelude::*;
use crate::peercast::types::{
    ChannelId, PeerCastEndpoint, channel_id_error, is_channel_id_text,
};
use crate::text::{
    all_digits, ascii_lower_seq, ascii_lower_seq_exec, chars_of, decimal, decimal_exec,
    digit_run_end, digit_run_end_exec, digit_val, is_ascii_alnum, is_ws, lemma_digit_run_bounds,
    none_of, none_of_exec, occurs_at, occurs_lit_exec, parse_u16, parse_u16_exec, push_all,
    push_str, scheme_end, scheme_end_exec, slice_exec, split, split_exec, split_once,
    split_once_exec, string_of, trim, trim_exec, views,
};
use crate::util::errors::AppError;

verus! {

/// Which of the URL families a URL belongs to.
#[derive(Debug, Clone, Copy, PartialEq, Eq)]
pub enum UrlKind {
    Playlist,
    Stream,
    PlayHtml,
}

/// A recognised PeerCast URL.
#[derive(Debug, Clone, PartialEq, Eq)]
pub struct ParsedUrl {
    pub kind: UrlKind,
    pub endpoint: PeerCastEndpoint,
    pub channel_id: ChannelId,
    pub ext: Option<String>,
    pub tip: Option<String>,
}

/// Abstract contents of a [`ParsedUrl`]; the endpoint of a parsed URL has
/// no credentials.
#[verifier::ext_equal]
pub struct ParsedV {
    pub kind: UrlKind,
    pub host: Seq<char>,
    pub port: u16,
    pub channel_id: Seq<char>,
    pub ext: Option<Seq<char>>,
    pub tip: Option<Seq<char>>,
}

pub open spec fn opt_view(o: Option<String>) -> Option<Seq<char>> {
    match o {
        Some(s) => Some(s@),
        None => None,
    }
}

/// `p` describes `v`, with an endpoint that carries no credentials.
pub open spec fn parsed_is(p: ParsedUrl, v: ParsedV) -> bool {
    &&& p.kind == v.kind
    &&& p.endpoint.host@ == v.host
    &&& p.endpoint.port == v.port
    &&& p.endpoint.auth is None
    &&& p.channel_id.view_id() == v.channel_id
    &&& opt_view(p.ext) == v.ext
    &&& opt_view(p.tip) == v.tip
}

// ---------------------------------------------------------------- grammar

/// End of the run of characters other than `:` and `/` that starts at `i`.
pub open spec fn host_run_end(u: Seq<char>, i: int) -> int
    decreases u.len() - i,
{
    if 0 <= i < u.len() && u[i] != ':' && u[i] != '/' {
        host_run_end(u, i + 1)
    } else {
        i
    }
}

/// End of the run of characters other than `]` that starts at `i`.
pub open spec fn bracket_run_end(u: Seq<char>, i: int) -> int
    decreases u.len() - i,
{
    if 0 <= i < u.len() && u[i] != ']' {
        bracket_run_end(u, i + 1)
    } else {
        i
    }
}

/// End of the run of ASCII letters and digits that starts at `i`.
pub open spec fn alnum_run_end(u: Seq<char>, i: int) -> int
    decreases u.len() - i,
{
    if 0 <= i < u.len() && is_ascii_alnum(u[i]) {
        alnum_run_end(u, i + 1)
    } else {
        i
    }
}

/// Position of the `:` after a host of the first form (`[^:/]+`) that
/// starts at `s`.
pub open spec fn plain_host_colon(u: Seq<char>, s: int) -> Option<int> {
    let e = host_run_end(u, s);
    if e > s && e < u.len() && u[e] == ':' {
        Some(e)
    } else {
        None
    }
}

/// Position of the `:` after a bracketed host (`\[[^\]]+\]`) that starts
/// at `s`.
pub open spec fn bracket_host_colon(u: Seq<char>, s: int) -> Option<int> {
    if 0 <= s < u.len() && u[s] == '[' {
        let j = bracket_run_end(u, s + 1);
        if j > s + 1 && j + 1 < u.len() && u[j] == ']' && u[j + 1] == ':' {
            Some(j + 1)
        } else {
            None
        }
    } else {
        None
    }
}

/// The `/` that ends the port digits after the colon at `c`.
pub open spec fn port_end(u: Seq<char>, c: int) -> Option<int> {
    let pe = digit_run_end(u, c + 1);
    if pe > c + 1 && pe < u.len() && u[pe] == '/' {
        Some(pe)
    } else {
        None
    }
}

/// 32 hexadecimal digits at `d`.
pub open spec fn hex32_at(u: Seq<char>, d: int) -> bool {
    0 <= d && d + 32 <= u.len() && all_digits(u.subrange(d, d + 32), 16)
}

/// Nothing left at `e`, or `?` followed by a query without line breaks.
pub open spec fn query_tail_ok(u: Seq<char>, e: int) -> bool {
    e == u.len() || (0 <= e < u.len() && u[e] == '?' && none_of(u, '\n', e + 1, u.len() as int))
}

pub open spec fn query_of(u: Seq<char>, e: int) -> Option<Seq<char>> {
    if e == u.len() {
        None
    } else {
        Some(u.subrange(e + 1, u.len() as int))
    }
}

/// What is captured from a URL.
#[verifier::ext_equal]
pub struct UrlCaps {
    pub host: Seq<char>,
    pub port: Seq<char>,
    pub kind: UrlKind,
    pub id: Seq<char>,
    pub ext: Option<Seq<char>>,
    pub query: Option<Seq<char>>,
}

/// After the port: `(pls|stream)/{id}(\.{ext})?(\?{query})?` up to the end.
pub open spec fn pls_rest(u: Seq<char>, t: int) -> Option<(UrlKind, int, Option<Seq<char>>, Option<Seq<char>>)> {
    let (ok, kind, d) = if occurs_at(u, t, "pls/"@) {
        (true, UrlKind::Playlist, t + 4)
    } else if occurs_at(u, t, "stream/"@) {
        (true, UrlKind::Stream, t + 7)
    } else {
        (false, UrlKind::Playlist, t)
    };
    if !ok || !hex32_at(u, d) {
        None
    } else {
        let r = d + 32;
        if r < u.len() && u[r] == '.' {
            let e = alnum_run_end(u, r + 1);
            if e > r + 1 && query_tail_ok(u, e) {
                Some((kind, d, Some(u.subrange(r + 1, e)), query_of(u, e)))
            } else {
                None
            }
        } else if query_tail_ok(u, r) {
            Some((kind, d, None, query_of(u, r)))
        } else {
            None
        }
    }
}

/// `&id={id}` ends a prefix without line breaks at `k` (that is, `k` is
/// just after the `&`), searching from `k` down.
pub open spec fn play_amp_id(u: Seq<char>, q0: int, k: int) -> Option<int>
    decreases k - q0,
{
    if k <= q0 {
        None
    } else if u[k - 1] == '&' && none_of(u, '\n', q0, k - 1) && occurs_at(u, k, "id="@)
        && hex32_at(u, k + 3) {
        Some(k)
    } else {
        play_amp_id(u, q0, k - 1)
    }
}

/// After the port: `play.html?(.*&)?id={id}`; the start of `id=`.
pub open spec fn play_rest(u: Seq<char>, t: int) -> Option<int> {
    if occurs_at(u, t, "play.html?"@) {
        let q0 = t + 10;
        match play_amp_id(u, q0, u.len() as int) {
            Some(k) => Some(k),
            None => if occurs_at(u, q0, "id="@) && hex32_at(u, q0 + 3) {
                Some(q0)
            } else {
                None
            },
        }
    } else {
        None
    }
}

pub open spec fn pls_caps_from(u: Seq<char>, s: int, c: int) -> Option<UrlCaps> {
    match port_end(u, c) {
        Some(pe) => match pls_rest(u, pe + 1) {
            Some((kind, d, ext, query)) => Some(
                UrlCaps {
                    host: u.subrange(s, c),
                    port: u.subrange(c + 1, pe),
                    kind,
                    id: u.subrange(d, d + 32),
                    ext,
                    query,
                },
            ),
            None => None,
        },
        None => None,
    }
}

pub open spec fn play_caps_from(u: Seq<char>, s: int, c: int) -> Option<UrlCaps> {
    match port_end(u, c) {
        Some(pe) => match play_rest(u, pe + 1) {
            Some(k) => Some(
                UrlCaps {
                    host: u.subrange(s, c),
                    port: u.subrange(c + 1, pe),
                    kind: UrlKind::PlayHtml,
                    id: u.subrange(k + 3, k + 35),
                    ext: None,
                    query: None,
                },
            ),
            None => None,
        },
        None => None,
    }
}

/// The captures of the `pls`/`stream` form; the plain host form is tried
/// before the bracketed one.
pub open spec fn pls_caps(u: Seq<char>) -> Option<UrlCaps> {
    match scheme_end(u) {
        None => None,
        Some(s) => {
            let a = match plain_host_colon(u, s) {
                Some(c) => pls_caps_from(u, s, c),
                None => None,
            };
            if a is Some {
                a
            } else {
                match bracket_host_colon(u, s) {
                    Some(c) => pls_caps_from(u, s, c),
                    None => None,
                }
            }
        },
    }
}

/// The captures of the `play.html` form.
pub open spec fn play_caps(u: Seq<char>) -> Option<UrlCaps> {
    match scheme_end(u) {
        None => None,
        Some(s) => {
            let a = match plain_host_colon(u, s) {
                Some(c) => play_caps_from(u, s, c),
                None => None,
            };
            if a is Some {
                a
            } else {
                match bracket_host_colon(u, s) {
                    Some(c) => play_caps_from(u, s, c),
                    None => None,
                }
            }
        },
    }
}

/// The value of the first `tip=` pair, looking at the `&`-separated pairs
/// in order; a pair without `=` ends the search with nothing.
pub open spec fn tip_of_pairs(pairs: Seq<Seq<char>>, i: int) -> Option<Seq<char>>
    decreases pairs.len() - i,
{
    if i < 0 || i >= pairs.len() {
        None
    } else {
        match split_once(pairs[i], seq!['=']) {
            None => None,
            Some((k, v)) => if k == "tip"@ {
                Some(v)
            } else {
                tip_of_pairs(pairs, i + 1)
            },
        }
    }
}

pub open spec fn extract_tip_spec(query: Option<Seq<char>>) -> Option<Seq<char>> {
    match query {
        None => None,
        Some(q) => tip_of_pairs(split(q, seq!['&']), 0),
    }
}

pub open spec fn opt_lower(o: Option<Seq<char>>) -> Option<Seq<char>> {
    match o {
        Some(s) => Some(ascii_lower_seq(s)),
        None => None,
    }
}

/// What [`parse`] gives for `u`: the parsed URL, or the text of the
/// `InvalidUrl` error.
pub open spec fn parse_spec(u: Seq<char>) -> Result<ParsedV, Seq<char>> {
    match pls_caps(u) {
        Some(c) => match parse_u16(c.port) {
            None => Err("invalid port in "@ + u),
            Some(p) => if is_channel_id_text(c.id) {
                Ok(
                    ParsedV {
                        kind: c.kind,
                        host: c.host,
                        port: p,
                        channel_id: ascii_lower_seq(c.id),
                        ext: opt_lower(c.ext),
                        tip: extract_tip_spec(c.query),
                    },
                )
            } else {
                Err(channel_id_error() + ": "@ + c.id)
            },
        },
        None => match play_caps(u) {
            Some(c) => match parse_u16(c.port) {
                None => Err("invalid port in "@ + u),
                Some(p) => if is_channel_id_text(c.id) {
                    Ok(
                        ParsedV {
                            kind: UrlKind::PlayHtml,
                            host: c.host,
                            port: p,
                            channel_id: ascii_lower_seq(c.id),
                            ext: None,
                            tip: None,
                        },
                    )
                } else {
                    Err(channel_id_error() + ": "@ + c.id)
                },
            },
            None => Err("not a recognised PeerCast URL: "@ + u),
        },
    }
}



// ------------------------------------------------------------ building

/// A character a `tip` may hold: ASCII letters and digits and `. - _ : [ ]`.
pub open spec fn is_tip_char(c: char) -> bool {
    is_ascii_alnum(c) || c == '.' || c == '-' || c == '_' || c == ':' || c == '[' || c == ']'
}

/// A `host:port` (or `[v6]:port`) value that can be put into a query as
/// it is: 1 to 128 tip characters, among them a `:`.
pub open spec fn is_safe_tip(t: Seq<char>) -> bool {
    &&& 1 <= t.len() <= 128
    &&& forall|i: int| 0 <= i < t.len() ==> is_tip_char(#[trigger] t[i])
    &&& crate::text::contains(t, seq![':'])
}

/// The tip that [`build_pls_url`] appends: the trimmed value, when it is
/// non-empty and safe.
pub open spec fn safe_tip_of(tip: Option<Seq<char>>) -> Option<Seq<char>> {
    match tip {
        Some(t) => if trim(t).len() > 0 && is_safe_tip(trim(t)) {
            Some(trim(t))
        } else {
            None
        },
        None => None,
    }
}

/// `http://{host}:{port}/pls/{channel_id}` with `?tip={tip}` when there is
/// a safe tip.
pub open spec fn pls_url_of(host: Seq<char>, port: u16, channel_id: Seq<char>, tip: Option<Seq<char>>) -> Seq<char> {
    let base = "http://"@ + host + ":"@ + decimal(port as nat) + "/pls/"@ + channel_id;
    match safe_tip_of(tip) {
        Some(t) => base + "?tip="@ + t,
        None => base,
    }
}

pub open spec fn opt_str_view(o: Option<&str>) -> Option<Seq<char>> {
    match o {
        Some(s) => Some(s@),
        None => None,
    }
}

fn is_safe_tip_exec(t: &[char]) -> (r: bool)
    ensures
        r == is_safe_tip(t@),
{
    if t.len() < 1 || t.len() > 128 {
        return false;
    }
    let mut i: usize = 0;
    while i < t.len()
        invariant
            i <= t.len(),
            forall|k: int| 0 <= k < i ==> is_tip_char(#[trigger] t@[k]),
        decreases t.len() - i,
    {
        let c = t[i];
        if !(crate::text::is_ascii_alnum_exec(c) || c == '.' || c == '-' || c == '_' || c == ':'
            || c == '[' || c == ']') {
            return false;
        }
        i += 1;
    }
    let colon: [char; 1] = [':'];
    assert(colon@ == seq![':']);
    crate::text::contains_exec(t, &colon)
}

/// Build `http://host:port/pls/{channel_id}[?tip=<tip>]`. The tip is
/// trimmed and kept only when it is non-empty and safe (see
/// [`is_safe_tip`]); otherwise the URL has no tip.
pub fn build_pls_url(host: &str, port: u16, channel_id: &str, tip: Option<&str>) -> (r: String)
    ensures
        r@ == pls_url_of(host@, port, channel_id@, opt_str_view(tip)),
{
    let mut v: Vec<char> = Vec::new();
    push_str(&mut v, "http://");
    push_str(&mut v, host);
    push_str(&mut v, ":");
    let d = decimal_exec(port as u64);
    push_all(&mut v, d.as_slice());
    push_str(&mut v, "/pls/");
    push_str(&mut v, channel_id);
    let ghost base = v@;
    assert(base == "http://"@ + host@ + ":"@ + decimal(port as nat) + "/pls/"@ + channel_id@);
    if let Some(t) = tip {
        let tt = trim_exec(chars_of(t).as_slice());
        if tt.len() > 0 && is_safe_tip_exec(tt.as_slice()) {
            push_str(&mut v, "?tip=");
            push_all(&mut v, tt.as_slice());
        }
    }
    string_of(v.as_slice())
}


// ------------------------------------------------------------ laws

proof fn lemma_host_run(u: Seq<char>, i: int, j: int)
    requires
        0 <= i <= j <= u.len(),
        forall|k: int| i <= k < j ==> #[trigger] u[k] != ':' && u[k] != '/',
        j == u.len() || u[j] == ':' || u[j] == '/',
    ensures
        host_run_end(u, i) == j,
    decreases j - i,
{
    if i < j {
        lemma_host_run(u, i + 1, j);
    }
}

proof fn lemma_digit_run(u: Seq<char>, i: int, j: int)
    requires
        0 <= i <= j <= u.len(),
        forall|k: int| i <= k < j ==> #[trigger] crate::text::regex_digit(u[k]),
        j == u.len() || !crate::text::regex_digit(u[j]),
    ensures
        digit_run_end(u, i) == j,
    decreases j - i,
{
    if i < j {
        lemma_digit_run(u, i + 1, j);
    }
}

/// A query `tip=t` with `t` free of `&` and `=` gives the tip `t`.
proof fn lemma_tip_query(t: Seq<char>)
    requires
        forall|k: int| 0 <= k < t.len() ==> #[trigger] t[k] != '&' && t[k] != '=',
    ensures
        extract_tip_spec(Some("tip="@ + t)) == Some(t),
{
    reveal_strlit("tip=");
    reveal_strlit("tip");
    let q = "tip="@ + t;
    let amp = seq!['&'];
    let eqs = seq!['='];
    crate::text::lemma_find_from_bounds(q, amp, 0);
    assert(forall|k: int| 0 <= k < q.len() ==> #[trigger] q[k] != '&') by {
        assert forall|k: int| 0 <= k < q.len() implies #[trigger] q[k] != '&' by {
            if k >= 4 {
                assert(q[k] == t[k - 4]);
            }
        }
    }
    if let Some(k) = crate::text::find_from(q, amp, 0) {
        assert(q.subrange(k, k + 1)[0] == q[k]);
    }
    assert(crate::text::find_from(q, amp, 0) is None);
    assert(q.subrange(0, q.len() as int) =~= q);
    assert(crate::text::split_from(q, amp, 0) == seq![q.subrange(0, q.len() as int)]);
    assert(split(q, amp) =~= seq![q]);
    crate::text::lemma_find_from_bounds(q, eqs, 0);
    assert(occurs_at(q, 3, eqs)) by {
        assert(q.subrange(3, 4) =~= eqs);
    }
    match crate::text::find_from(q, eqs, 0) {
        Some(k) => {
            if k < 3 {
                assert(q.subrange(k, k + 1)[0] == q[k]);
            }
            if k > 3 {
                assert(!occurs_at(q, 3, eqs));
            }
            assert(k == 3);
        },
        None => {
            assert(!occurs_at(q, 3, eqs));
        },
    }
    assert(q.subrange(0, 3) =~= "tip"@);
    assert(q.subrange(4, q.len() as int) =~= t);
}

/// A host of the plain form: non-empty, without `:` and `/`.
pub open spec fn is_plain_host(h: Seq<char>) -> bool {
    h.len() > 0 && forall|k: int| 0 <= k < h.len() ==> #[trigger] h[k] != ':' && h[k] != '/'
}

/// A bracketed host (an IPv6 address): `[`, a non-empty inside without
/// `]` and `/`, `]`.
pub open spec fn is_bracket_host(h: Seq<char>) -> bool {
    &&& h.len() >= 3
    &&& h[0] == '['
    &&& h[h.len() - 1] == ']'
    &&& forall|k: int| 0 < k < h.len() - 1 ==> #[trigger] h[k] != ']' && h[k] != '/'
}

/// What [`build_pls_url`] builds for a host of either form and a channel
/// id of 32 hexadecimal digits, [`parse`] reads back: a playlist URL of
/// that host and port, the id in lower case, no extension, and the tip that
/// was appended. The digit class of the URL grammar is taken as it is on
/// ASCII (see [`crate::text::ascii_digit_class`]).
#[verifier::rlimit(50)]
pub proof fn law_pls_url_roundtrip(host: Seq<char>, port: u16, channel_id: Seq<char>, tip: Option<Seq<char>>)
    requires
        is_plain_host(host) || is_bracket_host(host),
        is_channel_id_text(channel_id),
        crate::text::digits_are_regex_digits(),
    ensures
        parse_spec(pls_url_of(host, port, channel_id, tip)) == Ok::<ParsedV, Seq<char>>(
            ParsedV {
                kind: UrlKind::Playlist,
                host,
                port,
                channel_id: ascii_lower_seq(channel_id),
                ext: None,
                tip: safe_tip_of(tip),
            },
        ),
{
    reveal_strlit("http://");
    reveal_strlit("https://");
    reveal_strlit(":");
    reveal_strlit("/pls/");
    reveal_strlit("pls/");
    reveal_strlit("stream/");
    reveal_strlit("?tip=");
    reveal_strlit("tip=");
    let dd = decimal(port as nat);
    crate::text::lemma_decimal_digits(port as nat);
    let base = "http://"@ + host + ":"@ + dd + "/pls/"@ + channel_id;
    let tail: Seq<char> = match safe_tip_of(tip) {
        Some(t) => "?tip="@ + t,
        None => Seq::empty(),
    };
    let u = pls_url_of(host, port, channel_id, tip);
    assert(u =~= base + tail);
    let h = host.len() as int;
    let c = 7 + h;
    let pe = c + 1 + dd.len();
    let d = pe + 5;
    let r = d + 32;
    assert(base.len() == r);
    // the pieces, where they stand
    assert forall|k: int| 0 <= k < 7 implies #[trigger] u[k] == "http://"@[k] by {}
    assert forall|k: int| 7 <= k < c implies #[trigger] u[k] == host[k - 7] by {}
    assert(u[c] == ':');
    assert forall|k: int| c + 1 <= k < pe implies #[trigger] u[k] == dd[k - c - 1] by {}
    assert forall|k: int| pe <= k < d implies #[trigger] u[k] == "/pls/"@[k - pe] by {}
    assert forall|k: int| d <= k < r implies #[trigger] u[k] == channel_id[k - d] by {}
    assert forall|k: int| r <= k < u.len() implies #[trigger] u[k] == tail[k - r] by {}
    // scheme
    assert(occurs_at(u, 0, "http://"@)) by {
        assert(u.subrange(0, 7) =~= "http://"@);
    }
    assert(scheme_end(u) == Some(7int));
    assert(u.subrange(7, c) =~= host);
    // port
    assert forall|k: int| c + 1 <= k < pe implies #[trigger] crate::text::regex_digit(u[k]) by {
        assert(crate::text::is_ascii_digit(dd[k - c - 1]));
        assert((u[k] as u32) < 0x80);
    }
    assert(u[pe] == '/');
    assert(!crate::text::regex_digit(u[pe])) by {
        assert(('/' as u32) < 0x80);
    }
    lemma_digit_run(u, c + 1, pe);
    assert(port_end(u, c) == Some(pe));
    assert(u.subrange(c + 1, pe) =~= dd);
    assert(parse_u16(dd) == Some(port));
    // kind and id
    assert(occurs_at(u, pe + 1, "pls/"@)) by {
        assert(u.subrange(pe + 1, pe + 5) =~= "pls/"@);
    }
    assert(u.subrange(d, r) =~= channel_id);
    assert(hex32_at(u, d));
    // the rest
    match safe_tip_of(tip) {
        Some(t) => {
            assert(u.len() == r + 5 + t.len());
            assert(u[r] == '?');
            assert(forall|k: int| 0 <= k < t.len() ==> is_tip_char(#[trigger] t[k]));
            assert(none_of(u, '\n', r + 1, u.len() as int)) by {
                assert forall|k: int| r + 1 <= k < u.len() implies #[trigger] u[k] != '\n' by {
                    if k >= r + 5 {
                        assert(u[k] == t[k - r - 5]);
                        assert(is_tip_char(t[k - r - 5]));
                    }
                }
            }
            assert(query_tail_ok(u, r));
            assert(u.subrange(r + 1, u.len() as int) =~= "tip="@ + t);
            assert forall|k: int| 0 <= k < t.len() implies #[trigger] t[k] != '&' && t[k] != '=' by {
                assert(is_tip_char(t[k]));
            }
            lemma_tip_query(t);
        },
        None => {
            assert(u.len() == r);
        },
    }
    assert(pls_rest(u, pe + 1) == Some((UrlKind::Playlist, d, None::<Seq<char>>, query_of(u, r))));
    assert(pls_caps_from(u, 7, c) is Some);
    // the host
    lemma_host_choice(host, u, c);
    assert(pls_caps(u) == pls_caps_from(u, 7, c));
}

/// Where the host of `u` (from position 7 to the `:` at `c`) is read: a
/// plain host by the first form; a bracketed host with a `:` inside makes
/// the first form stop early without a port, and is read by the second.
proof fn lemma_host_choice(host: Seq<char>, u: Seq<char>, c: int)
    requires
        is_plain_host(host) || is_bracket_host(host),
        c == 7 + host.len(),
        c < u.len(),
        u[c] == ':',
        forall|k: int| 7 <= k < c ==> #[trigger] u[k] == host[k - 7],
        forall|ch: char| (ch as u32) < 0x80 ==> (#[trigger] crate::text::regex_digit(ch) == crate::text::is_ascii_digit(ch)),
    ensures
        plain_host_colon(u, 7) == Some(c) || (plain_host_colon(u, 7) matches Some(q) && port_end(u, q) is None
            && bracket_host_colon(u, 7) == Some(c)),
{
    let h = host.len() as int;
    if is_plain_host(host) {
        assert forall|k: int| 7 <= k < c implies #[trigger] u[k] != ':' && u[k] != '/' by {
            assert(u[k] == host[k - 7]);
        }
        lemma_host_run(u, 7, c);
    } else {
        let colon = seq![':'];
        crate::text::lemma_find_from_bounds(host, colon, 0);
        let w = choose|k: int| 0 <= k < h && !(host[k] != ':' && host[k] != '/');
        assert(host[w] == ':');
        assert(occurs_at(host, w, colon)) by {
            assert(host.subrange(w, w + 1) =~= colon);
        }
        let m = crate::text::find_from(host, colon, 0).unwrap();
        assert(host[m] == ':') by {
            assert(host.subrange(m, m + 1)[0] == host[m]);
        }
        assert(0 < m < h - 1);
        let q = 7 + m;
        assert forall|k: int| 7 <= k < q implies #[trigger] u[k] != ':' && u[k] != '/' by {
            assert(u[k] == host[k - 7]);
            if host[k - 7] == ':' {
                assert(occurs_at(host, k - 7, colon)) by {
                    assert(host.subrange(k - 7, k - 6) =~= colon);
                }
            }
        }
        assert(u[q] == ':');
        lemma_host_run(u, 7, q);
        assert(plain_host_colon(u, 7) == Some(q));
        lemma_digit_run_bounds(u, q + 1);
        let e = digit_run_end(u, q + 1);
        assert(u[c - 1] == ']');
        assert(!crate::text::regex_digit(u[c - 1])) by {
            assert((']' as u32) < 0x80);
        }
        assert(e <= c - 1) by {
            if e > c - 1 {
                assert(crate::text::regex_digit(u[c - 1]));
            }
        }
        assert(u[e] != '/') by {
            if e < c - 1 {
                assert(u[e] == host[e - 7]);
            }
        }
        assert(port_end(u, q) is None);
        assert forall|k: int| 8 <= k < c - 1 implies #[trigger] u[k] != ']' by {
            assert(u[k] == host[k - 7]);
        }
        assert(u[7] == '[');
        lemma_bracket_run(u, 8, c - 1);
        assert(bracket_host_colon(u, 7) == Some(c));
    }
}

proof fn lemma_bracket_run(u: Seq<char>, i: int, j: int)
    requires
        0 <= i <= j < u.len(),
        forall|k: int| i <= k < j ==> #[trigger] u[k] != ']',
        u[j] == ']',
    ensures
        bracket_run_end(u, i) == j,
    decreases j - i,
{
    if i < j {
        lemma_bracket_run(u, i + 1, j);
    }
}

// ------------------------------------------------------------ exec side

fn host_run_end_exec(v: &[char], i: usize) -> (r: usize)
    requires
        i <= v@.len(),
    ensures
        r as int == host_run_end(v@, i as int),
        i <= r <= v@.len(),
{
    let mut k = i;
    while k < v.len() && v[k] != ':' && v[k] != '/'
        invariant
            i <= k <= v.len(),
            host_run_end(v@, i as int) == host_run_end(v@, k as int),
        decreases v.len() - k,
    {
        k += 1;
    }
    k
}

fn bracket_run_end_exec(v: &[char], i: usize) -> (r: usize)
    requires
        i <= v@.len(),
    ensures
        r as int == bracket_run_end(v@, i as int),
        i <= r <= v@.len(),
{
    let mut k = i;
    while k < v.len() && v[k] != ']'
        invariant
            i <= k <= v.len(),
            bracket_run_end(v@, i as int) == bracket_run_end(v@, k as int),
        decreases v.len() - k,
    {
        k += 1;
    }
    k
}

fn alnum_run_end_exec(v: &[char], i: usize) -> (r: usize)
    requires
        i <= v@.len(),
    ensures
        r as int == alnum_run_end(v@, i as int),
        i <= r <= v@.len(),
{
    let mut k = i;
    while k < v.len() && crate::text::is_ascii_alnum_exec(v[k])
        invariant
            i <= k <= v.len(),
            alnum_run_end(v@, i as int) == alnum_run_end(v@, k as int),
        decreases v.len() - k,
    {
        k += 1;
    }
    k
}

fn hex32_at_exec(v: &[char], d: usize) -> (r: bool)
    ensures
        r == hex32_at(v@, d as int),
{
    if d > v.len() || v.len() - d < 32 {
        return false;
    }
    let mut k: usize = 0;
    while k < 32
        invariant
            d + 32 <= v@.len(),
            v@.len() == v.len(),
            k <= 32,
            forall|j: int| 0 <= j < k ==> #[trigger] digit_val(v@[d + j], 16) is Some,
        decreases 32 - k,
    {
        if crate::text::digit_val_exec(v[d + k], 16).is_none() {
            assert(!all_digits(v@.subrange(d as int, d + 32), 16)) by {
                assert(v@.subrange(d as int, d + 32)[k as int] == v@[d + k]);
            }
            return false;
        }
        k += 1;
    }
    assert(all_digits(v@.subrange(d as int, d + 32), 16)) by {
        assert forall|j: int| 0 <= j < 32 implies #[trigger] digit_val(
            v@.subrange(d as int, d + 32)[j],
            16,
        ) is Some by {
            assert(v@.subrange(d as int, d + 32)[j] == v@[d + j]);
        }
    }
    true
}

fn plain_host_colon_exec(v: &[char], s: usize) -> (r: Option<usize>)
    requires
        s <= v@.len(),
    ensures
        match r {
            Some(c) => plain_host_colon(v@, s as int) == Some(c as int) && s < c < v@.len(),
            None => plain_host_colon(v@, s as int) is None,
        },
{
    let e = host_run_end_exec(v, s);
    if e > s && e < v.len() && v[e] == ':' {
        Some(e)
    } else {
        None
    }
}

fn bracket_host_colon_exec(v: &[char], s: usize) -> (r: Option<usize>)
    requires
        s <= v@.len(),
    ensures
        match r {
            Some(c) => bracket_host_colon(v@, s as int) == Some(c as int) && s < c < v@.len(),
            None => bracket_host_colon(v@, s as int) is None,
        },
{
    assert(v@.len() == v.len());
    if s < v.len() && v[s] == '[' {
        let j = bracket_run_end_exec(v, s + 1);
        if j > s + 1 && j < v.len() && v.len() - j > 1 && v[j] == ']' && v[j + 1] == ':' {
            Some(j + 1)
        } else {
            None
        }
    } else {
        None
    }
}

fn port_end_exec(v: &[char], c: usize) -> (r: Option<usize>)
    requires
        c < v@.len(),
    ensures
        match r {
            Some(pe) => port_end(v@, c as int) == Some(pe as int) && c + 1 < pe < v@.len(),
            None => port_end(v@, c as int) is None,
        },
{
    assert(v@.len() == v.len());
    let pe = digit_run_end_exec(v, c + 1);
    proof {
        lemma_digit_run_bounds(v@, c + 1);
    }
    if pe > c + 1 && pe < v.len() && v[pe] == '/' {
        Some(pe)
    } else {
        None
    }
}

fn query_tail_ok_exec(v: &[char], e: usize) -> (r: bool)
    requires
        e <= v@.len(),
    ensures
        r == query_tail_ok(v@, e as int),
{
    e == v.len() || (v[e] == '?' && none_of_exec(v, '\n', e + 1, v.len()))
}

fn query_of_exec(v: &[char], e: usize) -> (r: Option<Vec<char>>)
    requires
        e <= v@.len(),
    ensures
        crate::text::opt_chars(r) == query_of(v@, e as int),
{
    if e == v.len() {
        None
    } else {
        Some(slice_exec(v, e + 1, v.len()))
    }
}

/// The captures as exec values.
struct Caps {
    host: Vec<char>,
    port: Vec<char>,
    kind: UrlKind,
    id: Vec<char>,
    ext: Option<Vec<char>>,
    query: Option<Vec<char>>,
}

spec fn caps_view(c: Caps) -> UrlCaps {
    UrlCaps {
        host: c.host@,
        port: c.port@,
        kind: c.kind,
        id: c.id@,
        ext: crate::text::opt_chars(c.ext),
        query: crate::text::opt_chars(c.query),
    }
}

fn pls_rest_exec(v: &[char], t: usize) -> (r: Option<(UrlKind, usize, Option<Vec<char>>, Option<Vec<char>>)>)
    requires
        t <= v@.len(),
    ensures
        match r {
            Some((kind, d, ext, query)) => pls_rest(v@, t as int) == Some(
                (kind, d as int, crate::text::opt_chars(ext), crate::text::opt_chars(query)),
            ) && d + 32 <= v@.len(),
            None => pls_rest(v@, t as int) is None,
        },
{
    proof {
        reveal_strlit("pls/");
        reveal_strlit("stream/");
    }
    assert(v@.len() == v.len());
    let kind: UrlKind;
    let d: usize;
    if occurs_lit_exec(v, t, "pls/") {
        kind = UrlKind::Playlist;
        d = t + 4;
    } else if occurs_lit_exec(v, t, "stream/") {
        kind = UrlKind::Stream;
        d = t + 7;
    } else {
        return None;
    }
    if !hex32_at_exec(v, d) {
        return None;
    }
    let r = d + 32;
    if r < v.len() && v[r] == '.' {
        let e = alnum_run_end_exec(v, r + 1);
        if e > r + 1 && query_tail_ok_exec(v, e) {
            let ext = slice_exec(v, r + 1, e);
            let q = query_of_exec(v, e);
            Some((kind, d, Some(ext), q))
        } else {
            None
        }
    } else if query_tail_ok_exec(v, r) {
        let q = query_of_exec(v, r);
        Some((kind, d, None, q))
    } else {
        None
    }
}

fn play_rest_exec(v: &[char], t: usize) -> (r: Option<usize>)
    requires
        t <= v@.len(),
    ensures
        match r {
            Some(k) => play_rest(v@, t as int) == Some(k as int) && k + 35 <= v@.len(),
            None => play_rest(v@, t as int) is None,
        },
{
    proof {
        reveal_strlit("play.html?");
        reveal_strlit("id=");
    }
    assert(v@.len() == v.len());
    if !occurs_lit_exec(v, t, "play.html?") {
        return None;
    }
    let q0 = t + 10;
    let mut k = v.len();
    while k > q0
        invariant
            q0 <= k <= v@.len(),
            q0 <= v@.len(),
            v@.len() == v.len(),
            "id="@.len() == 3,
            q0 == t + 10,
            occurs_at(v@, t as int, "play.html?"@),
            play_amp_id(v@, q0 as int, v@.len() as int) == play_amp_id(v@, q0 as int, k as int),
        decreases k - q0,
    {
        if v[k - 1] == '&' && none_of_exec(v, '\n', q0, k - 1) && occurs_lit_exec(v, k, "id=")
            && hex32_at_exec(v, k + 3) {
            return Some(k);
        }
        k -= 1;
    }
    if occurs_lit_exec(v, q0, "id=") && hex32_at_exec(v, q0 + 3) {
        Some(q0)
    } else {
        None
    }
}

fn pls_caps_from_exec(v: &[char], s: usize, c: usize) -> (r: Option<Caps>)
    requires
        s < c < v@.len(),
    ensures
        match r {
            Some(x) => pls_caps_from(v@, s as int, c as int) == Some(caps_view(x)),
            None => pls_caps_from(v@, s as int, c as int) is None,
        },
{
    assert(v@.len() == v.len());
    match port_end_exec(v, c) {
        Some(pe) => match pls_rest_exec(v, pe + 1) {
            Some((kind, d, ext, query)) => {
                let host = slice_exec(v, s, c);
                let port = slice_exec(v, c + 1, pe);
                let id = slice_exec(v, d, d + 32);
                Some(Caps { host, port, kind, id, ext, query })
            },
            None => None,
        },
        None => None,
    }
}

fn play_caps_from_exec(v: &[char], s: usize, c: usize) -> (r: Option<Caps>)
    requires
        s < c < v@.len(),
    ensures
        match r {
            Some(x) => play_caps_from(v@, s as int, c as int) == Some(caps_view(x)),
            None => play_caps_from(v@, s as int, c as int) is None,
        },
{
    assert(v@.len() == v.len());
    match port_end_exec(v, c) {
        Some(pe) => match play_rest_exec(v, pe + 1) {
            Some(k) => {
                let host = slice_exec(v, s, c);
                let port = slice_exec(v, c + 1, pe);
                let id = slice_exec(v, k + 3, k + 35);
                Some(Caps { host, port, kind: UrlKind::PlayHtml, id, ext: None, query: None })
            },
            None => None,
        },
        None => None,
    }
}

fn pls_caps_exec(v: &[char]) -> (r: Option<Caps>)
    ensures
        match r {
            Some(x) => pls_caps(v@) == Some(caps_view(x)),
            None => pls_caps(v@) is None,
        },
{
    let s = match scheme_end_exec(v) {
        Some(s) => s,
        None => return None,
    };
    proof {
        reveal_strlit("http://");
        reveal_strlit("https://");
    }
    assert(s <= v@.len());
    if let Some(c) = plain_host_colon_exec(v, s) {
        if let Some(x) = pls_caps_from_exec(v, s, c) {
            return Some(x);
        }
    }
    match bracket_host_colon_exec(v, s) {
        Some(c) => pls_caps_from_exec(v, s, c),
        None => None,
    }
}

fn play_caps_exec(v: &[char]) -> (r: Option<Caps>)
    ensures
        match r {
            Some(x) => play_caps(v@) == Some(caps_view(x)),
            None => play_caps(v@) is None,
        },
{
    let s = match scheme_end_exec(v) {
        Some(s) => s,
        None => return None,
    };
    proof {
        reveal_strlit("http://");
        reveal_strlit("https://");
    }
    assert(s <= v@.len());
    if let Some(c) = plain_host_colon_exec(v, s) {
        if let Some(x) = play_caps_from_exec(v, s, c) {
            return Some(x);
        }
    }
    match bracket_host_colon_exec(v, s) {
        Some(c) => play_caps_from_exec(v, s, c),
        None => None,
    }
}

/// The value of the first `tip=` pair of a query.
fn extract_tip(query: &Option<Vec<char>>) -> (r: Option<Vec<char>>)
    ensures
        crate::text::opt_chars(r) == extract_tip_spec(crate::text::opt_chars(*query)),
{
    let q = match query {
        Some(q) => q,
        None => return None,
    };
    let amp: [char; 1] = ['&'];
    let eqc: [char; 1] = ['='];
    assert(amp@ == seq!['&']);
    assert(eqc@ == seq!['=']);
    let pairs = split_exec(q.as_slice(), &amp);
    let ghost pv = views(pairs@);
    assert(extract_tip_spec(crate::text::opt_chars(*query)) == tip_of_pairs(pv, 0));
    let mut i: usize = 0;
    while i < pairs.len()
        invariant
            i <= pairs.len(),
            pv == views(pairs@),
            pv == split(q@, seq!['&']),
            eqc@ == seq!['='],
            tip_of_pairs(pv, 0) == tip_of_pairs(pv, i as int),
            extract_tip_spec(crate::text::opt_chars(*query)) == tip_of_pairs(pv, 0),
        decreases pairs.len() - i,
    {
        assert(pv[i as int] == pairs@[i as int]@);
        match split_once_exec(pairs[i].as_slice(), &eqc) {
            None => {
                assert(split_once(pv[i as int], seq!['=']) is None);
                assert(tip_of_pairs(pv, i as int) is None);
                return None;
            },
            Some((k, v)) => {
                assert(split_once(pv[i as int], seq!['=']) == Some((k@, v@)));
                if crate::text::eq_str_exec(k.as_slice(), "tip") {
                    assert(tip_of_pairs(pv, i as int) == Some(v@));
                    return Some(v);
                }
            },
        }
        i += 1;
    }
    None
}

/// Recognise a PeerCast URL.
pub fn parse(url: &str) -> (r: Result<ParsedUrl, AppError>)
    ensures
        match parse_spec(url@) {
            Ok(pv) => (r matches Ok(p) && parsed_is(p, pv)),
            Err(m) => (r matches Err(AppError::InvalidUrl(e)) && e@ == m),
        },
{
    let v = chars_of(url);
    let (caps, play) = match pls_caps_exec(v.as_slice()) {
        Some(c) => (c, false),
        None => match play_caps_exec(v.as_slice()) {
            Some(c) => (c, true),
            None => {
                return Err(
                    AppError::InvalidUrl(
                        crate::util::errors::concat_str("not a recognised PeerCast URL: ", url),
                    ),
                );
            },
        },
    };
    let port = match parse_u16_exec(caps.port.as_slice()) {
        Some(p) => p,
        None => {
            return Err(
                AppError::InvalidUrl(crate::util::errors::concat_str("invalid port in ", url)),
            );
        },
    };
    let ids = string_of(caps.id.as_slice());
    let channel_id = match ChannelId::parse(ids.as_str()) {
        Ok(c) => c,
        Err(e) => {
            let mut m = crate::util::errors::concat_str(e.as_str(), ": ");
            m.append(ids.as_str());
            return Err(AppError::InvalidUrl(m));
        },
    };
    let host = string_of(caps.host.as_slice());
    let endpoint = PeerCastEndpoint { host, port, auth: None };
    if play {
        Ok(ParsedUrl { kind: UrlKind::PlayHtml, endpoint, channel_id, ext: None, tip: None })
    } else {
        let ext = match &caps.ext {
            Some(x) => Some(string_of(ascii_lower_seq_exec(x.as_slice()).as_slice())),
            None => None,
        };
        let tip = match extract_tip(&caps.query) {
            Some(t) => Some(string_of(t.as_slice())),
            None => None,
        };
        Ok(ParsedUrl { kind: caps.kind, endpoint, channel_id, ext, tip })
    }
}

} // verus!
