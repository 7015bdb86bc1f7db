//! The HLS relay: which ids and segment names are let through, where they
//! are fetched upstream, and how a playlist is rewritten so that the
//! browser keeps talking to this server.

use vstd::prelude::*;
use crate::server::error::ApiError;
use crate::text::{
    chars_of, contains, contains_exec, decimal, decimal_exec, ends_with, ends_with_exec, push_all, push_str, replace,
    replace_exec, slice_exec, starts_with, starts_with_exec, string_of,
};
use crate::util::errors::concat_str;

verus! {

/// `char::is_control`: the general category Cc (U+0000 to U+001F and U+007F
/// to U+009F).
pub open spec fn is_control(c: char) -> bool {
    (c as u32) < 0x20 || (0x7f <= (c as u32) && (c as u32) <= 0x9f)
}

/// A name that cannot lead to another path upstream: not empty, no `..`,
/// no `/`, `\` or NUL, no control character.
pub open spec fn safe_component(s: Seq<char>) -> bool {
    &&& s.len() > 0
    &&& !contains(s, ".."@)
    &&& !contains(s, seq!['/'])
    &&& !contains(s, seq!['\\'])
    &&& !contains(s, seq!['\0'])
    &&& forall|i: int| 0 <= i < s.len() ==> !is_control(#[trigger] s[i])
}

/// Whether `s` may be used as a channel id or segment name upstream.
pub fn is_safe_path_component(s: &str) -> (r: bool)
    ensures
        r == safe_component(s@),
{
    proof {
        reveal_strlit("..");
    }
    let v = chars_of(s);
    if v.len() == 0 {
        return false;
    }
    let dd = chars_of("..");
    let slash: [char; 1] = ['/'];
    let back: [char; 1] = ['\\'];
    let nul: [char; 1] = ['\0'];
    assert(slash@ == seq!['/']);
    assert(back@ == seq!['\\']);
    assert(nul@ == seq!['\0']);
    if contains_exec(v.as_slice(), dd.as_slice()) || contains_exec(v.as_slice(), &slash) || contains_exec(
        v.as_slice(),
        &back,
    ) || contains_exec(v.as_slice(), &nul) {
        return false;
    }
    let mut i: usize = 0;
    while i < v.len()
        invariant
            i <= v@.len(),
            v@ == s@,
            forall|k: int| 0 <= k < i ==> !is_control(#[trigger] v@[k]),
        decreases v@.len() - i,
    {
        let c = v[i] as u32;
        if c < 0x20 || (0x7f <= c && c <= 0x9f) {
            assert(is_control(v@[i as int]));
            return false;
        }
        i += 1;
    }
    true
}

/// `http://{host}:{port}`.
pub open spec fn origin_of(host: Seq<char>, port: u16) -> Seq<char> {
    "http://"@ + host + ":"@ + decimal(port as nat)
}

fn origin(host: &str, port: u16) -> (r: Vec<char>)
    ensures
        r@ == origin_of(host@, port),
{
    let mut v: Vec<char> = Vec::new();
    push_str(&mut v, "http://");
    push_str(&mut v, host);
    push_str(&mut v, ":");
    let d = decimal_exec(port as u64);
    push_all(&mut v, d.as_slice());
    v
}

/// A playlist with every absolute upstream URL turned into a path of this
/// server (the upstream origin removed).
pub fn rewrite_playlist_body(body: &str, host: &str, port: u16) -> (r: String)
    ensures
        r@ == replace(body@, origin_of(host@, port), Seq::empty()),
{
    proof {
        reveal_strlit("http://");
    }
    let o = origin(host, port);
    let empty: Vec<char> = Vec::new();
    let out = replace_exec(chars_of(body).as_slice(), o.as_slice(), empty.as_slice());
    assert(empty@ =~= Seq::<char>::empty());
    string_of(out.as_slice())
}

/// `?{query}` when there is a non-empty query.
pub open spec fn query_suffix(query: Option<Seq<char>>) -> Seq<char> {
    match query {
        Some(q) => if q.len() > 0 {
            "?"@ + q
        } else {
            Seq::empty()
        },
        None => Seq::empty(),
    }
}

pub open spec fn opt_str(o: Option<&str>) -> Option<Seq<char>> {
    match o {
        Some(s) => Some(s@),
        None => None,
    }
}

fn push_query(v: &mut Vec<char>, query: Option<&str>)
    ensures
        final(v)@ == old(v)@ + query_suffix(opt_str(query)),
{
    if let Some(q) = query {
        let qv = chars_of(q);
        if qv.len() > 0 {
            push_str(v, "?");
            push_all(v, qv.as_slice());
        }
    }
}

/// The upstream playlist of a channel (the bare `/hls/{id}` path), the
/// query passed through.
pub fn upstream_playlist_url(host: &str, port: u16, channel_id: &str, query: Option<&str>) -> (r: String)
    ensures
        r@ == origin_of(host@, port) + "/hls/"@ + channel_id@ + query_suffix(opt_str(query)),
{
    let mut v = origin(host, port);
    push_str(&mut v, "/hls/");
    push_str(&mut v, channel_id);
    push_query(&mut v, query);
    string_of(v.as_slice())
}

/// An upstream segment of a channel, the query passed through.
pub fn upstream_segment_url(host: &str, port: u16, channel_id: &str, segment: &str, query: Option<&str>) -> (r: String)
    ensures
        r@ == origin_of(host@, port) + "/hls/"@ + channel_id@ + "/"@ + segment@ + query_suffix(opt_str(query)),
{
    let mut v = origin(host, port);
    push_str(&mut v, "/hls/");
    push_str(&mut v, channel_id);
    push_str(&mut v, "/");
    push_str(&mut v, segment);
    push_query(&mut v, query);
    string_of(v.as_slice())
}

/// `s` without one final `suffix`.
pub open spec fn strip_suffix_once(s: Seq<char>, suffix: Seq<char>) -> Seq<char> {
    if ends_with(s, suffix) {
        s.subrange(0, s.len() - suffix.len())
    } else {
        s
    }
}

pub(crate) fn strip_suffix_exec(s: &str, suffix: &str) -> (r: String)
    ensures
        r@ == strip_suffix_once(s@, suffix@),
{
    let v = chars_of(s);
    let p = chars_of(suffix);
    if ends_with_exec(v.as_slice(), p.as_slice()) {
        string_of(slice_exec(v.as_slice(), 0, v.len() - p.len()).as_slice())
    } else {
        string_of(v.as_slice())
    }
}

/// The channel id of a playlist request (a final `.m3u8` is dropped),
/// refused with 400 `invalid_channel_id` when it is not a safe name.
pub fn playlist_channel_id(raw: &str) -> (r: Result<String, ApiError>)
    ensures
        ({
            let id = strip_suffix_once(raw@, ".m3u8"@);
            if safe_component(id) {
                r matches Ok(s) && s@ == id
            } else {
                r matches Err(e) && e.status == 400 && e.code@ == "invalid_channel_id"@ && e.message@
                    == "不正な channel_id: "@ + id
            }
        }),
{
    let id = strip_suffix_exec(raw, ".m3u8");
    if !is_safe_path_component(id.as_str()) {
        return Err(
            ApiError {
                status: 400,
                code: "invalid_channel_id",
                message: concat_str("不正な channel_id: ", id.as_str()),
            },
        );
    }
    Ok(id)
}

/// The id and segment of a segment request, refused with 400 when either
/// is not a safe name (the id is checked first).
pub fn check_segment_request(id: &str, segment: &str) -> (r: Result<(), ApiError>)
    ensures
        !safe_component(id@) ==> (r matches Err(e) && e.status == 400 && e.code@ == "invalid_channel_id"@
            && e.message@ == "不正な channel_id: "@ + id@),
        safe_component(id@) && !safe_component(segment@) ==> (r matches Err(e) && e.status == 400 && e.code@
            == "invalid_segment"@ && e.message@ == "不正な segment 名: "@ + segment@),
        safe_component(id@) && safe_component(segment@) ==> r is Ok,
{
    if !is_safe_path_component(id) {
        return Err(ApiError { status: 400, code: "invalid_channel_id", message: concat_str("不正な channel_id: ", id) });
    }
    if !is_safe_path_component(segment) {
        return Err(ApiError { status: 400, code: "invalid_segment", message: concat_str("不正な segment 名: ", segment) });
    }
    Ok(())
}

/// Whether an upstream answer is a playlist to rewrite, by its
/// `Content-Type` (an answer without a readable one counts as a playlist).
pub open spec fn is_playlist_type(content_type: Option<Seq<char>>) -> bool {
    match content_type {
        Some(v) => contains(v, "mpegurl"@) || contains(v, "m3u8"@) || starts_with(v, "text/"@),
        None => true,
    }
}

pub fn is_playlist_content_type(content_type: Option<&str>) -> (r: bool)
    ensures
        r == is_playlist_type(opt_str(content_type)),
{
    match content_type {
        Some(v) => {
            let c = chars_of(v);
            let a = chars_of("mpegurl");
            let b = chars_of("m3u8");
            let t = chars_of("text/");
            contains_exec(c.as_slice(), a.as_slice()) || contains_exec(c.as_slice(), b.as_slice())
                || starts_with_exec(c.as_slice(), t.as_slice())
        },
        None => true,
    }
}

} // verus!
