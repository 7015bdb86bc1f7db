//! Shitaraba JBBS: the URLs of a board, the incremental `rawmode.cgi`
//! fetch and the post through `write.cgi`, as decisions on the answers the
//! board gives. The HTTP exchanges themselves are made by the caller.

use vstd::prelude::*;
use crate::bbs::ch2::{PostForm, PostStep, is_success, opt_text, state_is};
use crate::bbs::encoding::{BoardEncoding, decoded_text, encoded_bytes, percent_encode, percent_encoded};
use crate::bbs::parse::{parse_shitaraba_dat, shitaraba_posts};
use crate::bbs::post_result::{OutcomeV, PostOutcome, classify_shitaraba, shitaraba_outcome};
use crate::bbs::types::{FetchState, Post, PostRequest, posts_view};
use crate::bbs::url::{parse_shitaraba, shitaraba_parts};
use crate::text::{chars_of, contains, decimal, decimal_exec, lines, push_all, push_str, string_of};
use crate::util::errors::{AppError, concat_str};

verus! {

/// A board (and maybe a thread) on shitaraba.
#[derive(Debug, Clone)]
pub struct BoardLocation {
    pub category: String,
    pub board_id: String,
    pub key: Option<String>,
}

/// The location of a shitaraba URL, or `InvalidUrl("not a shitaraba URL: ...")`.
pub fn parse_loc(url: &str) -> (r: Result<BoardLocation, AppError>)
    ensures
        match shitaraba_parts(url@) {
            Some(p) => (r matches Ok(l) && l.category@ == p.category && l.board_id@ == p.board_id && opt_text(l.key)
                == p.key),
            None => (r matches Err(AppError::InvalidUrl(m)) && m@ == "not a shitaraba URL: "@ + url@),
        },
{
    match parse_shitaraba(url) {
        Some(u) => Ok(BoardLocation { category: u.category, board_id: u.board_id, key: u.key }),
        None => Err(AppError::InvalidUrl(concat_str("not a shitaraba URL: ", url))),
    }
}

/// `https://jbbs.shitaraba.net/{category}/{board}/subject.txt`.
pub open spec fn subject_url_of(cat: Seq<char>, board: Seq<char>) -> Seq<char> {
    "https://jbbs.shitaraba.net/"@ + cat + "/"@ + board + "/subject.txt"@
}

/// `https://jbbs.shitaraba.net/bbs/rawmode.cgi/{category}/{board}/{key}/`.
pub open spec fn rawmode_url_of(cat: Seq<char>, board: Seq<char>, key: Seq<char>) -> Seq<char> {
    "https://jbbs.shitaraba.net/bbs/rawmode.cgi/"@ + cat + "/"@ + board + "/"@ + key + "/"@
}

/// `https://jbbs.shitaraba.net/bbs/write.cgi/{category}/{board}/`.
pub open spec fn write_url_of(cat: Seq<char>, board: Seq<char>) -> Seq<char> {
    "https://jbbs.shitaraba.net/bbs/write.cgi/"@ + cat + "/"@ + board + "/"@
}

/// The board's thread list.
pub fn subject_url(loc: &BoardLocation) -> (r: String)
    ensures
        r@ == subject_url_of(loc.category@, loc.board_id@),
{
    let mut v: Vec<char> = Vec::new();
    push_str(&mut v, "https://jbbs.shitaraba.net/");
    push_str(&mut v, loc.category.as_str());
    push_str(&mut v, "/");
    push_str(&mut v, loc.board_id.as_str());
    push_str(&mut v, "/subject.txt");
    string_of(v.as_slice())
}

/// A thread's posts in raw form.
pub fn rawmode_url(loc: &BoardLocation, key: &str) -> (r: String)
    ensures
        r@ == rawmode_url_of(loc.category@, loc.board_id@, key@),
{
    let mut v: Vec<char> = Vec::new();
    push_str(&mut v, "https://jbbs.shitaraba.net/bbs/rawmode.cgi/");
    push_str(&mut v, loc.category.as_str());
    push_str(&mut v, "/");
    push_str(&mut v, loc.board_id.as_str());
    push_str(&mut v, "/");
    push_str(&mut v, key);
    push_str(&mut v, "/");
    string_of(v.as_slice())
}

/// The post endpoint of a board.
pub fn write_url(loc: &BoardLocation) -> (r: String)
    ensures
        r@ == write_url_of(loc.category@, loc.board_id@),
{
    let mut v: Vec<char> = Vec::new();
    push_str(&mut v, "https://jbbs.shitaraba.net/bbs/write.cgi/");
    push_str(&mut v, loc.category.as_str());
    push_str(&mut v, "/");
    push_str(&mut v, loc.board_id.as_str());
    push_str(&mut v, "/");
    string_of(v.as_slice())
}

/// The URL of a board's `subject.txt`.
pub fn board_subject_url(board_url: &str) -> (r: Result<String, AppError>)
    ensures
        match shitaraba_parts(board_url@) {
            Some(p) => (r matches Ok(s) && s@ == subject_url_of(p.category, p.board_id)),
            None => (r matches Err(AppError::InvalidUrl(m)) && m@ == "not a shitaraba URL: "@ + board_url@),
        },
{
    let loc = parse_loc(board_url)?;
    Ok(subject_url(&loc))
}

/// The posts after `last_count`: `rawmode.cgi` takes `{from}-` to start at
/// post `from`.
pub open spec fn rawmode_fetch_url(cat: Seq<char>, board: Seq<char>, key: Seq<char>, last_count: u32) -> Seq<char> {
    let start: int = if last_count == u32::MAX {
        u32::MAX as int
    } else {
        last_count + 1
    };
    rawmode_url_of(cat, board, key) + if start > 1 {
        decimal(start as nat) + "-"@
    } else {
        Seq::empty()
    }
}

/// The request that fetches the posts after `prev`: its URL and the
/// `If-Modified-Since` to send.
pub fn rawmode_request(thread_url: &str, prev: Option<&FetchState>) -> (r: Result<(String, Option<String>), AppError>)
    ensures
        match shitaraba_parts(thread_url@) {
            Some(p) => match p.key {
                Some(k) => (r matches Ok((url, ims)) && url@ == rawmode_fetch_url(
                    p.category,
                    p.board_id,
                    k,
                    match prev {
                        Some(s) => s.last_count,
                        None => 0,
                    },
                ) && opt_text(ims) == match prev {
                    Some(s) => opt_text(s.last_modified),
                    None => None,
                }),
                None => (r matches Err(AppError::InvalidUrl(m)) && m@ == "missing thread key in: "@ + thread_url@),
            },
            None => (r matches Err(AppError::InvalidUrl(m)) && m@ == "not a shitaraba URL: "@ + thread_url@),
        },
{
    let loc = parse_loc(thread_url)?;
    let key = match &loc.key {
        Some(k) => k,
        None => return Err(AppError::InvalidUrl(concat_str("missing thread key in: ", thread_url))),
    };
    let last_n: u32 = match prev {
        Some(p) => p.last_count,
        None => 0,
    };
    let start = last_n.saturating_add(1);
    let url = rawmode_url(&loc, key.as_str());
    let mut v = chars_of(url.as_str());
    if start > 1 {
        let d = decimal_exec(start as u64);
        push_all(&mut v, d.as_slice());
        push_str(&mut v, "-");
    }
    let ims = match prev {
        Some(p) => match &p.last_modified {
            Some(lm) => Some(lm.clone()),
            None => None,
        },
        None => None,
    };
    Ok((string_of(v.as_slice()), ims))
}

/// What the board's answer to a [`rawmode_request`] gives: on 304 nothing
/// new and the state held, with nothing to replace; on another non-2xx
/// status `Network("rawmode returned {status_text}")`; otherwise the posts
/// of the (EUC-JP) body, the last one's number kept as the count (the count
/// held when there is none). When no post was held before (no state, or a
/// count of 0) the request asked for the whole thread, and the answer is
/// marked as a full reload: the list shown is replaced, not appended to.
pub fn rawmode_response(
    prev: Option<&FetchState>,
    status: u16,
    status_text: &str,
    last_modified: Option<String>,
    body: &[u8],
) -> (r: Result<(Vec<Post>, FetchState), AppError>)
    ensures
        status == 304 ==> (r matches Ok((posts, s)) && posts@.len() == 0 && match prev {
            Some(p) => state_is(s, opt_text(p.last_modified), p.last_byte as int, p.last_count as int, false),
            None => state_is(s, None, 0, 0, false),
        }),
        status != 304 && !is_success(status) ==> (r matches Err(AppError::Network(m)) && m@ == "rawmode returned "@
            + status_text@),
        status != 304 && is_success(status) ==> ({
            let ps = shitaraba_posts(lines(decoded_text(BoardEncoding::EucJp, body@)));
            let last: int = if ps.len() > 0 {
                ps.last().number as int
            } else {
                match prev {
                    Some(p) => p.last_count as int,
                    None => 0,
                }
            };
            let whole: bool = match prev {
                Some(p) => p.last_count == 0,
                None => true,
            };
            r matches Ok((posts, s)) && posts_view(posts@) == ps && state_is(s, opt_text(last_modified), 0, last, whole)
        }),
{
    if status == 304 {
        let state = match prev {
            Some(p) => FetchState {
                last_modified: match &p.last_modified {
                    Some(s) => Some(s.clone()),
                    None => None,
                },
                last_byte: p.last_byte,
                last_count: p.last_count,
                full_reload: false,
            },
            None => FetchState::default(),
        };
        return Ok((Vec::new(), state));
    }
    if !(200 <= status && status <= 299) {
        return Err(AppError::Network(concat_str("rawmode returned ", status_text)));
    }
    let text = BoardEncoding::EucJp.decode(body)?;
    let posts = parse_shitaraba_dat(text.as_str());
    let last_n: u32 = match prev {
        Some(p) => p.last_count,
        None => 0,
    };
    let last_count = if posts.len() > 0 {
        assert(posts_view(posts@).last() == posts@[posts@.len() - 1]@);
        posts[posts.len() - 1].number
    } else {
        last_n
    };
    let whole = last_n == 0;
    Ok((posts, FetchState { last_modified, last_byte: 0, last_count, full_reload: whole }))
}

/// A field of the post form: EUC-JP bytes, percent-encoded.
pub open spec fn form_value(s: Seq<char>) -> Seq<char> {
    percent_encoded(encoded_bytes(BoardEncoding::EucJp, s))
}

/// The body of a `write.cgi` post.
pub open spec fn shitaraba_form_body(cat: Seq<char>, board: Seq<char>, key: Seq<char>, req: PostRequest, time: u64) -> Seq<char> {
    "DIR="@ + form_value(cat) + "&BBS="@ + form_value(board) + "&KEY="@ + form_value(key) + "&NAME="@ + form_value(
        req.name@,
    ) + "&MAIL="@ + form_value(req.mail@) + "&MESSAGE="@ + form_value(req.body@) + "&TIME="@ + decimal(
        time as nat,
    ) + "&submit="@ + form_value("書き込む"@)
}

fn push_form_value(v: &mut Vec<char>, s: &str)
    ensures
        final(v)@ == old(v)@ + form_value(s@),
{
    let bytes = BoardEncoding::EucJp.encode(s);
    let e = percent_encode(bytes.as_slice());
    push_str(v, e.as_str());
}

/// The post of `req` to the thread of `thread_url`, made at UNIX time
/// `time`: sent to the board's `write.cgi` with the board as referer.
pub fn post_form(thread_url: &str, req: &PostRequest, time: u64) -> (r: Result<PostForm, AppError>)
    ensures
        match shitaraba_parts(thread_url@) {
            Some(p) => match p.key {
                Some(k) => (r matches Ok(f) && f.url@ == write_url_of(p.category, p.board_id) && f.referer@
                    == "https://jbbs.shitaraba.net/"@ + p.category + "/"@ + p.board_id + "/"@ && f.body@
                    == shitaraba_form_body(p.category, p.board_id, k, *req, time)),
                None => (r matches Err(AppError::InvalidUrl(m)) && m@ == "missing thread key in: "@ + thread_url@),
            },
            None => (r matches Err(AppError::InvalidUrl(m)) && m@ == "not a shitaraba URL: "@ + thread_url@),
        },
{
    let loc = parse_loc(thread_url)?;
    let key = match &loc.key {
        Some(k) => k,
        None => return Err(AppError::InvalidUrl(concat_str("missing thread key in: ", thread_url))),
    };
    let url = write_url(&loc);
    let mut rv: Vec<char> = Vec::new();
    push_str(&mut rv, "https://jbbs.shitaraba.net/");
    push_str(&mut rv, loc.category.as_str());
    push_str(&mut rv, "/");
    push_str(&mut rv, loc.board_id.as_str());
    push_str(&mut rv, "/");
    let referer = string_of(rv.as_slice());
    let mut b: Vec<char> = Vec::new();
    push_str(&mut b, "DIR=");
    push_form_value(&mut b, loc.category.as_str());
    push_str(&mut b, "&BBS=");
    push_form_value(&mut b, loc.board_id.as_str());
    push_str(&mut b, "&KEY=");
    push_form_value(&mut b, key.as_str());
    push_str(&mut b, "&NAME=");
    push_form_value(&mut b, req.name.as_str());
    push_str(&mut b, "&MAIL=");
    push_form_value(&mut b, req.mail.as_str());
    push_str(&mut b, "&MESSAGE=");
    push_form_value(&mut b, req.body.as_str());
    push_str(&mut b, "&TIME=");
    let t = decimal_exec(time);
    push_all(&mut b, t.as_slice());
    push_str(&mut b, "&submit=");
    push_form_value(&mut b, "書き込む");
    Ok(PostForm { url, referer, body: string_of(b.as_slice()) })
}

/// The refusal when the repeated post still meets the cookie confirmation.
pub open spec fn cookie_confirm_refusal() -> Seq<char> {
    "Cookie 確認画面が返ってきました (ブラウザで一度書き込んで確認画面を抜けてください)"@
}

/// What the outcome `o` of the `first` (or the repeated) answer of
/// `write.cgi` leads to: a cookie confirmation (`RESULT::CHECK` among
/// them) on the first answer sends the same form again, the cookie jar now
/// holding the board's cookies; on the repeated one it is a refusal.
pub open spec fn post_step_is(r: PostStep, o: OutcomeV, first: bool) -> bool {
    match o {
        OutcomeV::Success => r matches PostStep::Finished(Ok(())),
        OutcomeV::Regulated(s) => r matches PostStep::Finished(Err(AppError::BoardRegulated(m))) && m@ == s,
        OutcomeV::Other(s) => r matches PostStep::Finished(Err(AppError::PostRejected(m))) && m@ == s,
        OutcomeV::NeedsCookieConfirm => if first {
            r is Resend
        } else {
            r matches PostStep::Finished(Err(AppError::PostRejected(m))) && m@ == cookie_confirm_refusal()
        },
    }
}

/// The next move after `write.cgi` answered with `body` (EUC-JP), on the
/// `first` post or on the repeated one. A post is never finished as a
/// success on a confirmation answer.
pub fn post_reply(first: bool, body: &[u8]) -> (r: PostStep)
    ensures
        post_step_is(r, shitaraba_outcome(decoded_text(BoardEncoding::EucJp, body@)), first),
{
    let text = match BoardEncoding::EucJp.decode(body) {
        Ok(t) => t,
        Err(_) => String::new(),
    };
    match classify_shitaraba(text.as_str()) {
        PostOutcome::Success => PostStep::Finished(Ok(())),
        PostOutcome::NeedsCookieConfirm => if first {
            PostStep::Resend
        } else {
            PostStep::Finished(
                Err(
                    AppError::PostRejected(
                        String::from_str("Cookie 確認画面が返ってきました (ブラウザで一度書き込んで確認画面を抜けてください)"),
                    ),
                ),
            )
        },
        PostOutcome::Rejected(kind) => PostStep::Finished(Err(kind.into_error())),
    }
}

/// Every field of the post form carries the text's EUC-JP bytes:
/// percent-decoding the field gives exactly those bytes back.
pub proof fn law_form_fields_are_euc_jp(text: Seq<char>)
    ensures
        crate::bbs::encoding::percent_decoded(form_value(text)) == Some(
            encoded_bytes(BoardEncoding::EucJp, text),
        ),
{
    crate::bbs::encoding::law_percent_encoding(encoded_bytes(BoardEncoding::EucJp, text));
}

} // verus!
