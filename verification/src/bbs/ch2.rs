//! 2ch-compatible boards (5ch, jpnkn, ...): the URLs of a board, the
//! incremental dat fetch and the two-round post through `bbs.cgi`, as
//! decisions on the answers the board gives. The HTTP exchanges themselves
//! are made by the caller.

use vstd::prelude::*;
use crate::bbs::encoding::{BoardEncoding, decoded_text, encoded_bytes, percent_encode, percent_encoded};
use crate::bbs::parse::{ch2_posts, parse_ch2_dat};
use crate::bbs::post_result::{OutcomeV, PostOutcome, ch2_outcome, classify_ch2};
use crate::bbs::types::{FetchState, Post, PostRequest, PostV, posts_view};
use crate::bbs::url::{Ch2UrlV, ch2_parts, parse_ch2};
use crate::text::{chars_of, decimal, decimal_exec, lines, lines_exec, push_all, push_str, string_of};
use crate::util::errors::{AppError, concat_str};

verus! {

/// `{scheme}://{host}/{board}/subject.txt`.
pub open spec fn subject_url_of(scheme: Seq<char>, host: Seq<char>, board: Seq<char>) -> Seq<char> {
    scheme + "://"@ + host + "/"@ + board + "/subject.txt"@
}

/// `{scheme}://{host}/{board}/dat/{key}.dat`.
pub open spec fn dat_url_of(scheme: Seq<char>, host: Seq<char>, board: Seq<char>, key: Seq<char>) -> Seq<char> {
    scheme + "://"@ + host + "/"@ + board + "/dat/"@ + key + ".dat"@
}

/// `{scheme}://{host}/test/bbs.cgi`.
pub open spec fn write_url_of(scheme: Seq<char>, host: Seq<char>) -> Seq<char> {
    scheme + "://"@ + host + "/test/bbs.cgi"@
}

/// `{scheme}://{host}/{board}/SETTING.TXT`.
pub open spec fn setting_url_of(scheme: Seq<char>, host: Seq<char>, board: Seq<char>) -> Seq<char> {
    scheme + "://"@ + host + "/"@ + board + "/SETTING.TXT"@
}

/// The board's thread list.
pub fn subject_url(scheme: &str, host: &str, board: &str) -> (r: String)
    ensures
        r@ == subject_url_of(scheme@, host@, board@),
{
    let mut v: Vec<char> = Vec::new();
    push_str(&mut v, scheme);
    push_str(&mut v, "://");
    push_str(&mut v, host);
    push_str(&mut v, "/");
    push_str(&mut v, board);
    push_str(&mut v, "/subject.txt");
    string_of(v.as_slice())
}

/// A thread's dat file.
pub fn dat_url(scheme: &str, host: &str, board: &str, key: &str) -> (r: String)
    ensures
        r@ == dat_url_of(scheme@, host@, board@, key@),
{
    let mut v: Vec<char> = Vec::new();
    push_str(&mut v, scheme);
    push_str(&mut v, "://");
    push_str(&mut v, host);
    push_str(&mut v, "/");
    push_str(&mut v, board);
    push_str(&mut v, "/dat/");
    push_str(&mut v, key);
    push_str(&mut v, ".dat");
    string_of(v.as_slice())
}

/// The post endpoint of a host.
pub fn write_url(scheme: &str, host: &str) -> (r: String)
    ensures
        r@ == write_url_of(scheme@, host@),
{
    let mut v: Vec<char> = Vec::new();
    push_str(&mut v, scheme);
    push_str(&mut v, "://");
    push_str(&mut v, host);
    push_str(&mut v, "/test/bbs.cgi");
    string_of(v.as_slice())
}

/// The board's `SETTING.TXT`.
pub fn setting_url(scheme: &str, host: &str, board: &str) -> (r: String)
    ensures
        r@ == setting_url_of(scheme@, host@, board@),
{
    let mut v: Vec<char> = Vec::new();
    push_str(&mut v, scheme);
    push_str(&mut v, "://");
    push_str(&mut v, host);
    push_str(&mut v, "/");
    push_str(&mut v, board);
    push_str(&mut v, "/SETTING.TXT");
    string_of(v.as_slice())
}

/// The parts of a 2ch-compatible URL, or `InvalidUrl("not a 2ch URL: ...")`.
pub open spec fn board_of(u: Seq<char>) -> Result<Ch2UrlV, Seq<char>> {
    match ch2_parts(u) {
        Some(p) => Ok(p),
        None => Err("not a 2ch URL: "@ + u),
    }
}

/// The parts of a 2ch-compatible thread URL with its key, or the message of
/// the `InvalidUrl` error.
pub open spec fn thread_of(u: Seq<char>) -> Result<(Ch2UrlV, Seq<char>), Seq<char>> {
    match ch2_parts(u) {
        Some(p) => match p.key {
            Some(k) => Ok((p, k)),
            None => Err("missing thread key in: "@ + u),
        },
        None => Err("not a 2ch URL: "@ + u),
    }
}

/// The URL of a board's `SETTING.TXT`.
pub fn board_setting_url(board_url: &str) -> (r: Result<String, AppError>)
    ensures
        match board_of(board_url@) {
            Ok(p) => (r matches Ok(s) && s@ == setting_url_of(p.scheme, p.host, p.board)),
            Err(m) => (r matches Err(AppError::InvalidUrl(x)) && x@ == m),
        },
{
    match parse_ch2(board_url) {
        Some(u) => Ok(setting_url(u.scheme.as_str(), u.host.as_str(), u.board.as_str())),
        None => Err(AppError::InvalidUrl(concat_str("not a 2ch URL: ", board_url))),
    }
}

/// The URL of a board's `subject.txt`.
pub fn board_subject_url(board_url: &str) -> (r: Result<String, AppError>)
    ensures
        match board_of(board_url@) {
            Ok(p) => (r matches Ok(s) && s@ == subject_url_of(p.scheme, p.host, p.board)),
            Err(m) => (r matches Err(AppError::InvalidUrl(x)) && x@ == m),
        },
{
    match parse_ch2(board_url) {
        Some(u) => Ok(subject_url(u.scheme.as_str(), u.host.as_str(), u.board.as_str())),
        None => Err(AppError::InvalidUrl(concat_str("not a 2ch URL: ", board_url))),
    }
}

// ------------------------------------------------------------ dat fetch

/// Whether the answer to a ranged request (which asked again for the
/// last byte already held, a `\n`) joins what is held.
#[derive(Debug)]
pub enum OverlapCheck {
    /// It joins; what follows the `\n` is new (empty: nothing new).
    Continued(Vec<u8>),
    /// It does not join: the dat was rebuilt and has to be fetched whole.
    Rebuilt,
}

/// An empty answer counts as "nothing new"; one that starts with `\n`
/// joins; any other was rebuilt.
pub fn split_overlap(bytes: &[u8]) -> (r: OverlapCheck)
    ensures
        match r {
            OverlapCheck::Continued(rest) => (bytes@.len() == 0 && rest@ == bytes@) || (bytes@.len()
                > 0 && bytes@[0] == 10 && rest@ == bytes@.drop_first()),
            OverlapCheck::Rebuilt => bytes@.len() > 0 && bytes@[0] != 10,
        },
{
    if bytes.len() == 0 {
        return OverlapCheck::Continued(Vec::new());
    }
    if bytes[0] != 10 {
        return OverlapCheck::Rebuilt;
    }
    let mut rest: Vec<u8> = Vec::new();
    let mut i: usize = 1;
    while i < bytes.len()
        invariant
            1 <= i <= bytes@.len(),
            rest@ == bytes@.subrange(1, i as int),
        decreases bytes@.len() - i,
    {
        rest.push(bytes[i]);
        assert(bytes@.subrange(1, i + 1) =~= bytes@.subrange(1, i as int).push(bytes@[i as int]));
        i += 1;
    }
    assert(rest@ =~= bytes@.drop_first());
    OverlapCheck::Continued(rest)
}

/// The request that fetches a thread's dat.
#[derive(Debug, Clone)]
pub struct DatRequest {
    pub url: String,
    /// Sent as `If-Modified-Since`.
    pub if_modified_since: Option<String>,
    /// Sent as `Range: bytes={range_from}-`.
    pub range_from: Option<u64>,
}

pub open spec fn opt_text(o: Option<String>) -> Option<Seq<char>> {
    match o {
        Some(s) => Some(s@),
        None => None,
    }
}

/// The dat request for `thread_url` after `prev`: the `Last-Modified` held
/// goes back as `If-Modified-Since`; when bytes are held, the range asks
/// again for the last of them (a `\n`) so the answer shows whether it joins.
pub fn dat_request(thread_url: &str, prev: Option<&FetchState>) -> (r: Result<DatRequest, AppError>)
    ensures
        match thread_of(thread_url@) {
            Ok((p, k)) => (r matches Ok(q) && q.url@ == dat_url_of(p.scheme, p.host, p.board, k)
                && opt_text(q.if_modified_since) == match prev {
                Some(s) => opt_text(s.last_modified),
                None => None,
            } && q.range_from == match prev {
                Some(s) => if s.last_byte > 0 {
                    Some((s.last_byte - 1) as u64)
                } else {
                    None
                },
                None => None,
            }),
            Err(m) => (r matches Err(AppError::InvalidUrl(x)) && x@ == m),
        },
{
    let u = match parse_ch2(thread_url) {
        Some(u) => u,
        None => return Err(AppError::InvalidUrl(concat_str("not a 2ch URL: ", thread_url))),
    };
    let key = match &u.key {
        Some(k) => k,
        None => return Err(AppError::InvalidUrl(concat_str("missing thread key in: ", thread_url))),
    };
    let url = dat_url(u.scheme.as_str(), u.host.as_str(), u.board.as_str(), key.as_str());
    let (if_modified_since, range_from) = match prev {
        Some(p) => {
            let ims = match &p.last_modified {
                Some(lm) => Some(lm.clone()),
                None => None,
            };
            let range = if p.last_byte > 0 {
                Some(p.last_byte - 1)
            } else {
                None
            };
            (ims, range)
        },
        None => (None, None),
    };
    Ok(DatRequest { url, if_modified_since, range_from })
}

/// The posts of an increment, renumbered after the `prev_count` held.
pub open spec fn renumbered(posts: Seq<PostV>, prev_count: u32) -> Seq<PostV> {
    posts.map_values(
        |p: PostV|
            PostV {
                number: if p.number + prev_count > u32::MAX {
                    u32::MAX
                } else {
                    (p.number + prev_count) as u32
                },
                ..p
            },
    )
}

proof fn lemma_ch2_posts_len(ls: Seq<Seq<char>>)
    ensures
        ch2_posts(ls).len() <= ls.len(),
    decreases ls.len(),
{
    if ls.len() > 0 {
        lemma_ch2_posts_len(ls.drop_last());
    }
}

/// What was held before a fetch.
pub open spec fn prev_count_of(prev: Option<&FetchState>) -> u32 {
    match prev {
        Some(p) => p.last_count,
        None => 0,
    }
}

pub open spec fn prev_byte_of(prev: Option<&FetchState>) -> u64 {
    match prev {
        Some(p) => p.last_byte,
        None => 0,
    }
}

/// The next move of a dat fetch.
#[derive(Debug)]
pub enum DatStep {
    /// The fetch is over: these posts (to append, or to replace what is held
    /// when the state says `full_reload`) and the state to keep.
    Done(Vec<Post>, FetchState),
    /// Fetch the whole dat again, without any state.
    Refetch,
    Failed(AppError),
}

/// The state after an answer.
pub open spec fn state_is(s: FetchState, lm: Option<Seq<char>>, last_byte: int, last_count: int, full: bool) -> bool {
    opt_text(s.last_modified) == lm && s.last_byte == last_byte && s.last_count == last_count && s.full_reload
        == full
}

/// The decoded dat text of an answer is small enough to number its posts
/// (and, for an increment, to count them after the ones held).
pub open spec fn dat_fits(text: Seq<char>, prev_count: u32, partial: bool) -> bool {
    lines(text).len() < u32::MAX && (partial ==> prev_count + lines(text).len() <= u32::MAX)
}

/// The 2xx statuses.
pub open spec fn is_success(status: u16) -> bool {
    200 <= status <= 299
}

/// The next move after the board answered a [`dat_request`] with `status`
/// (`status_text` is how the status reads, such as `404 Not Found`),
/// `last_modified` and `body`:
/// - 304: nothing new, the state held is kept (not a full reload);
/// - 416: fetch again from scratch;
/// - another non-2xx status: `Network("dat returned {status_text}")`;
/// - 206 to a ranged request: a body that does not start with `\n` means the
///   dat was rebuilt (fetch again); otherwise what follows is new, its posts
///   numbered after those held;
/// - any other 2xx: the whole thread, to replace what is held.
/// A body whose decoded text has too many lines to number is refused with
/// `Decode`.
pub fn dat_response(
    prev: Option<&FetchState>,
    status: u16,
    status_text: &str,
    last_modified: Option<String>,
    body: &[u8],
) -> (r: DatStep)
    requires
        prev_byte_of(prev) + body@.len() <= u64::MAX,
    ensures
        status == 304 ==> (r matches DatStep::Done(posts, s) && posts@.len() == 0 && match prev {
            Some(p) => state_is(s, opt_text(p.last_modified), p.last_byte as int, p.last_count as int, false),
            None => state_is(s, None, 0, 0, false),
        }),
        status == 416 ==> r is Refetch,
        status != 304 && status != 416 && !is_success(status) ==> (r matches DatStep::Failed(
            AppError::Network(m),
        ) && m@ == "dat returned "@ + status_text@),
        is_success(status) && status == 206 && prev_byte_of(prev) > 0 ==> ({
            let pc = prev_count_of(prev);
            let pb = prev_byte_of(prev);
            if body@.len() > 0 && body@[0] != 10 {
                r is Refetch
            } else if body@.len() <= 1 {
                r matches DatStep::Done(posts, s) && posts@.len() == 0 && state_is(
                    s,
                    opt_text(last_modified),
                    pb as int,
                    pc as int,
                    false,
                )
            } else {
                let text = decoded_text(BoardEncoding::ShiftJis, body@.drop_first());
                if dat_fits(text, pc, true) {
                    let ps = ch2_posts(lines(text));
                    r matches DatStep::Done(posts, s) && posts_view(posts@) == renumbered(ps, pc)
                        && state_is(s, opt_text(last_modified), pb + body@.len() - 1, pc + ps.len(), false)
                } else {
                    r matches DatStep::Failed(AppError::Decode(_))
                }
            }
        }),
        is_success(status) && !(status == 206 && prev_byte_of(prev) > 0) ==> ({
            let text = decoded_text(BoardEncoding::ShiftJis, body@);
            if dat_fits(text, 0, false) {
                let ps = ch2_posts(lines(text));
                r matches DatStep::Done(posts, s) && posts_view(posts@) == ps && state_is(
                    s,
                    opt_text(last_modified),
                    body@.len() as int,
                    ps.len() as int,
                    true,
                )
            } else {
                r matches DatStep::Failed(AppError::Decode(_))
            }
        }),
{
    let prev_count: u32 = match prev {
        Some(p) => p.last_count,
        None => 0,
    };
    let prev_byte: u64 = match prev {
        Some(p) => p.last_byte,
        None => 0,
    };
    if status == 304 {
        let state = match prev {
            Some(p) => FetchState {
                last_modified: match &p.last_modified {
                    Some(s) => Some(s.clone()),
                    None => None,
                },
                last_byte: p.last_byte,
                last_count: p.last_count,
                full_reload: false,
            },
            None => FetchState::default(),
        };
        return DatStep::Done(Vec::new(), state);
    }
    if status == 416 {
        return DatStep::Refetch;
    }
    if !(200 <= status && status <= 299) {
        return DatStep::Failed(AppError::Network(concat_str("dat returned ", status_text)));
    }
    if status == 206 && prev_byte > 0 {
        match split_overlap(body) {
            OverlapCheck::Rebuilt => {
                return DatStep::Refetch;
            },
            OverlapCheck::Continued(new_bytes) => {
                if new_bytes.len() == 0 {
                    let state = FetchState {
                        last_modified,
                        last_byte: prev_byte,
                        last_count: prev_count,
                        full_reload: false,
                    };
                    return DatStep::Done(Vec::new(), state);
                }
                let added: u64 = new_bytes.len() as u64;
                let text = match BoardEncoding::ShiftJis.decode(new_bytes.as_slice()) {
                    Ok(t) => t,
                    Err(e) => return DatStep::Failed(e),
                };
                let n_lines = lines_exec(chars_of(text.as_str()).as_slice()).len();
                if n_lines >= 0xffff_ffff || (n_lines as u64) > (0xffff_ffffu32 - prev_count) as u64 {
                    return DatStep::Failed(AppError::Decode(String::from_str("the thread has too many posts to count")));
                }
                let parsed = parse_ch2_dat(text.as_str());
                proof {
                    lemma_ch2_posts_len(lines(text@));
                }
                let ghost pv = posts_view(parsed@);
                let mut posts: Vec<Post> = Vec::new();
                let mut i: usize = 0;
                while i < parsed.len()
                    invariant
                        i <= parsed@.len(),
                        pv == posts_view(parsed@),
                        posts_view(posts@) == renumbered(pv.take(i as int), prev_count),
                    decreases parsed@.len() - i,
                {
                    let p = &parsed[i];
                    let q = Post {
                        number: p.number.saturating_add(prev_count),
                        name: p.name.clone(),
                        mail: p.mail.clone(),
                        date: p.date.clone(),
                        id: p.id.clone(),
                        body: p.body.clone(),
                        thread_title: p.thread_title.clone(),
                    };
                    let ghost before = posts@;
                    posts.push(q);
                    assert(pv[i as int] == p@);
                    assert(posts_view(posts@) =~= posts_view(before).push(q@));
                    assert(pv.take(i + 1) =~= pv.take(i as int).push(pv[i as int]));
                    assert(renumbered(pv.take(i + 1), prev_count)[i as int] == q@);
                    assert(posts_view(posts@) =~= renumbered(pv.take(i + 1), prev_count));
                    i += 1;
                }
                assert(pv.take(parsed@.len() as int) =~= pv);
                let count = prev_count + (posts.len() as u32);
                let state = FetchState {
                    last_modified,
                    last_byte: prev_byte + added,
                    last_count: count,
                    full_reload: false,
                };
                return DatStep::Done(posts, state);
            },
        }
    }
    let total: u64 = body.len() as u64;
    let text = match BoardEncoding::ShiftJis.decode(body) {
        Ok(t) => t,
        Err(e) => return DatStep::Failed(e),
    };
    let n_lines = lines_exec(chars_of(text.as_str()).as_slice()).len();
    if n_lines >= 0xffff_ffff {
        return DatStep::Failed(AppError::Decode(String::from_str("the thread has too many posts to count")));
    }
    let posts = parse_ch2_dat(text.as_str());
    proof {
        lemma_ch2_posts_len(lines(text@));
    }
    let count = posts.len() as u32;
    let state = FetchState { last_modified, last_byte: total, last_count: count, full_reload: true };
    DatStep::Done(posts, state)
}

// ------------------------------------------------------------ posting

/// A field of the post form: Shift_JIS bytes, percent-encoded.
pub open spec fn form_value(s: Seq<char>) -> Seq<char> {
    percent_encoded(encoded_bytes(BoardEncoding::ShiftJis, s))
}

/// The body of a `bbs.cgi` post.
pub open spec fn ch2_form_body(board: Seq<char>, key: Seq<char>, req: PostRequest, time: u64) -> Seq<char> {
    "bbs="@ + form_value(board) + "&key="@ + form_value(key) + "&FROM="@ + form_value(req.name@) + "&mail="@
        + form_value(req.mail@) + "&MESSAGE="@ + form_value(req.body@) + "&time="@ + decimal(time as nat)
        + "&submit="@ + form_value("書き込む"@)
}

/// What to send for a post.
#[derive(Debug, Clone)]
pub struct PostForm {
    pub url: String,
    pub referer: String,
    /// `application/x-www-form-urlencoded` body.
    pub body: String,
}

fn push_form_value(v: &mut Vec<char>, s: &str)
    ensures
        final(v)@ == old(v)@ + form_value(s@),
{
    let bytes = BoardEncoding::ShiftJis.encode(s);
    let e = percent_encode(bytes.as_slice());
    push_str(v, e.as_str());
}

/// The post of `req` to the thread of `thread_url`, made at UNIX time
/// `time`: sent to the host's `bbs.cgi` with the board as referer.
pub fn post_form(thread_url: &str, req: &PostRequest, time: u64) -> (r: Result<PostForm, AppError>)
    ensures
        match thread_of(thread_url@) {
            Ok((p, k)) => (r matches Ok(f) && f.url@ == write_url_of(p.scheme, p.host) && f.referer@ == "https://"@
                + p.host + "/"@ + p.board + "/"@ && f.body@ == ch2_form_body(p.board, k, *req, time)),
            Err(m) => (r matches Err(AppError::InvalidUrl(x)) && x@ == m),
        },
{
    let u = match parse_ch2(thread_url) {
        Some(u) => u,
        None => return Err(AppError::InvalidUrl(concat_str("not a 2ch URL: ", thread_url))),
    };
    let key = match &u.key {
        Some(k) => k,
        None => return Err(AppError::InvalidUrl(concat_str("missing thread key in: ", thread_url))),
    };
    let url = write_url(u.scheme.as_str(), u.host.as_str());
    let mut rv: Vec<char> = Vec::new();
    push_str(&mut rv, "https://");
    push_str(&mut rv, u.host.as_str());
    push_str(&mut rv, "/");
    push_str(&mut rv, u.board.as_str());
    push_str(&mut rv, "/");
    let referer = string_of(rv.as_slice());
    let mut b: Vec<char> = Vec::new();
    push_str(&mut b, "bbs=");
    push_form_value(&mut b, u.board.as_str());
    push_str(&mut b, "&key=");
    push_form_value(&mut b, key.as_str());
    push_str(&mut b, "&FROM=");
    push_form_value(&mut b, req.name.as_str());
    push_str(&mut b, "&mail=");
    push_form_value(&mut b, req.mail.as_str());
    push_str(&mut b, "&MESSAGE=");
    push_form_value(&mut b, req.body.as_str());
    push_str(&mut b, "&time=");
    let t = decimal_exec(time);
    push_all(&mut b, t.as_slice());
    push_str(&mut b, "&submit=");
    push_form_value(&mut b, "書き込む");
    Ok(PostForm { url, referer, body: string_of(b.as_slice()) })
}

/// The next move of a post.
#[derive(Debug)]
pub enum PostStep {
    Finished(Result<(), AppError>),
    /// Send the same form once more (the board set its cookies).
    Resend,
}

/// What the outcome `o` of the `first` (or the repeated) answer leads to.
pub open spec fn post_step_is(r: PostStep, o: OutcomeV, first: bool) -> bool {
    match o {
        OutcomeV::Success => r matches PostStep::Finished(Ok(())),
        OutcomeV::Regulated(s) => r matches PostStep::Finished(Err(AppError::BoardRegulated(m))) && m@ == s,
        OutcomeV::Other(s) => r matches PostStep::Finished(Err(AppError::PostRejected(m))) && m@ == s,
        OutcomeV::NeedsCookieConfirm => if first {
            r is Resend
        } else {
            r matches PostStep::Finished(Err(AppError::PostRejected(m))) && m@
                == "Cookie 確認の再送でも投稿が通りませんでした"@
        },
    }
}

/// The next move after `bbs.cgi` answered with `body` (Shift_JIS): a
/// cookie confirmation on the first answer sends the form again; on the
/// repeated one it is a refusal.
pub fn post_reply(first: bool, body: &[u8]) -> (r: PostStep)
    ensures
        post_step_is(r, ch2_outcome(decoded_text(BoardEncoding::ShiftJis, body@)), first),
{
    let text = match BoardEncoding::ShiftJis.decode(body) {
        Ok(t) => t,
        Err(_) => String::new(),
    };
    match classify_ch2(text.as_str()) {
        PostOutcome::Success => PostStep::Finished(Ok(())),
        PostOutcome::Rejected(kind) => PostStep::Finished(Err(kind.into_error())),
        PostOutcome::NeedsCookieConfirm => if first {
            PostStep::Resend
        } else {
            PostStep::Finished(
                Err(AppError::PostRejected(String::from_str("Cookie 確認の再送でも投稿が通りませんでした"))),
            )
        },
    }
}

/// Every field of the post form carries the text's Shift_JIS bytes:
/// percent-decoding the field gives exactly those bytes back.
pub proof fn law_form_fields_are_shift_jis(text: Seq<char>)
    ensures
        crate::bbs::encoding::percent_decoded(form_value(text)) == Some(
            encoded_bytes(BoardEncoding::ShiftJis, text),
        ),
{
    crate::bbs::encoding::law_percent_encoding(encoded_bytes(BoardEncoding::ShiftJis, text));
}

} // verus!
