//! The bodies and queries of the HTTP API, and the small decisions its
//! handlers make.

use vstd::prelude::*;
use crate::bbs::parse::SubjectEntry;
use crate::bbs::types::{BoardKind, FetchState, Post};
use crate::peercast::types::ChannelRecord;
use crate::peercast::yp::YpEntry;
use crate::server::error::ApiError;
use crate::util::errors::concat_str;

verus! {

#[derive(Debug, Clone)]
pub struct ChannelsResp {
    pub channels: Vec<ChannelRecord>,
}

#[derive(Debug, Clone)]
pub struct Empty {}

#[derive(Debug, Clone)]
pub struct YpQuery {
    /// The `index.txt` to read; without one the answer is empty.
    pub url: Option<String>,
}

#[derive(Debug, Clone)]
pub struct YpResp {
    pub entries: Vec<YpEntry>,
}

#[derive(Debug, Clone)]
pub struct BoardQuery {
    pub url: String,
}

#[derive(Debug, Clone)]
pub struct ThreadsResp {
    pub kind: Option<BoardKind>,
    pub threads: Vec<SubjectEntry>,
}

#[derive(Debug, Clone)]
pub struct ThreadQuery {
    pub url: String,
    pub last_count: Option<u32>,
    pub last_byte: Option<u64>,
    pub last_modified: Option<String>,
}

#[derive(Debug, Clone)]
pub struct ThreadResp {
    pub kind: Option<BoardKind>,
    pub posts: Vec<Post>,
    pub state: FetchState,
}

#[derive(Debug, Clone)]
pub struct PostBody {
    pub url: String,
    pub name: String,
    pub mail: String,
    pub body: String,
}

#[derive(Debug, Clone)]
pub struct RecordStart {
    pub id: String,
    pub name: String,
}

#[derive(Debug, Clone)]
pub struct RecordStop {
    /// Without an id every recording stops.
    pub id: Option<String>,
}

#[derive(Debug, Clone)]
pub struct RecordStopResp {
    pub stopped: usize,
}

#[derive(Debug, Clone)]
pub struct ConfigPathResp {
    pub path: String,
}

/// The state a thread query continues from: none when the query names no
/// count, byte offset or `Last-Modified`; otherwise the given values (0
/// for the missing numbers), not a full reload.
pub fn prev_state(q: &ThreadQuery) -> (r: Option<FetchState>)
    ensures
        q.last_count is None && q.last_byte is None && q.last_modified is None ==> r is None,
        !(q.last_count is None && q.last_byte is None && q.last_modified is None) ==> (r matches Some(s)
            && s.last_count == (match q.last_count {
            Some(c) => c,
            None => 0,
        }) && s.last_byte == (match q.last_byte {
            Some(b) => b,
            None => 0,
        }) && s.last_modified == q.last_modified && !s.full_reload),
{
    if q.last_count.is_none() && q.last_byte.is_none() && q.last_modified.is_none() {
        return None;
    }
    Some(
        FetchState {
            last_count: match q.last_count {
                Some(c) => c,
                None => 0,
            },
            last_byte: match q.last_byte {
                Some(b) => b,
                None => 0,
            },
            last_modified: q.last_modified.clone(),
            full_reload: false,
        },
    )
}

/// The answer to a URL that is no supported board: 400 `invalid_url`.
pub fn unsupported_bbs_url(url: &str) -> (r: ApiError)
    ensures
        r.status == 400,
        r.code@ == "invalid_url"@,
        r.message@ == "not a supported BBS URL: "@ + url@,
{
    ApiError { status: 400, code: "invalid_url", message: concat_str("not a supported BBS URL: ", url) }
}

/// The answer when a new configuration could not be saved: 500
/// `config_save_failed` with the cause.
pub fn config_save_failed(cause: &str) -> (r: ApiError)
    ensures
        r.status == 500,
        r.code@ == "config_save_failed"@,
        r.message@ == cause@,
{
    ApiError { status: 500, code: "config_save_failed", message: String::from_str(cause) }
}

} // verus!
