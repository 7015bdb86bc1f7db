//! The error type shared by every layer.

use vstd::prelude::*;

verus! {

/// What can go wrong in the core.
#[derive(Debug, Clone, PartialEq, Eq)]
pub enum AppError {
    InvalidUrl(String),
    /// Generic network failure (timeout / TLS / DNS ...).
    Network(String),
    /// The PeerCast node cannot be reached at all.
    PeerCastUnreachable(String),
    /// The thread is gone (404 / 410).
    ThreadGone(String),
    /// The board refused a post because of a regulation.
    BoardRegulated(String),
    /// The board refused a post for another reason.
    PostRejected(String),
    Decode(String),
    NotImplemented(&'static str),
}

pub type AppResult<T> = Result<T, AppError>;

/// The user-facing text of an error.
pub open spec fn app_error_message(e: AppError) -> Seq<char> {
    match e {
        AppError::InvalidUrl(s) => "invalid URL: "@ + s@,
        AppError::Network(s) => "network error: "@ + s@,
        AppError::PeerCastUnreachable(s) => "PeerCast に接続できません: "@ + s@,
        AppError::ThreadGone(s) => "スレッドが見つかりません: "@ + s@,
        AppError::BoardRegulated(s) => "書き込みが規制されました: "@ + s@,
        AppError::PostRejected(s) => "書き込みが拒否されました: "@ + s@,
        AppError::Decode(s) => "decode error: "@ + s@,
        AppError::NotImplemented(s) => "not implemented: "@ + s@,
    }
}

/// The machine-readable code of an error.
pub open spec fn app_error_code(e: AppError) -> Seq<char> {
    match e {
        AppError::InvalidUrl(_) => "invalid_url"@,
        AppError::Network(_) => "network"@,
        AppError::PeerCastUnreachable(_) => "peercast_unreachable"@,
        AppError::ThreadGone(_) => "thread_gone"@,
        AppError::BoardRegulated(_) => "board_regulated"@,
        AppError::PostRejected(_) => "post_rejected"@,
        AppError::Decode(_) => "decode"@,
        AppError::NotImplemented(_) => "not_implemented"@,
    }
}

/// `prefix` followed by `rest`, as a new `String`.
pub fn concat_str(prefix: &str, rest: &str) -> (r: String)
    ensures
        r@ == prefix@ + rest@,
{
    let mut r = String::from_str(prefix);
    r.append(rest);
    r
}

impl AppError {
    /// The user-facing text of the error.
    pub fn message(&self) -> (r: String)
        ensures
            r@ == app_error_message(*self),
    {
        match self {
            AppError::InvalidUrl(s) => concat_str("invalid URL: ", s.as_str()),
            AppError::Network(s) => concat_str("network error: ", s.as_str()),
            AppError::PeerCastUnreachable(s) => concat_str("PeerCast に接続できません: ", s.as_str()),
            AppError::ThreadGone(s) => concat_str("スレッドが見つかりません: ", s.as_str()),
            AppError::BoardRegulated(s) => concat_str("書き込みが規制されました: ", s.as_str()),
            AppError::PostRejected(s) => concat_str("書き込みが拒否されました: ", s.as_str()),
            AppError::Decode(s) => concat_str("decode error: ", s.as_str()),
            AppError::NotImplemented(s) => concat_str("not implemented: ", *s),
        }
    }

    /// Re-labels a failure to reach a server as a BBS connection failure:
    /// `PeerCastUnreachable(m)` becomes `Network("BBS サーバに接続できません: " + m)`,
    /// every other error is returned unchanged.
    pub fn for_bbs(self) -> (r: AppError)
        ensures
            match self {
                AppError::PeerCastUnreachable(m) => r matches AppError::Network(n) && n@
                    == "BBS サーバに接続できません: "@ + m@,
                _ => r == self,
            },
    {
        match self {
            AppError::PeerCastUnreachable(m) => AppError::Network(
                concat_str("BBS サーバに接続できません: ", m.as_str()),
            ),
            other => other,
        }
    }
}

/// The serialisable form of an error handed to a user interface.
#[derive(Debug, Clone)]
pub struct IpcError {
    pub code: &'static str,
    pub message: String,
}

impl IpcError {
    /// Code and message of an [`AppError`].
    pub fn from_app_error(e: AppError) -> (r: IpcError)
        ensures
            r.code@ == app_error_code(e),
            r.message@ == app_error_message(e),
    {
        let message = e.message();
        let code: &'static str = match e {
            AppError::InvalidUrl(_) => "invalid_url",
            AppError::Network(_) => "network",
            AppError::PeerCastUnreachable(_) => "peercast_unreachable",
            AppError::ThreadGone(_) => "thread_gone",
            AppError::BoardRegulated(_) => "board_regulated",
            AppError::PostRejected(_) => "post_rejected",
            AppError::Decode(_) => "decode",
            AppError::NotImplemented(_) => "not_implemented",
        };
        IpcError { code, message }
    }
}

} // verus!
