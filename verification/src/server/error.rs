//! The errors the HTTP API answers with.

use vstd::prelude::*;
use crate::util::errors::{AppError, app_error_message};

verus! {

/// An error answer: the HTTP status, a machine-readable code and a message.
#[derive(Debug, Clone)]
pub struct ApiError {
    pub status: u16,
    pub code: &'static str,
    pub message: String,
}

/// The status and code an [`AppError`] is answered with.
pub open spec fn api_status_code(e: AppError) -> (u16, Seq<char>) {
    match e {
        AppError::InvalidUrl(_) => (400, "invalid_url"@),
        AppError::PeerCastUnreachable(_) => (502, "peercast_unreachable"@),
        AppError::ThreadGone(_) => (404, "thread_gone"@),
        AppError::BoardRegulated(_) => (403, "board_regulated"@),
        AppError::PostRejected(_) => (422, "post_rejected"@),
        AppError::Network(_) => (502, "network"@),
        AppError::Decode(_) => (500, "decode"@),
        AppError::NotImplemented(_) => (501, "not_implemented"@),
    }
}

impl ApiError {
    /// The answer to a core error: status and code by its kind, its text as
    /// the message.
    pub fn from_app_error(e: AppError) -> (r: ApiError)
        ensures
            (r.status, r.code@) == api_status_code(e),
            r.message@ == app_error_message(e),
    {
        let message = e.message();
        let (status, code): (u16, &'static str) = match e {
            AppError::InvalidUrl(_) => (400, "invalid_url"),
            AppError::PeerCastUnreachable(_) => (502, "peercast_unreachable"),
            AppError::ThreadGone(_) => (404, "thread_gone"),
            AppError::BoardRegulated(_) => (403, "board_regulated"),
            AppError::PostRejected(_) => (422, "post_rejected"),
            AppError::Network(_) => (502, "network"),
            AppError::Decode(_) => (500, "decode"),
            AppError::NotImplemented(_) => (501, "not_implemented"),
        };
        ApiError { status, code, message }
    }
}

pub type ApiResult<T> = Result<T, ApiError>;

} // verus!
