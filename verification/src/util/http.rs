//! HTTP settings shared by the clients.

use vstd::prelude::*;

verus! {

/// Version of this library, used in the `User-Agent`.
pub const PKG_VERSION: &'static str = "0.1.0";

/// Default PeerCast request timeout in seconds.
pub const DEFAULT_TIMEOUT_SECS: u64 = 5;

/// `PSTPlayer/{version}`.
pub fn user_agent() -> (r: String)
    ensures
        r@ == "PSTPlayer/"@ + PKG_VERSION@,
{
    crate::util::errors::concat_str("PSTPlayer/", PKG_VERSION)
}

/// The timeout to use for a configured value: values in `1..=600` are kept,
/// anything else falls back to [`DEFAULT_TIMEOUT_SECS`].
pub fn clamp_peercast_timeout_secs(secs: u64) -> (r: u64)
    ensures
        r == (if 1 <= secs <= 600 {
            secs
        } else {
            DEFAULT_TIMEOUT_SECS
        }),
{
    if 1 <= secs && secs <= 600 {
        secs
    } else {
        DEFAULT_TIMEOUT_SECS
    }
}

/// The `User-Agent` of cookie-keeping BBS clients:
/// `Monazilla/1.00 PSTPlayer/{version}`.
pub fn bbs_user_agent() -> (r: String)
    ensures
        r@ == "Monazilla/1.00 "@ + "PSTPlayer/"@ + PKG_VERSION@,
{
    let ua = user_agent();
    crate::util::errors::concat_str("Monazilla/1.00 ", ua.as_str())
}

} // verus!
