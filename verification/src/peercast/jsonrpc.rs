//! The JSON-RPC 2.0 interface of PeerCastStation (`/api/1`): where calls
//! go and what an answer means. Encoding and decoding the JSON is left to
//! the caller.

use vstd::prelude::*;
use crate::peercast::types::{PeerCastEndpoint, base_url_of};
use crate::text::{decimal, decimal_exec, push_all, push_str, string_of};
use crate::util::errors::AppError;

verus! {

/// `{base}/api/1`.
pub fn rpc_url(endpoint: &PeerCastEndpoint) -> (r: String)
    ensures
        r@ == base_url_of(endpoint.host@, endpoint.port) + "/api/1"@,
{
    let mut u = endpoint.base_url();
    u.append("/api/1");
    u
}

/// A signed integer in decimal, as `Display` writes it.
pub open spec fn signed_decimal(n: int) -> Seq<char> {
    if n < 0 {
        "-"@ + decimal((-n) as nat)
    } else {
        decimal(n as nat)
    }
}

fn signed_decimal_exec(n: i32) -> (r: Vec<char>)
    ensures
        r@ == signed_decimal(n as int),
{
    let mut v: Vec<char> = Vec::new();
    let wide: i64 = n as i64;
    if wide < 0 {
        push_str(&mut v, "-");
        let d = decimal_exec((0 - wide) as u64);
        push_all(&mut v, d.as_slice());
    } else {
        let d = decimal_exec(wide as u64);
        push_all(&mut v, d.as_slice());
    }
    v
}

/// What an answer with `error` (its code and message) and with or without
/// a `result` means: an error is `Network("JSON-RPC error {code}:
/// {message}")`; no result either is a `Decode` error; otherwise the call
/// succeeded.
pub fn rpc_outcome(error: Option<(i32, String)>, has_result: bool) -> (r: Result<(), AppError>)
    ensures
        match error {
            Some((code, message)) => (r matches Err(AppError::Network(m)) && m@ == "JSON-RPC error "@
                + signed_decimal(code as int) + ": "@ + message@),
            None => if has_result {
                r is Ok
            } else {
                r matches Err(AppError::Decode(m)) && m@ == "JSON-RPC response had neither result nor error"@
            },
        },
{
    match error {
        Some((code, message)) => {
            let mut v: Vec<char> = Vec::new();
            push_str(&mut v, "JSON-RPC error ");
            let d = signed_decimal_exec(code);
            push_all(&mut v, d.as_slice());
            push_str(&mut v, ": ");
            push_str(&mut v, message.as_str());
            Err(AppError::Network(string_of(v.as_slice())))
        },
        None => if has_result {
            Ok(())
        } else {
            Err(AppError::Decode(String::from_str("JSON-RPC response had neither result nor error")))
        },
    }
}

} // verus!
