//! The FLV relay for real-time playback in the browser.

use vstd::prelude::*;
use crate::server::error::ApiError;
use crate::server::hls::{strip_suffix_exec, strip_suffix_once};
use crate::text::{chars_of, is_ascii_alnum, is_ascii_alnum_exec};
use crate::util::errors::concat_str;

verus! {

/// The channel id of an FLV request (a final `.flv` is dropped): it must
/// be non-empty ASCII letters and digits, else 400 `invalid_channel_id`.
pub fn flv_channel_id(raw: &str) -> (r: Result<String, ApiError>)
    ensures
        ({
            let id = strip_suffix_once(raw@, ".flv"@);
            if id.len() > 0 && forall|i: int| 0 <= i < id.len() ==> is_ascii_alnum(#[trigger] id[i]) {
                r matches Ok(s) && s@ == id
            } else {
                r matches Err(e) && e.status == 400 && e.code@ == "invalid_channel_id"@ && e.message@
                    == "不正な channel_id: "@ + id
            }
        }),
{
    let id = strip_suffix_exec(raw, ".flv");
    let v = chars_of(id.as_str());
    let mut ok = v.len() > 0;
    let mut i: usize = 0;
    while i < v.len()
        invariant
            i <= v@.len(),
            v@ == id@,
            ok ==> v@.len() > 0,
            ok ==> forall|k: int| 0 <= k < i ==> is_ascii_alnum(#[trigger] v@[k]),
            !ok ==> !(v@.len() > 0 && forall|k: int| 0 <= k < v@.len() ==> is_ascii_alnum(#[trigger] v@[k])),
        decreases v@.len() - i,
    {
        if !is_ascii_alnum_exec(v[i]) {
            ok = false;
        }
        i += 1;
    }
    if !ok {
        return Err(ApiError { status: 400, code: "invalid_channel_id", message: concat_str("不正な channel_id: ", id.as_str()) });
    }
    Ok(id)
}

} // verus!
