//! Values that describe a PeerCast node and its channels.

use vstd::prelude::*;
use crate::text::{all_digits, ascii_lower_seq, ascii_lower_seq_exec, chars_of, decimal, decimal_exec, digit_val, push_all, push_str, string_of};

verus! {

/// HTTP Basic credentials for a PeerCast node.
#[derive(Debug, Clone, PartialEq, Eq)]
pub struct BasicAuth {
    pub user: String,
    pub pass: String,
}

/// Where a PeerCast node listens.
#[derive(Debug, Clone, PartialEq, Eq)]
pub struct PeerCastEndpoint {
    pub host: String,
    pub port: u16,
    pub auth: Option<BasicAuth>,
}

/// `http://{host}:{port}`.
pub open spec fn base_url_of(host: Seq<char>, port: u16) -> Seq<char> {
    "http://"@ + host + ":"@ + decimal(port as nat)
}

impl PeerCastEndpoint {
    /// The root URL of the node, `http://{host}:{port}`.
    pub fn base_url(&self) -> (r: String)
        ensures
            r@ == base_url_of(self.host@, self.port),
    {
        let mut v: Vec<char> = Vec::new();
        push_str(&mut v, "http://");
        push_str(&mut v, self.host.as_str());
        push_str(&mut v, ":");
        let d = decimal_exec(self.port as u64);
        push_all(&mut v, d.as_slice());
        string_of(v.as_slice())
    }
}

/// Exactly 32 hexadecimal digits.
pub open spec fn is_channel_id_text(s: Seq<char>) -> bool {
    s.len() == 32 && all_digits(s, 16)
}

/// A channel id: 32 hexadecimal digits, kept in lower case.
#[derive(Debug, Clone, PartialEq, Eq)]
pub struct ChannelId {
    id: String,
}

/// The message of a rejected channel id.
pub open spec fn channel_id_error() -> Seq<char> {
    "channel id must be 32 hex digits"@
}

impl ChannelId {
    pub closed spec fn view_id(&self) -> Seq<char> {
        self.id@
    }

    /// Accepts 32 hexadecimal digits in either case and keeps them in
    /// lower case; anything else is refused with [`channel_id_error`].
    pub fn parse(s: &str) -> (r: Result<ChannelId, String>)
        ensures
            is_channel_id_text(s@) ==> (r matches Ok(c) && c.view_id() == ascii_lower_seq(s@)),
            !is_channel_id_text(s@) ==> (r matches Err(e) && e@ == channel_id_error()),
    {
        let v = chars_of(s);
        let mut ok = v.len() == 32;
        let mut i: usize = 0;
        while ok && i < v.len()
            invariant
                i <= v.len(),
                v@ == s@,
                ok ==> v.len() == 32,
                ok ==> forall|k: int| 0 <= k < i ==> #[trigger] digit_val(v@[k], 16) is Some,
                !ok ==> !is_channel_id_text(s@),
            decreases v.len() - i + (if ok { 1int } else { 0int }),
        {
            if crate::text::digit_val_exec(v[i], 16).is_none() {
                ok = false;
                assert(!all_digits(s@, 16));
            } else {
                i += 1;
            }
        }
        if ok {
            assert(is_channel_id_text(s@));
            let l = ascii_lower_seq_exec(v.as_slice());
            Ok(ChannelId { id: string_of(l.as_slice()) })
        } else {
            Err(String::from_str("channel id must be 32 hex digits"))
        }
    }

    /// The id text (lower-case hexadecimal).
    pub fn as_str(&self) -> (r: &str)
        ensures
            r@ == self.view_id(),
    {
        self.id.as_str()
    }
}

/// What a node reports about a channel.
#[derive(Debug, Clone, PartialEq, Eq)]
pub struct ChannelInfo {
    pub name: String,
    pub url: String,
    pub genre: String,
    pub desc: String,
    pub comment: String,
    pub bitrate: u32,
    pub content_type: String,
}

/// The track a channel is playing.
#[derive(Debug, Clone, PartialEq, Eq)]
pub struct Track {
    pub name: String,
    pub url: String,
}


/// The state of a channel on a node.
#[derive(Debug, Clone, PartialEq, Eq)]
pub struct ChannelStatus {
    pub status: String,
    pub uptime: u64,
    pub is_broadcasting: bool,
}

/// A channel as a node lists it.
#[derive(Debug, Clone, PartialEq, Eq)]
pub struct ChannelRecord {
    pub channel_id: String,
    pub info: ChannelInfo,
    pub track: Track,
    pub status: ChannelStatus,
}

/// The contact URL of a channel: nodes put it in `info.url`, but some only
/// in `track.url`; a blank `info.url` is filled from a non-blank
/// `track.url`.
pub fn fill_contact_url(info: ChannelInfo, track: &Track) -> (r: ChannelInfo)
    ensures
        crate::text::trim(info.url@).len() == 0 && crate::text::trim(track.url@).len() > 0 ==> r == (ChannelInfo {
            url: track.url,
            ..info
        }),
        !(crate::text::trim(info.url@).len() == 0 && crate::text::trim(track.url@).len() > 0) ==> r == info,
{
    let blank_info = crate::text::trim_exec(chars_of(info.url.as_str()).as_slice()).len() == 0;
    let has_track = crate::text::trim_exec(chars_of(track.url.as_str()).as_slice()).len() > 0;
    if blank_info && has_track {
        ChannelInfo { url: track.url.clone(), ..info }
    } else {
        info
    }
}

} // verus!
