//! One viewer window per channel: the names and messages of the lock that
//! a viewer takes for its channel.
//!
//! The owner writes `ch-{id}.lock` in the lock directory and answers
//! `ping\n` with `pong\n` on its IPC socket; a later process that finds the
//! lock pings it (an answer means the owner lives) and may ask it to come
//! to the front with `focus\n` (answered `ok\n`).

use vstd::prelude::*;
use crate::text::{chars_of, is_ascii_alnum, push_str, string_of};

verus! {

/// What happens when a viewer for a channel is launched.
#[derive(Debug, Clone, Copy, PartialEq, Eq)]
pub enum LaunchPolicy {
    /// Another window for another channel is always opened.
    NewWindow,
    /// An existing window is replaced.
    Replace,
    /// Only one window: the lock is taken.
    Single,
}

impl Default for LaunchPolicy {
    fn default() -> (r: LaunchPolicy)
        ensures
            r == LaunchPolicy::NewWindow,
    {
        LaunchPolicy::NewWindow
    }
}

/// The ASCII letters and digits of `s`, in order.
pub open spec fn alnum_only(s: Seq<char>) -> Seq<char>
    decreases s.len(),
{
    if s.len() == 0 {
        s
    } else {
        let a = alnum_only(s.drop_last());
        if is_ascii_alnum(s.last()) {
            a.push(s.last())
        } else {
            a
        }
    }
}

/// `ch-{the channel id's ASCII letters and digits}.lock`.
pub fn lock_file_name(channel_id: &str) -> (r: String)
    ensures
        r@ == "ch-"@ + alnum_only(channel_id@) + ".lock"@,
{
    let v = chars_of(channel_id);
    let mut out: Vec<char> = Vec::new();
    push_str(&mut out, "ch-");
    let ghost start = out@;
    let mut i: usize = 0;
    while i < v.len()
        invariant
            i <= v@.len(),
            out@ == start + alnum_only(v@.take(i as int)),
        decreases v@.len() - i,
    {
        let c = v[i];
        proof {
            let t = v@.take(i + 1);
            assert(t.drop_last() =~= v@.take(i as int));
            assert(t.last() == c);
        }
        if crate::text::is_ascii_alnum_exec(c) {
            out.push(c);
            assert(out@ =~= start + alnum_only(v@.take(i + 1)));
        } else {
            assert(out@ =~= start + alnum_only(v@.take(i + 1)));
        }
        i += 1;
    }
    assert(v@.take(v@.len() as int) =~= v@);
    push_str(&mut out, ".lock");
    string_of(out.as_slice())
}

/// `ping\n`.
pub open spec fn ping_bytes() -> Seq<u8> {
    seq![112u8, 105, 110, 103, 10]
}

/// `pong\n`.
pub open spec fn pong_bytes() -> Seq<u8> {
    seq![112u8, 111, 110, 103, 10]
}

/// `focus\n`.
pub open spec fn focus_bytes() -> Seq<u8> {
    seq![102u8, 111, 99, 117, 115, 10]
}

/// `ok\n`.
pub open spec fn ok_bytes() -> Seq<u8> {
    seq![111u8, 107, 10]
}

pub open spec fn starts_with_bytes(s: Seq<u8>, p: Seq<u8>) -> bool {
    p.len() <= s.len() && s.subrange(0, p.len() as int) == p
}

fn starts_with_exec(s: &[u8], p: &[u8]) -> (r: bool)
    ensures
        r == starts_with_bytes(s@, p@),
{
    if p.len() > s.len() {
        return false;
    }
    let mut i: usize = 0;
    while i < p.len()
        invariant
            i <= p@.len(),
            p@.len() <= s@.len(),
            forall|k: int| 0 <= k < i ==> s@[k] == p@[k],
        decreases p@.len() - i,
    {
        if s[i] != p[i] {
            assert(s@.subrange(0, p@.len() as int)[i as int] != p@[i as int]);
            return false;
        }
        i += 1;
    }
    assert(s@.subrange(0, p@.len() as int) =~= p@);
    true
}

/// The message that asks whether the owner lives.
pub fn ping_message() -> (r: Vec<u8>)
    ensures
        r@ == ping_bytes(),
{
    let r = vec![112u8, 105, 110, 103, 10];
    assert(r@ =~= ping_bytes());
    r
}

/// The message that asks the owner to come to the front.
pub fn focus_message() -> (r: Vec<u8>)
    ensures
        r@ == focus_bytes(),
{
    let r = vec![102u8, 111, 99, 117, 115, 10];
    assert(r@ =~= focus_bytes());
    r
}

/// The owner lives when the answer to a ping starts with `pong\n`.
pub fn is_pong(reply: &[u8]) -> (r: bool)
    ensures
        r == starts_with_bytes(reply@, pong_bytes()),
{
    let p = vec![112u8, 111, 110, 103, 10];
    assert(p@ =~= pong_bytes());
    starts_with_exec(reply, p.as_slice())
}

/// What the owner does with a request on its socket.
#[derive(Debug, Clone, PartialEq, Eq)]
pub enum IpcReply {
    /// Answer `pong\n`.
    Pong,
    /// Answer `ok\n` and come to the front.
    Focus,
    /// Say nothing.
    Ignore,
}

/// The owner's answer to `request` (what it read).
pub fn reply_to(request: &[u8]) -> (r: IpcReply)
    ensures
        starts_with_bytes(request@, ping_bytes()) ==> r == IpcReply::Pong,
        !starts_with_bytes(request@, ping_bytes()) && starts_with_bytes(request@, focus_bytes()) ==> r
            == IpcReply::Focus,
        !starts_with_bytes(request@, ping_bytes()) && !starts_with_bytes(request@, focus_bytes()) ==> r
            == IpcReply::Ignore,
{
    let ping = ping_message();
    let focus = focus_message();
    if starts_with_exec(request, ping.as_slice()) {
        IpcReply::Pong
    } else if starts_with_exec(request, focus.as_slice()) {
        IpcReply::Focus
    } else {
        IpcReply::Ignore
    }
}

/// The answer the owner writes for a request.
pub fn reply_bytes(r: &IpcReply) -> (out: Vec<u8>)
    ensures
        *r == IpcReply::Pong ==> out@ == pong_bytes(),
        *r == IpcReply::Focus ==> out@ == ok_bytes(),
        *r == IpcReply::Ignore ==> out@.len() == 0,
{
    match r {
        IpcReply::Pong => {
            let v = vec![112u8, 111, 110, 103, 10];
            assert(v@ =~= pong_bytes());
            v
        },
        IpcReply::Focus => {
            let v = vec![111u8, 107, 10];
            assert(v@ =~= ok_bytes());
            v
        },
        IpcReply::Ignore => Vec::new(),
    }
}

} // verus!
