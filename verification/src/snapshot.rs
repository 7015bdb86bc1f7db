//! File names of snapshots and recordings, and the choices made when a
//! target directory is resolved.
//!
//! A file is named `{YYYYMMDD_HHMMSS}_{channel}.{ext}`, with the characters
//! that common file systems refuse replaced by `_`.

use vstd::prelude::*;
use crate::text::{chars_of, decimal, decimal_exec, ends_with, ends_with_exec, push_all, push_str, slice_exec, string_of, trim, trim_exec};

verus! {

/// A character that common file systems refuse in a name.
pub open spec fn is_unsafe_name_char(c: char) -> bool {
    c == '/' || c == '\\' || c == ':' || c == '*' || c == '?' || c == '"' || c == '<' || c == '>' || c == '|'
}

/// `s` with every refused character replaced by `_`.
pub open spec fn safe_name(s: Seq<char>) -> Seq<char> {
    s.map_values(|c: char| if is_unsafe_name_char(c) { '_' } else { c })
}

/// `s` without its leading dots.
pub open spec fn strip_leading_dots(s: Seq<char>) -> Seq<char>
    decreases s.len(),
{
    if s.len() > 0 && s[0] == '.' {
        strip_leading_dots(s.drop_first())
    } else {
        s
    }
}

/// `{ts}_{channel}.{ext}`: the channel part is left out when the (made
/// safe) channel name is blank; the extension is trimmed and loses its
/// leading dots.
pub open spec fn filename_of(ts: Seq<char>, channel: Seq<char>, ext: Seq<char>) -> Seq<char> {
    let safe = safe_name(channel);
    let name_part = if trim(safe).len() == 0 {
        Seq::empty()
    } else {
        "_"@ + safe
    };
    ts + name_part + "."@ + strip_leading_dots(trim(ext))
}

/// The local time as `%Y%m%d_%H%M%S` (`chrono::Local::now().format(..)`).
/// Nothing is claimed of the text: it depends on the clock and the time
/// zone of the machine.
#[verifier::external_body]
fn local_timestamp() -> (r: String) {
    chrono::Local::now().format("%Y%m%d_%H%M%S").to_string()
}

/// The name of a file made at time `ts` (as `%Y%m%d_%H%M%S`).
pub fn make_filename_at(ts: &str, channel_name: &str, ext: &str) -> (r: String)
    ensures
        r@ == filename_of(ts@, channel_name@, ext@),
{
    let ch = chars_of(channel_name);
    let mut safe: Vec<char> = Vec::new();
    let mut i: usize = 0;
    while i < ch.len()
        invariant
            i <= ch@.len(),
            safe@ == safe_name(ch@.take(i as int)),
        decreases ch@.len() - i,
    {
        let c = ch[i];
        let d = if c == '/' || c == '\\' || c == ':' || c == '*' || c == '?' || c == '"' || c == '<' || c == '>'
            || c == '|' {
            '_'
        } else {
            c
        };
        safe.push(d);
        assert(safe_name(ch@.take(i + 1)) =~= safe_name(ch@.take(i as int)).push(d));
        i += 1;
    }
    assert(ch@.take(ch@.len() as int) =~= ch@);
    let mut v: Vec<char> = chars_of(ts);
    if trim_exec(safe.as_slice()).len() > 0 {
        push_str(&mut v, "_");
        push_all(&mut v, safe.as_slice());
    }
    push_str(&mut v, ".");
    let e = trim_exec(chars_of(ext).as_slice());
    let mut k: usize = 0;
    assert(e@.subrange(0, e@.len() as int) =~= e@);
    while k < e.len() && e[k] == '.'
        invariant
            k <= e@.len(),
            strip_leading_dots(e@) == strip_leading_dots(e@.subrange(k as int, e@.len() as int)),
        decreases e@.len() - k,
    {
        assert(e@.subrange(k as int, e@.len() as int).drop_first() =~= e@.subrange(k + 1, e@.len() as int));
        k += 1;
    }
    let rest = slice_exec(e.as_slice(), k, e.len());
    assert(strip_leading_dots(rest@) == rest@);
    push_all(&mut v, rest.as_slice());
    string_of(v.as_slice())
}

/// The name of a file made now: [`filename_of`] for the current local
/// time.
pub fn make_filename(channel_name: &str, ext: &str) -> (r: String)
    ensures
        exists|ts: Seq<char>| r@ == filename_of(ts, channel_name@, ext@),
{
    let ts = local_timestamp();
    make_filename_at(ts.as_str(), channel_name, ext)
}

/// The `n`-th name tried when `filename` is taken: `{base}_{n}.{ext}`,
/// where `base` is `filename` without a final `.{ext}`.
pub open spec fn numbered_name(filename: Seq<char>, ext: Seq<char>, n: u32) -> Seq<char> {
    let dot_ext = "."@ + ext;
    let base = if ends_with(filename, dot_ext) {
        filename.subrange(0, filename.len() - dot_ext.len())
    } else {
        filename
    };
    base + "_"@ + decimal(n as nat) + dot_ext
}

/// The name tried for attempt `n` when a file name is already taken.
pub fn numbered_filename(filename: &str, ext: &str, n: u32) -> (r: String)
    ensures
        r@ == numbered_name(filename@, ext@, n),
{
    let f = chars_of(filename);
    let mut dot_ext: Vec<char> = Vec::new();
    push_str(&mut dot_ext, ".");
    push_str(&mut dot_ext, ext);
    let base = if ends_with_exec(f.as_slice(), dot_ext.as_slice()) {
        slice_exec(f.as_slice(), 0, f.len() - dot_ext.len())
    } else {
        f
    };
    let mut v = base;
    push_str(&mut v, "_");
    let d = decimal_exec(n as u64);
    push_all(&mut v, d.as_slice());
    push_all(&mut v, dot_ext.as_slice());
    string_of(v.as_slice())
}

/// The name to try at `attempt` when a file is saved without overwriting
/// another one made within the same second: first `filename` itself, then
/// `{base}_2.{ext}` to `{base}_99.{ext}`; after those, `None` (the caller
/// then overwrites `filename`).
pub fn next_unique_candidate(filename: &str, ext: &str, attempt: u32) -> (r: Option<String>)
    ensures
        attempt == 0 ==> (r matches Some(n) && n@ == filename@),
        1 <= attempt < 99 ==> (r matches Some(n) && n@ == numbered_name(filename@, ext@, (attempt + 1) as u32)),
        attempt >= 99 ==> r is None,
{
    if attempt == 0 {
        Some(string_of(chars_of(filename).as_slice()))
    } else if attempt < 99 {
        Some(numbered_filename(filename, ext, attempt + 1))
    } else {
        None
    }
}

/// How a configured directory that may start with `~` is read.
#[derive(Debug, Clone, PartialEq, Eq)]
pub enum TildePath {
    /// `~/{rest}`: the home directory joined with `rest`.
    HomeJoin(String),
    /// `~`: the home directory itself.
    Home,
    /// Anything else: the text as a path.
    AsIs(String),
}

/// The reading of a configured directory (when the home directory is not
/// known, the text is used as it is).
pub fn tilde_path(s: &str) -> (r: TildePath)
    ensures
        s@.len() >= 2 && s@[0] == '~' && s@[1] == '/' ==> (r matches TildePath::HomeJoin(rest) && rest@ == s@.subrange(
            2,
            s@.len() as int,
        )),
        s@ == seq!['~'] ==> r is Home,
        !(s@.len() >= 2 && s@[0] == '~' && s@[1] == '/') && s@ != seq!['~'] ==> (r matches TildePath::AsIs(t)
            && t@ == s@),
{
    let v = chars_of(s);
    if v.len() >= 2 && v[0] == '~' && v[1] == '/' {
        return TildePath::HomeJoin(string_of(slice_exec(v.as_slice(), 2, v.len()).as_slice()));
    }
    if v.len() == 1 && v[0] == '~' {
        assert(v@ =~= seq!['~']);
        return TildePath::Home;
    }
    TildePath::AsIs(string_of(v.as_slice()))
}

/// Whether a configured directory is used at all (it is not blank).
pub fn uses_configured_dir(configured: &str) -> (r: bool)
    ensures
        r == (trim(configured@).len() > 0),
{
    trim_exec(chars_of(configured).as_slice()).len() > 0
}

/// Where a snapshot or recording directory comes from.
#[derive(Debug, Clone, Copy, PartialEq, Eq, Structural)]
pub enum DirSource {
    /// The configured directory (with `~` read by [`tilde_path`]).
    Configured,
    /// The subdirectory next to the executable.
    ExeDir,
    /// The platform's pictures or videos directory: a fallback.
    Fallback,
}

/// The choice of a directory: a configured (non-blank) one first, then the
/// subdirectory next to the executable when it could be made writable
/// (`exe_dir_writable` is `None` where there is no executable directory or
/// it was not probed, the configured one being used), else the fallback.
pub fn dir_source(configured: &str, exe_dir_writable: Option<bool>) -> (r: DirSource)
    ensures
        trim(configured@).len() > 0 ==> r == DirSource::Configured,
        trim(configured@).len() == 0 && exe_dir_writable == Some(true) ==> r == DirSource::ExeDir,
        trim(configured@).len() == 0 && exe_dir_writable != Some(true) ==> r == DirSource::Fallback,
{
    if uses_configured_dir(configured) {
        DirSource::Configured
    } else {
        match exe_dir_writable {
            Some(true) => DirSource::ExeDir,
            _ => DirSource::Fallback,
        }
    }
}

} // verus!
