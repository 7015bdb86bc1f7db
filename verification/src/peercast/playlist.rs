//! The stream URL inside a playlist that a PeerCast node serves for
//! `/pls/{id}` (`.pls` `FileN=` entries, or bare URL lines).

use vstd::prelude::*;
use crate::text::{chars_of, find, find_exec, lines, lines_exec, starts_with, starts_with_exec, string_of, slice_exec, trim, trim_exec, views};
use crate::util::errors::AppError;

verus! {

/// The URL a playlist line carries: the trimmed line, or what follows
/// `=` in a `File...=` entry; only `http://` and `https://` URLs count.
pub open spec fn line_url(line: Seq<char>) -> Option<Seq<char>> {
    let t = trim(line);
    let v = if starts_with(t, "File"@) {
        match find(t, seq!['=']) {
            Some(k) => trim(t.subrange(k + 1, t.len() as int)),
            None => t,
        }
    } else {
        t
    };
    if starts_with(v, "http://"@) || starts_with(v, "https://"@) {
        Some(v)
    } else {
        None
    }
}

/// The first URL among the lines from `i` on.
pub open spec fn first_url_from(ls: Seq<Seq<char>>, i: int) -> Option<Seq<char>>
    decreases ls.len() - i,
{
    if i < 0 || i >= ls.len() {
        None
    } else {
        match line_url(ls[i]) {
            Some(u) => Some(u),
            None => first_url_from(ls, i + 1),
        }
    }
}

fn line_url_exec(line: &[char]) -> (r: Option<Vec<char>>)
    ensures
        crate::text::opt_chars(r) == line_url(line@),
{
    let t = trim_exec(line);
    let file = chars_of("File");
    let v = if starts_with_exec(t.as_slice(), file.as_slice()) {
        let eq: [char; 1] = ['='];
        assert(eq@ == seq!['=']);
        proof {
            crate::text::lemma_find_from_bounds(t@, seq!['='], 0);
        }
        match find_exec(t.as_slice(), &eq) {
            Some(k) => trim_exec(slice_exec(t.as_slice(), k + 1, t.len()).as_slice()),
            None => t,
        }
    } else {
        t
    };
    let h = chars_of("http://");
    let hs = chars_of("https://");
    if starts_with_exec(v.as_slice(), h.as_slice()) || starts_with_exec(v.as_slice(), hs.as_slice()) {
        Some(v)
    } else {
        None
    }
}

/// The first stream URL of a playlist body, or `Decode("no stream URL in
/// playlist")`.
pub fn first_stream_url(body: &str) -> (r: Result<String, AppError>)
    ensures
        match first_url_from(lines(body@), 0) {
            Some(u) => (r matches Ok(s) && s@ == u),
            None => (r matches Err(AppError::Decode(m)) && m@ == "no stream URL in playlist"@),
        },
{
    let ls = lines_exec(chars_of(body).as_slice());
    let ghost lv = views(ls@);
    let mut i: usize = 0;
    while i < ls.len()
        invariant
            i <= ls@.len(),
            lv == views(ls@),
            lv == lines(body@),
            first_url_from(lv, 0) == first_url_from(lv, i as int),
        decreases ls@.len() - i,
    {
        assert(lv[i as int] == ls@[i as int]@);
        if let Some(u) = line_url_exec(ls[i].as_slice()) {
            return Ok(string_of(u.as_slice()));
        }
        i += 1;
    }
    Err(AppError::Decode(String::from_str("no stream URL in playlist")))
}

} // verus!
