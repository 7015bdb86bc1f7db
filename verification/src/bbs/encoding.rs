//! Character encodings of the boards, percent-encoding of form values and
//! HTML entity decoding of dat bodies.

use vstd::prelude::*;
use crate::text::{
    char_from_u32, chars_of, find_from, find_from_exec, is_scalar, lemma_char_code, lemma_find_from_bounds,
    occurs_at_exec, parse_unsigned, parse_unsigned_exec, push_all, slice_exec, string_of,
};
use crate::util::errors::AppResult;

verus! {

/// The character encoding a board speaks.
#[derive(Debug, Clone, Copy, PartialEq, Eq, Structural)]
pub enum BoardEncoding {
    ShiftJis,
    EucJp,
    Utf8,
}

/// The bytes that `encoding_rs` produces for `text` in `enc`
/// (`Encoding::encode`; unmappable characters become numeric character
/// references).
pub uninterp spec fn encoded_bytes(enc: BoardEncoding, text: Seq<char>) -> Seq<u8>;

/// The text that `encoding_rs` decodes from `bytes` in `enc`
/// (`Encoding::decode`: BOM sniffing, malformed sequences replaced by
/// U+FFFD).
pub uninterp spec fn decoded_text(enc: BoardEncoding, bytes: Seq<u8>) -> Seq<char>;

/// All bytes are ASCII.
pub open spec fn is_ascii_bytes(bytes: Seq<u8>) -> bool {
    forall|i: int| 0 <= i < bytes.len() ==> #[trigger] bytes[i] < 0x80
}

/// `encoding_rs::Encoding::encode` for the encoding that `enc` names.
/// Claimed: the result is the name `encoded_bytes(enc, text)`; for UTF-8,
/// and for ASCII-only text (all three encodings are ASCII-compatible), it is
/// the input's own UTF-8 bytes, as the crate documents (it borrows the
/// input then).
#[verifier::external_body]
fn encode_with(enc: BoardEncoding, text: &str) -> (r: Vec<u8>)
    ensures
        r@ == encoded_bytes(enc, text@),
        (enc == BoardEncoding::Utf8 || vstd::utf8::is_ascii_chars(text@)) ==> r@
            == vstd::utf8::encode_utf8(text@),
{
    let e = match enc {
        BoardEncoding::ShiftJis => encoding_rs::SHIFT_JIS,
        BoardEncoding::EucJp => encoding_rs::EUC_JP,
        BoardEncoding::Utf8 => encoding_rs::UTF_8,
    };
    let (cow, _, _) = e.encode(text);
    cow.into_owned()
}

/// `encoding_rs::Encoding::decode` for the encoding that `enc` names.
/// Claimed: the result is the name `decoded_text(enc, bytes)`; for
/// ASCII-only input (which holds no BOM) it is those characters, as the crate
/// documents (it borrows the input then).
#[verifier::external_body]
fn decode_with(enc: BoardEncoding, bytes: &[u8]) -> (r: String)
    ensures
        r@ == decoded_text(enc, bytes@),
        is_ascii_bytes(bytes@) ==> r@ == bytes@.map_values(|b: u8| b as char),
{
    let e = match enc {
        BoardEncoding::ShiftJis => encoding_rs::SHIFT_JIS,
        BoardEncoding::EucJp => encoding_rs::EUC_JP,
        BoardEncoding::Utf8 => encoding_rs::UTF_8,
    };
    let (cow, _, _) = e.decode(bytes);
    cow.into_owned()
}

impl BoardEncoding {
    /// Decodes a board response. Malformed bytes become U+FFFD instead of
    /// failing the whole thread, so this never returns `Err`.
    pub fn decode(self, bytes: &[u8]) -> (r: AppResult<String>)
        ensures
            r matches Ok(s) && s@ == decoded_text(self, bytes@),
    {
        Ok(decode_with(self, bytes))
    }

    /// Encodes text for a post in the board's charset.
    pub fn encode(self, text: &str) -> (r: Vec<u8>)
        ensures
            r@ == encoded_bytes(self, text@),
            (self == BoardEncoding::Utf8 || vstd::utf8::is_ascii_chars(text@)) ==> r@
                == vstd::utf8::encode_utf8(text@),
    {
        encode_with(self, text)
    }
}

/// RFC 3986 unreserved: ASCII letters, digits and `- _ . ~`.
pub open spec fn is_unreserved(b: u8) -> bool {
    (0x30 <= b <= 0x39) || (0x41 <= b <= 0x5A) || (0x61 <= b <= 0x7A) || b == 0x2D || b == 0x5F
        || b == 0x2E || b == 0x7E
}

/// Upper-case hexadecimal digit of `n < 16`.
pub open spec fn hex_upper(n: u8) -> char {
    if n < 10 {
        ((n + 0x30) as u8) as char
    } else {
        ((n + 0x37) as u8) as char
    }
}

/// One byte as it appears percent-encoded.
pub open spec fn percent_byte(b: u8) -> Seq<char> {
    if is_unreserved(b) {
        seq![b as char]
    } else {
        seq!['%', hex_upper(b / 16), hex_upper(b % 16)]
    }
}

/// Every byte percent-encoded, in order.
pub open spec fn percent_encoded(bs: Seq<u8>) -> Seq<char>
    decreases bs.len(),
{
    if bs.len() == 0 {
        Seq::empty()
    } else {
        percent_encoded(bs.drop_last()) + percent_byte(bs.last())
    }
}

fn hex_upper_exec(n: u8) -> (r: char)
    requires
        n < 16,
    ensures
        r == hex_upper(n),
{
    if n < 10 {
        (n + 0x30) as char
    } else {
        (n + 0x37) as char
    }
}

/// Percent-encode every byte that is not an unreserved character per
/// RFC 3986 (used for form values already encoded in the board's charset).
pub fn percent_encode(bytes: &[u8]) -> (r: String)
    ensures
        r@ == percent_encoded(bytes@),
{
    let mut out: Vec<char> = Vec::new();
    let mut i: usize = 0;
    while i < bytes.len()
        invariant
            i <= bytes.len(),
            out@ == percent_encoded(bytes@.take(i as int)),
        decreases bytes.len() - i,
    {
        let b = bytes[i];
        let ghost before = out@;
        if (0x30 <= b && b <= 0x39) || (0x41 <= b && b <= 0x5A) || (0x61 <= b && b <= 0x7A) || b
            == 0x2D || b == 0x5F || b == 0x2E || b == 0x7E {
            out.push(b as char);
        } else {
            out.push('%');
            out.push(hex_upper_exec(b / 16));
            out.push(hex_upper_exec(b % 16));
        }
        proof {
            let t = bytes@.take(i + 1);
            assert(t.drop_last() =~= bytes@.take(i as int));
            assert(t.last() == b);
            assert(out@ =~= before + percent_byte(b));
        }
        i += 1;
    }
    assert(bytes@.take(bytes.len() as int) =~= bytes@);
    string_of(out.as_slice())
}


/// The number of characters percent-encoding `bs` gives: one for an
/// unreserved byte, three for any other.
pub open spec fn percent_len(bs: Seq<u8>) -> int
    decreases bs.len(),
{
    if bs.len() == 0 {
        0
    } else {
        percent_len(bs.drop_last()) + if is_unreserved(bs.last()) {
            1int
        } else {
            3int
        }
    }
}

/// The value of an upper-case hexadecimal digit.
pub open spec fn hex_value(c: char) -> Option<u8> {
    if '0' <= c <= '9' {
        Some((c as u32 - 0x30) as u8)
    } else if 'A' <= c <= 'F' {
        Some((c as u32 - 0x37) as u8)
    } else {
        None
    }
}

/// An ASCII character whose byte is unreserved.
pub open spec fn is_unreserved_char(c: char) -> bool {
    (c as u32) < 0x80 && is_unreserved((c as u32) as u8)
}

/// The bytes that percent-encoded text stands for: unreserved characters
/// for themselves, `%HH` (upper-case hex) for the byte `HH`; `None` on
/// anything else.
pub open spec fn percent_decoded(s: Seq<char>) -> Option<Seq<u8>>
    decreases s.len(),
{
    if s.len() == 0 {
        Some(Seq::empty())
    } else if s[0] == '%' {
        if s.len() >= 3 && hex_value(s[1]) is Some && hex_value(s[2]) is Some {
            match percent_decoded(s.subrange(3, s.len() as int)) {
                Some(t) => Some(seq![(hex_value(s[1])->0 * 16 + hex_value(s[2])->0) as u8] + t),
                None => None,
            }
        } else {
            None
        }
    } else if is_unreserved_char(s[0]) {
        match percent_decoded(s.drop_first()) {
            Some(t) => Some(seq![(s[0] as u32) as u8] + t),
            None => None,
        }
    } else {
        None
    }
}

proof fn lemma_percent_concat(a: Seq<u8>, b: Seq<u8>)
    ensures
        percent_encoded(a + b) == percent_encoded(a) + percent_encoded(b),
    decreases b.len(),
{
    if b.len() == 0 {
        assert(a + b =~= a);
        assert(percent_encoded(a) + percent_encoded(b) =~= percent_encoded(a));
    } else {
        assert((a + b).drop_last() =~= a + b.drop_last());
        assert((a + b).last() == b.last());
        lemma_percent_concat(a, b.drop_last());
        assert(percent_encoded(a) + percent_encoded(b) =~= percent_encoded(a) + percent_encoded(b.drop_last())
            + percent_byte(b.last()));
    }
}

proof fn lemma_percent_len_concat(a: Seq<u8>, b: Seq<u8>)
    ensures
        percent_len(a + b) == percent_len(a) + percent_len(b),
    decreases b.len(),
{
    if b.len() == 0 {
        assert(a + b =~= a);
    } else {
        assert((a + b).drop_last() =~= a + b.drop_last());
        lemma_percent_len_concat(a, b.drop_last());
    }
}

proof fn lemma_hex_roundtrip(n: u8)
    requires
        n < 16,
    ensures
        hex_value(hex_upper(n)) == Some(n),
        hex_upper(n) != '%',
{
    if n < 10 {
        assert(((n + 0x30) as u8) as char as u32 == n + 0x30);
    } else {
        assert(((n + 0x37) as u8) as char as u32 == n + 0x37);
    }
}

proof fn lemma_byte_decodes(b: u8, rest: Seq<char>)
    ensures
        percent_decoded(percent_byte(b) + rest) == match percent_decoded(rest) {
            Some(t) => Some(seq![b] + t),
            None => None::<Seq<u8>>,
        },
        percent_byte(b).len() == if is_unreserved(b) { 1int } else { 3int },
{
    let s = percent_byte(b) + rest;
    if is_unreserved(b) {
        assert((b as char) as u32 == b as u32);
        assert(s[0] == b as char);
        assert(s.drop_first() =~= rest);
        assert(b != 0x25u8);
    } else {
        lemma_hex_roundtrip(b / 16);
        lemma_hex_roundtrip(b % 16);
        assert(s[0] == '%' && s[1] == hex_upper(b / 16) && s[2] == hex_upper(b % 16));
        assert(s.subrange(3, s.len() as int) =~= rest);
        assert(((b / 16) * 16 + b % 16) as u8 == b) by (bit_vector);
    }
}

/// Percent-encoding writes only unreserved characters and `%HH` triples
/// (upper-case hex), one character for an unreserved byte and three for
/// any other, and decoding what it wrote gives the bytes back.
pub proof fn law_percent_encoding(bs: Seq<u8>)
    ensures
        percent_encoded(bs).len() == percent_len(bs),
        forall|i: int| 0 <= i < percent_encoded(bs).len() ==> {
            let c = #[trigger] percent_encoded(bs)[i];
            is_unreserved_char(c) || c == '%' || hex_value(c) is Some
        },
        percent_decoded(percent_encoded(bs)) == Some(bs),
    decreases bs.len(),
{
    if bs.len() == 0 {
        assert(percent_encoded(bs) =~= Seq::<char>::empty());
    } else {
        let x = bs[0];
        let rest = bs.drop_first();
        assert(bs =~= seq![x] + rest);
        lemma_percent_concat(seq![x], rest);
        lemma_percent_len_concat(seq![x], rest);
        let one = seq![x];
        assert(one.drop_last() =~= Seq::<u8>::empty());
        assert(one.last() == x);
        assert(percent_encoded(one.drop_last()) == Seq::<char>::empty());
        assert(percent_len(one.drop_last()) == 0);
        assert(Seq::<char>::empty() + percent_byte(x) =~= percent_byte(x));
        assert(percent_encoded(one) == percent_byte(x));
        assert(percent_len(one) == percent_byte(x).len());
        law_percent_encoding(rest);
        lemma_byte_decodes(x, percent_encoded(rest));
        assert(seq![x] + rest =~= bs);
        let e = percent_encoded(bs);
        let pb = percent_byte(x);
        assert forall|i: int| 0 <= i < e.len() implies {
            let c = #[trigger] e[i];
            is_unreserved_char(c) || c == '%' || hex_value(c) is Some
        } by {
            if i < pb.len() {
                assert(e[i] == pb[i]);
                if is_unreserved(x) {
                    assert((x as char) as u32 == x as u32);
                } else {
                    lemma_hex_roundtrip(x / 16);
                    lemma_hex_roundtrip(x % 16);
                }
            } else {
                assert(e[i] == percent_encoded(rest)[i - pb.len()]);
            }
        }
    }
}

/// The character an entity body (the text between `&` and `;`) stands
/// for: `lt` `gt` `amp` `quot`, or `#` followed by a decimal number or by
/// `x`/`X` and a hexadecimal number (each read as `u32`, optional `+`),
/// when that number is a Unicode scalar value.
pub open spec fn entity_char(e: Seq<char>) -> Option<char> {
    if e == seq!['l', 't'] {
        Some('<')
    } else if e == seq!['g', 't'] {
        Some('>')
    } else if e == seq!['a', 'm', 'p'] {
        Some('&')
    } else if e == seq!['q', 'u', 'o', 't'] {
        Some('"')
    } else if e.len() > 0 && e[0] == '#' {
        let num = e.drop_first();
        let code: Option<nat> = if num.len() > 0 && (num[0] == 'x' || num[0] == 'X') {
            parse_unsigned(num.drop_first(), 16)
        } else {
            parse_unsigned(num, 10)
        };
        match code {
            Some(n) => if n <= u32::MAX && is_scalar(n as u32) {
                Some((n as u32) as char)
            } else {
                None
            },
            None => None,
        }
    } else {
        None
    }
}

/// The entity that starts at `j` (just after an `&`): its character and
/// the position after its `;`. The first `;` must come within 8 characters.
pub open spec fn entity_at(s: Seq<char>, j: int) -> Option<(char, int)> {
    match find_from(s, seq![';'], j) {
        Some(k) => if k - j <= 8 {
            match entity_char(s.subrange(j, k)) {
                Some(c) => Some((c, k + 1)),
                None => None,
            }
        } else {
            None
        },
        None => None,
    }
}

pub proof fn lemma_entity_at_bounds(s: Seq<char>, j: int)
    requires
        0 <= j,
    ensures
        entity_at(s, j) matches Some((c, n)) ==> j < n <= s.len(),
{
    lemma_find_from_bounds(s, seq![';'], j);
}

/// `s[i..]` with its entities decoded, scanning from the left; an `&` that
/// does not start an entity is kept as it is.
pub open spec fn unescape_from(s: Seq<char>, i: int) -> Seq<char>
    decreases s.len() - i,
{
    if i < 0 || i > s.len() {
        Seq::empty()
    } else {
        match find_from(s, seq!['&'], i) {
            None => s.subrange(i, s.len() as int),
            Some(a) => {
                proof {
                    lemma_find_from_bounds(s, seq!['&'], i);
                    lemma_entity_at_bounds(s, a + 1);
                }
                s.subrange(i, a) + match entity_at(s, a + 1) {
                    Some((c, n)) => seq![c] + unescape_from(s, n),
                    None => seq!['&'] + unescape_from(s, a + 1),
                }
            },
        }
    }
}

/// HTML entities of `s` decoded.
pub open spec fn unescaped(s: Seq<char>) -> Seq<char> {
    unescape_from(s, 0)
}

fn seq_eq_exec(v: &[char], lo: usize, hi: usize, lit: &[char]) -> (r: bool)
    requires
        lo <= hi <= v@.len(),
    ensures
        r == (v@.subrange(lo as int, hi as int) == lit@),
{
    if hi - lo != lit.len() {
        assert(v@.subrange(lo as int, hi as int).len() != lit@.len());
        return false;
    }
    occurs_at_exec(v, lo, lit)
}

/// Exec form of [`entity_char`] on `v[lo..hi]`.
fn entity_char_exec(v: &[char], lo: usize, hi: usize) -> (r: Option<char>)
    requires
        lo <= hi <= v@.len(),
    ensures
        r == entity_char(v@.subrange(lo as int, hi as int)),
{
    let ghost e = v@.subrange(lo as int, hi as int);
    let lt: [char; 2] = ['l', 't'];
    let gt: [char; 2] = ['g', 't'];
    let amp: [char; 3] = ['a', 'm', 'p'];
    let quot: [char; 4] = ['q', 'u', 'o', 't'];
    assert(lt@ == seq!['l', 't']);
    assert(gt@ == seq!['g', 't']);
    assert(amp@ == seq!['a', 'm', 'p']);
    assert(quot@ == seq!['q', 'u', 'o', 't']);
    if seq_eq_exec(v, lo, hi, &lt) {
        Some('<')
    } else if seq_eq_exec(v, lo, hi, &gt) {
        Some('>')
    } else if seq_eq_exec(v, lo, hi, &amp) {
        Some('&')
    } else if seq_eq_exec(v, lo, hi, &quot) {
        Some('"')
    } else if hi > lo && v[lo] == '#' {
        let ghost num = e.drop_first();
        let code = if hi > lo + 1 && (v[lo + 1] == 'x' || v[lo + 1] == 'X') {
            let hex = slice_exec(v, lo + 2, hi);
            assert(hex@ == num.drop_first());
            parse_unsigned_exec(hex.as_slice(), 16, 0xFFFF_FFFF)
        } else {
            let dec = slice_exec(v, lo + 1, hi);
            assert(dec@ == num);
            parse_unsigned_exec(dec.as_slice(), 10, 0xFFFF_FFFF)
        };
        match code {
            Some(n) => {
                let code: u32 = n as u32;
                let r = char_from_u32(code);
                match r {
                    Some(c) => {
                        proof {
                            lemma_char_code(c, code);
                        }
                        Some(c)
                    },
                    None => None,
                }
            },
            None => None,
        }
    } else {
        None
    }
}

/// Decode HTML entities found in 2ch/shitaraba dat bodies: `&lt;` `&gt;`
/// `&amp;` `&quot;`, `&#NNN;` and `&#xHHH;` (so also shitaraba's
/// `&#65374;` → `～`). Anything else, including a bare `&`, is kept.
pub fn unescape_html(input: &str) -> (r: String)
    ensures
        r@ == unescaped(input@),
{
    let v = chars_of(input);
    let r = unescape_chars(v.as_slice());
    string_of(r.as_slice())
}

/// [`unescape_html`] on characters.
pub fn unescape_chars(v: &[char]) -> (out: Vec<char>)
    ensures
        out@ == unescaped(v@),
{
    let amp_pat: [char; 1] = ['&'];
    let semi_pat: [char; 1] = [';'];
    assert(amp_pat@ == seq!['&']);
    assert(semi_pat@ == seq![';']);
    let mut out: Vec<char> = Vec::new();
    let mut i: usize = 0;
    loop
        invariant
            i <= v@.len(),
            amp_pat@ == seq!['&'],
            semi_pat@ == seq![';'],
            unescaped(v@) == out@ + unescape_from(v@, i as int),
        decreases v@.len() - i,
    {
        proof {
            lemma_find_from_bounds(v@, seq!['&'], i as int);
        }
        match find_from_exec(v, &amp_pat, i) {
            None => {
                let rest = slice_exec(v, i, v.len());
                push_all(&mut out, rest.as_slice());
                return out;
            },
            Some(a) => {
                let ghost before = out@;
                assert(find_from(v@, seq!['&'], i as int) == Some(a as int));
                assert(a < v@.len() && v@.len() == v.len());
                let head = slice_exec(v, i, a);
                push_all(&mut out, head.as_slice());
                proof {
                    lemma_find_from_bounds(v@, seq![';'], a + 1);
                    lemma_entity_at_bounds(v@, a + 1);
                }
                let semi = find_from_exec(v, &semi_pat, a + 1);
                let ent: Option<(char, usize)> = match semi {
                    Some(k) => if {
                        assert(find_from(v@, seq![';'], a + 1) == Some(k as int));
                        assert(k < v@.len());
                        true
                    } &&  k - (a + 1) <= 8 {
                        match entity_char_exec(v, a + 1, k) {
                            Some(c) => Some((c, k + 1)),
                            None => None,
                        }
                    } else {
                        None
                    },
                    None => None,
                };
                match ent {
                    Some((c, n)) => {
                        assert(entity_at(v@, a + 1) == Some((c, n as int)));
                        out.push(c);
                        proof {
                            assert(before + (v@.subrange(i as int, a as int) + (seq![c]
                                + unescape_from(v@, n as int))) == (before + v@.subrange(
                                i as int,
                                a as int,
                            )).push(c) + unescape_from(v@, n as int));
                        }
                        i = n;
                    },
                    None => {
                        assert(entity_at(v@, a + 1) is None);
                        out.push('&');
                        proof {
                            assert(before + (v@.subrange(i as int, a as int) + (seq!['&']
                                + unescape_from(v@, a + 1))) == (before + v@.subrange(
                                i as int,
                                a as int,
                            )).push('&') + unescape_from(v@, a + 1));
                        }
                        i = a + 1;
                    },
                }
            },
        }
    }
}

} // verus!
