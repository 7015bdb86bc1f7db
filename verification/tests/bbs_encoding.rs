use pst_core::bbs::encoding::{percent_encode, unescape_html, BoardEncoding};

#[test]
fn encode_decode_shift_jis_roundtrip() {
    let text = "テスト 123";
    let bytes = BoardEncoding::ShiftJis.encode(text);
    let back = BoardEncoding::ShiftJis.decode(&bytes).unwrap();
    assert_eq!(back, text);
}

#[test]
fn encode_decode_euc_jp_roundtrip() {
    let text = "したらば";
    let bytes = BoardEncoding::EucJp.encode(text);
    let back = BoardEncoding::EucJp.decode(&bytes).unwrap();
    assert_eq!(back, text);
}

#[test]
fn html_entities_basic() {
    assert_eq!(unescape_html("a&lt;b&gt;c"), "a<b>c");
    assert_eq!(unescape_html("&amp;&quot;"), "&\"");
}

#[test]
fn numeric_entities() {
    assert_eq!(unescape_html("&#65;&#x42;"), "AB");
}

#[test]
fn shitaraba_tilde() {
    assert_eq!(unescape_html("&#65374;"), "～");
}

#[test]
fn passes_through_bare_ampersand() {
    assert_eq!(unescape_html("at & t"), "at & t");
}

#[test]
fn percent_encode_basic() {
    assert_eq!(percent_encode(b"hello"), "hello");
    assert_eq!(percent_encode(b" "), "%20");
    assert_eq!(percent_encode(b"a=b&c"), "a%3Db%26c");
    assert_eq!(percent_encode(&[0xA5, 0xA2]), "%A5%A2");
}

#[test]
fn decode_returns_replacement_for_partial_corruption() {
    let mixed = b"hello\xA5\xA2world";
    let out = BoardEncoding::ShiftJis.decode(mixed).unwrap();
    assert!(out.starts_with("hello"));
    assert!(out.ends_with("world"));

    let bad = b"head\xFF\xFE\xFDtail";
    let out = BoardEncoding::EucJp.decode(bad).unwrap();
    assert!(out.contains("head"));
    assert!(out.contains("tail"));
}

#[test]
fn unescape_edge_cases() {
    // entity body longer than 8 characters is not decoded
    assert_eq!(unescape_html("&#00000065;"), "&#00000065;");
    assert_eq!(unescape_html("&#0000065;"), "A");
    // a sign is read as from_str_radix reads it
    assert_eq!(unescape_html("&#+65;"), "A");
    assert_eq!(unescape_html("&#x+41;"), "A");
    // surrogates and out-of-range codes are kept
    assert_eq!(unescape_html("&#xD800;"), "&#xD800;");
    assert_eq!(unescape_html("&#x110000;"), "&#x110000;");
    // unknown names and a trailing ampersand stay
    assert_eq!(unescape_html("&nbsp;x&"), "&nbsp;x&");
    assert_eq!(unescape_html("&&lt;"), "&<");
}

#[test]
fn encode_ascii_is_identity_in_every_charset() {
    for enc in [BoardEncoding::ShiftJis, BoardEncoding::EucJp, BoardEncoding::Utf8] {
        assert_eq!(enc.encode("abc 123"), b"abc 123".to_vec());
        assert_eq!(enc.decode(b"abc 123").unwrap(), "abc 123");
    }
    assert_eq!(BoardEncoding::Utf8.encode("ア"), "ア".as_bytes().to_vec());
    assert_eq!(BoardEncoding::EucJp.encode("ア"), vec![0xA5, 0xA2]);
}

#[test]
fn percent_encoding_alphabet_length_and_decoding() {
    let bytes: Vec<u8> = (0u8..=255).collect();
    let e = percent_encode(&bytes);
    let unreserved = |b: u8| b.is_ascii_alphanumeric() || b"-_.~".contains(&b);
    let want: usize = bytes.iter().map(|&b| if unreserved(b) { 1 } else { 3 }).sum();
    assert_eq!(e.len(), want);
    assert!(e.bytes().all(|c| unreserved(c) || c == b'%' || c.is_ascii_hexdigit()));
    // decoding gives the bytes back
    let mut back = Vec::new();
    let s = e.as_bytes();
    let mut i = 0;
    while i < s.len() {
        if s[i] == b'%' {
            back.push(u8::from_str_radix(&e[i + 1..i + 3], 16).unwrap());
            i += 3;
        } else {
            back.push(s[i]);
            i += 1;
        }
    }
    assert_eq!(back, bytes);
}
