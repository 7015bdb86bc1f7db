use pst_core::bbs::router::classify;
use pst_core::bbs::types::BoardKind;
use pst_core::bbs::url::{build_board_url, build_thread_url, parse_ch2, parse_shitaraba};
use pst_core::util::errors::AppError;

#[test]
fn shitaraba_host() {
    assert!(matches!(
        classify("https://jbbs.shitaraba.net/computer/4567/1234/"),
        Some(BoardKind::Shitaraba)
    ));
    assert!(matches!(
        classify("https://jbbs.shitaraba.net/bbs/read.cgi/computer/4567/1234/"),
        Some(BoardKind::Shitaraba)
    ));
}

#[test]
fn router_ch2_read_cgi() {
    assert!(matches!(
        classify("https://example.invalid/test/read.cgi/board/1234/"),
        Some(BoardKind::Ch2Compat)
    ));
}

#[test]
fn router_ch2_dat_url() {
    assert!(matches!(
        classify("https://example.invalid/board/dat/1234.dat"),
        Some(BoardKind::Ch2Compat)
    ));
}

#[test]
fn shitaraba_read_cgi_with_l30_suffix_classifies() {
    assert!(matches!(
        classify("https://jbbs.shitaraba.net/bbs/read.cgi/c/4567/1234567/l30"),
        Some(BoardKind::Shitaraba)
    ));
}

#[test]
fn ch2_non_5ch_host_classifies() {
    assert!(matches!(
        classify("https://example-bbs.invalid/test/read.cgi/myboard/1558097910/"),
        Some(BoardKind::Ch2Compat)
    ));
}

#[test]
fn unknown_host_is_none() {
    assert!(classify("https://www.example.com/random/path/with/extras").is_none());
}

#[test]
fn ch2_http_multi_segment_board_classifies() {
    assert!(matches!(
        classify("http://hibino.ddo.jp/bbs/peca/"),
        Some(BoardKind::Ch2Compat)
    ));
}

#[test]
fn shitaraba_board_only() {
    let u = parse_shitaraba("https://jbbs.shitaraba.net/computer/4567/").unwrap();
    assert_eq!(u.category, "computer");
    assert_eq!(u.board_id, "4567");
    assert!(u.key.is_none());
}

#[test]
fn shitaraba_read_cgi() {
    let u = parse_shitaraba("https://jbbs.shitaraba.net/bbs/read.cgi/computer/4567/1234567/")
        .unwrap();
    assert_eq!(u.category, "computer");
    assert_eq!(u.board_id, "4567");
    assert_eq!(u.key.as_deref(), Some("1234567"));
}

#[test]
fn shitaraba_read_cgi_drake_real_url() {
    let u = parse_shitaraba("https://jbbs.shitaraba.net/bbs/read.cgi/internet/22667/1696385564/")
        .unwrap();
    assert_eq!(u.category, "internet");
    assert_eq!(u.board_id, "22667");
    assert_eq!(u.key.as_deref(), Some("1696385564"));
}

#[test]
fn shitaraba_rawmode() {
    let u = parse_shitaraba("https://jbbs.shitaraba.net/bbs/rawmode.cgi/c/1/2/").unwrap();
    assert_eq!(u.category, "c");
    assert_eq!(u.board_id, "1");
    assert_eq!(u.key.as_deref(), Some("2"));
}

#[test]
fn url_ch2_read_cgi() {
    let u = parse_ch2("https://example.invalid/test/read.cgi/news4vip/1234567890/").unwrap();
    assert_eq!(u.host, "example.invalid");
    assert_eq!(u.board, "news4vip");
    assert_eq!(u.key.as_deref(), Some("1234567890"));
}

#[test]
fn url_ch2_dat_url() {
    let u = parse_ch2("https://example.invalid/news4vip/dat/1234567890.dat").unwrap();
    assert_eq!(u.board, "news4vip");
    assert_eq!(u.key.as_deref(), Some("1234567890"));
}

#[test]
fn ch2_board_only() {
    let u = parse_ch2("https://example.invalid/news4vip/").unwrap();
    assert_eq!(u.board, "news4vip");
    assert!(u.key.is_none());
}

#[test]
fn shitaraba_read_cgi_with_l30_suffix() {
    let u = parse_shitaraba("https://jbbs.shitaraba.net/bbs/read.cgi/c/4567/1234567/l30").unwrap();
    assert_eq!(u.category, "c");
    assert_eq!(u.board_id, "4567");
    assert_eq!(u.key.as_deref(), Some("1234567"));
}

#[test]
fn ch2_read_cgi_non_5ch_host() {
    let u = parse_ch2("https://example-bbs.invalid/test/read.cgi/myboard/1558097910/").unwrap();
    assert_eq!(u.host, "example-bbs.invalid");
    assert_eq!(u.board, "myboard");
    assert_eq!(u.key.as_deref(), Some("1558097910"));
}

#[test]
fn ch2_http_multi_segment_board() {
    let u = parse_ch2("http://hibino.ddo.jp/bbs/peca/").unwrap();
    assert_eq!(u.scheme, "http");
    assert_eq!(u.host, "hibino.ddo.jp");
    assert_eq!(u.board, "bbs/peca");
    assert!(u.key.is_none());
}

#[test]
fn ch2_http_multi_segment_dat() {
    let u = parse_ch2("http://hibino.ddo.jp/bbs/peca/dat/1781433331.dat").unwrap();
    assert_eq!(u.scheme, "http");
    assert_eq!(u.board, "bbs/peca");
    assert_eq!(u.key.as_deref(), Some("1781433331"));
}

#[test]
fn ch2_read_cgi_multi_segment_board() {
    let u = parse_ch2("http://hibino.ddo.jp/test/read.cgi/bbs/peca/1781433331/").unwrap();
    assert_eq!(u.scheme, "http");
    assert_eq!(u.board, "bbs/peca");
    assert_eq!(u.key.as_deref(), Some("1781433331"));
}

#[test]
fn ch2_scheme_and_single_segment_preserved() {
    let u = parse_ch2("https://example.invalid/news4vip/").unwrap();
    assert_eq!(u.scheme, "https");
    assert_eq!(u.board, "news4vip");
}

#[test]
fn board_and_thread_urls_are_canonical() {
    assert_eq!(
        build_board_url("https://jbbs.shitaraba.net/bbs/read.cgi/game/51638/1587841373/").unwrap(),
        "https://jbbs.shitaraba.net/game/51638/"
    );
    assert_eq!(
        build_board_url("http://hibino.ddo.jp/test/read.cgi/bbs/peca/1781433331/").unwrap(),
        "http://hibino.ddo.jp/bbs/peca/"
    );
    assert_eq!(
        build_thread_url("https://jbbs.shitaraba.net/game/51638/", "1587841373").unwrap(),
        "https://jbbs.shitaraba.net/bbs/read.cgi/game/51638/1587841373/"
    );
    assert_eq!(
        build_thread_url("http://hibino.ddo.jp/bbs/peca/", "1781433331").unwrap(),
        "http://hibino.ddo.jp/test/read.cgi/bbs/peca/1781433331/"
    );
}

#[test]
fn thread_url_rejects_bad_keys_and_urls() {
    assert_eq!(
        build_thread_url("http://hibino.ddo.jp/bbs/peca/", "12a"),
        Err(AppError::InvalidUrl("invalid thread key: 12a".into()))
    );
    assert_eq!(
        build_thread_url("http://hibino.ddo.jp/bbs/peca/", ""),
        Err(AppError::InvalidUrl("invalid thread key: ".into()))
    );
    assert_eq!(
        build_board_url("ftp://x/"),
        Err(AppError::InvalidUrl("not a BBS URL: ftp://x/".into()))
    );
    assert_eq!(
        build_board_url("https://x.jbbs.shitaraba.net/a/b/"),
        Err(AppError::InvalidUrl(
            "not a shitaraba URL: https://x.jbbs.shitaraba.net/a/b/".into()
        ))
    );
}

#[test]
fn url_grammar_edge_cases() {
    // greedy board in read.cgi: the last "/digits" wins
    let u = parse_ch2("http://h/test/read.cgi/a/12/34/").unwrap();
    assert_eq!(u.board, "a/12");
    assert_eq!(u.key.as_deref(), Some("34"));
    // a bbs/read.cgi prefix without a board is a category after all
    let u = parse_shitaraba("https://jbbs.shitaraba.net/bbs/read.cgi/c/").unwrap();
    assert_eq!(u.category, "bbs");
    assert_eq!(u.board_id, "read.cgi");
    assert_eq!(u.key.as_deref(), None);
    // board segment that ends without slash
    let u = parse_ch2("https://h/a/b").unwrap();
    assert_eq!(u.board, "a/b");
    assert!(classify("https://h/a/b").is_none());
    assert!(matches!(classify("https://h/a"), Some(BoardKind::Ch2Compat)));
    assert!(classify("https://h/").is_none());
}

#[test]
fn thread_urls_read_back() {
    let t = build_thread_url("https://jbbs.shitaraba.net/game/51638/", "1587841373").unwrap();
    let u = parse_shitaraba(&t).unwrap();
    assert_eq!(u.category, "game");
    assert_eq!(u.board_id, "51638");
    assert_eq!(u.key.as_deref(), Some("1587841373"));

    let t = build_thread_url("http://hibino.ddo.jp/bbs/peca/", "1781433331").unwrap();
    let u = parse_ch2(&t).unwrap();
    assert_eq!(u.scheme, "http");
    assert_eq!(u.host, "hibino.ddo.jp");
    assert_eq!(u.board, "bbs/peca");
    assert_eq!(u.key.as_deref(), Some("1781433331"));

    // a board whose own segments end in digits still reads back whole
    let t = build_thread_url("https://h.example/a/12/", "34").unwrap();
    let u = parse_ch2(&t).unwrap();
    assert_eq!(u.board, "a/12");
    assert_eq!(u.key.as_deref(), Some("34"));
}

#[test]
fn board_top_urls_are_fixed_points() {
    for b in [
        "https://jbbs.shitaraba.net/game/51638/",
        "https://jbbs.shitaraba.net/bbs/read.cgi/",
        "http://hibino.ddo.jp/bbs/peca/",
        "https://example.invalid/news4vip/",
    ] {
        assert_eq!(build_board_url(b).unwrap(), b);
    }
    // board URLs built from thread URLs are fixed points too
    for u in [
        "https://jbbs.shitaraba.net/bbs/read.cgi/game/51638/1587841373/",
        "http://hibino.ddo.jp/test/read.cgi/bbs/peca/1781433331/",
    ] {
        let b = build_board_url(u).unwrap();
        assert_eq!(build_board_url(&b).unwrap(), b);
    }
    // a board URL that is also read as a shitaraba host is not one
    let b = build_board_url("http://x/test/read.cgi/a.jbbs.shitaraba.net/1/").unwrap();
    assert_eq!(b, "http://x/a.jbbs.shitaraba.net/");
    assert!(build_board_url(&b).is_err());
}
