use pst_core::bbs::ch2::{self, split_overlap, DatStep, OverlapCheck, PostStep};
use pst_core::bbs::shitaraba::{self, BoardLocation};
use pst_core::bbs::types::{FetchState, PostRequest};
use pst_core::util::errors::AppError;

#[test]
fn ch2_url_builders() {
    assert_eq!(
        ch2::subject_url("https", "example.invalid", "news4vip"),
        "https://example.invalid/news4vip/subject.txt"
    );
    assert_eq!(
        ch2::dat_url("https", "example.invalid", "news4vip", "1234567890"),
        "https://example.invalid/news4vip/dat/1234567890.dat"
    );
    assert_eq!(ch2::write_url("https", "example.invalid"), "https://example.invalid/test/bbs.cgi");
}

#[test]
fn url_builders_http_multi_segment_board() {
    assert_eq!(
        ch2::subject_url("http", "hibino.ddo.jp", "bbs/peca"),
        "http://hibino.ddo.jp/bbs/peca/subject.txt"
    );
    assert_eq!(
        ch2::dat_url("http", "hibino.ddo.jp", "bbs/peca", "1781433331"),
        "http://hibino.ddo.jp/bbs/peca/dat/1781433331.dat"
    );
    assert_eq!(ch2::write_url("http", "hibino.ddo.jp"), "http://hibino.ddo.jp/test/bbs.cgi");
}

#[test]
fn continued_with_new_data() {
    let b = b"\nfoo<>bar\n";
    match split_overlap(b) {
        OverlapCheck::Continued(rest) => assert_eq!(rest, b"foo<>bar\n"),
        OverlapCheck::Rebuilt => panic!("should continue"),
    }
}

#[test]
fn continued_no_new_data() {
    match split_overlap(b"\n") {
        OverlapCheck::Continued(rest) => assert!(rest.is_empty()),
        OverlapCheck::Rebuilt => panic!("should continue"),
    }
}

#[test]
fn rebuilt_when_first_byte_differs() {
    assert!(matches!(split_overlap(b"abc"), OverlapCheck::Rebuilt));
}

fn state(count: u32, byte: u64, lm: Option<&str>) -> FetchState {
    FetchState { last_modified: lm.map(str::to_string), last_byte: byte, last_count: count, full_reload: false }
}

#[test]
fn dat_request_asks_again_for_the_last_byte() {
    let prev = state(3, 100, Some("Tue, 01 Jan 2030 00:00:00 GMT"));
    let q = ch2::dat_request("https://example.invalid/test/read.cgi/board/1234/", Some(&prev)).unwrap();
    assert_eq!(q.url, "https://example.invalid/board/dat/1234.dat");
    assert_eq!(q.range_from, Some(99));
    assert_eq!(q.if_modified_since.as_deref(), Some("Tue, 01 Jan 2030 00:00:00 GMT"));
    let first = ch2::dat_request("https://example.invalid/board/dat/1234.dat", None).unwrap();
    assert_eq!(first.range_from, None);
    assert!(matches!(
        ch2::dat_request("https://example.invalid/board/", None),
        Err(AppError::InvalidUrl(m)) if m == "missing thread key in: https://example.invalid/board/"
    ));
}

#[test]
fn dat_response_steps() {
    let prev = state(2, 50, Some("lm0"));
    match ch2::dat_response(Some(&prev), 304, "304 Not Modified", None, b"") {
        DatStep::Done(posts, s) => {
            assert!(posts.is_empty());
            assert_eq!((s.last_count, s.last_byte, s.full_reload), (2, 50, false));
            assert_eq!(s.last_modified.as_deref(), Some("lm0"));
        }
        other => panic!("{other:?}"),
    }
    assert!(matches!(ch2::dat_response(Some(&prev), 416, "416", None, b""), DatStep::Refetch));
    assert!(matches!(
        ch2::dat_response(Some(&prev), 404, "404 Not Found", None, b""),
        DatStep::Failed(AppError::Network(m)) if m == "dat returned 404 Not Found"
    ));
    assert!(matches!(ch2::dat_response(Some(&prev), 206, "206", None, b"xyz"), DatStep::Refetch));
    match ch2::dat_response(Some(&prev), 206, "206", Some("lm1".into()), b"\n") {
        DatStep::Done(posts, s) => {
            assert!(posts.is_empty());
            assert_eq!((s.last_count, s.last_byte), (2, 50));
            assert_eq!(s.last_modified.as_deref(), Some("lm1"));
        }
        other => panic!("{other:?}"),
    }
    let body = b"\nname<>sage<>2030/01/01 ID:abc<>hello<>\nn2<><>d<>b2<>\n";
    match ch2::dat_response(Some(&prev), 206, "206", None, body) {
        DatStep::Done(posts, s) => {
            assert_eq!(posts.len(), 2);
            assert_eq!(posts[0].number, 3);
            assert_eq!(posts[1].number, 4);
            assert_eq!(posts[0].body, "hello");
            assert_eq!(s.last_count, 4);
            assert_eq!(s.last_byte, 50 + (body.len() as u64) - 1);
            assert!(!s.full_reload);
        }
        other => panic!("{other:?}"),
    }
    match ch2::dat_response(None, 200, "200 OK", None, b"a<>b<>c<>d<>title\n") {
        DatStep::Done(posts, s) => {
            assert_eq!(posts.len(), 1);
            assert_eq!(posts[0].number, 1);
            assert_eq!(posts[0].thread_title, "title");
            assert_eq!((s.last_count, s.last_byte, s.full_reload), (1, 18, true));
        }
        other => panic!("{other:?}"),
    }
}

#[test]
fn ch2_post_form_and_reply() {
    let req = PostRequest { name: "n".into(), mail: "sage".into(), body: "hi you".into() };
    let f = ch2::post_form("https://example.invalid/test/read.cgi/board/1234/", &req, 1700000000).unwrap();
    assert_eq!(f.url, "https://example.invalid/test/bbs.cgi");
    assert_eq!(f.referer, "https://example.invalid/board/");
    assert!(f.body.starts_with("bbs=board&key=1234&FROM=n&mail=sage&MESSAGE=hi%20you&time=1700000000&submit=%"));
    assert!(matches!(ch2::post_reply(true, b"<!-- 2ch_X:true -->"), PostStep::Finished(Ok(()))));
    assert!(matches!(ch2::post_reply(true, b"<!-- 2ch_X:cookie -->"), PostStep::Resend));
    assert!(matches!(
        ch2::post_reply(false, b"<!-- 2ch_X:cookie -->"),
        PostStep::Finished(Err(AppError::PostRejected(m))) if m == "Cookie 確認の再送でも投稿が通りませんでした"
    ));
    assert!(matches!(ch2::post_reply(false, b"ERROR!"), PostStep::Finished(Err(AppError::PostRejected(_)))));
}

#[test]
fn shitaraba_url_builders() {
    let loc = BoardLocation { category: "computer".into(), board_id: "4567".into(), key: None };
    assert_eq!(shitaraba::subject_url(&loc), "https://jbbs.shitaraba.net/computer/4567/subject.txt");
    assert_eq!(
        shitaraba::rawmode_url(&loc, "1234"),
        "https://jbbs.shitaraba.net/bbs/rawmode.cgi/computer/4567/1234/"
    );
    assert_eq!(shitaraba::write_url(&loc), "https://jbbs.shitaraba.net/bbs/write.cgi/computer/4567/");
}

#[test]
fn parse_loc_rejects_non_shitaraba() {
    assert!(shitaraba::parse_loc("https://example.invalid/").is_err());
}

#[test]
fn parse_loc_extracts_key() {
    let loc = shitaraba::parse_loc("https://jbbs.shitaraba.net/bbs/read.cgi/c/1/2/").unwrap();
    assert_eq!(loc.category, "c");
    assert_eq!(loc.board_id, "1");
    assert_eq!(loc.key.as_deref(), Some("2"));
}

#[test]
fn rawmode_request_and_response() {
    let prev = state(7, 0, Some("lm"));
    let (url, ims) = shitaraba::rawmode_request("https://jbbs.shitaraba.net/bbs/read.cgi/c/1/2/", Some(&prev)).unwrap();
    assert_eq!(url, "https://jbbs.shitaraba.net/bbs/rawmode.cgi/c/1/2/8-");
    assert_eq!(ims.as_deref(), Some("lm"));
    let (url, _) = shitaraba::rawmode_request("https://jbbs.shitaraba.net/bbs/read.cgi/c/1/2/", None).unwrap();
    assert_eq!(url, "https://jbbs.shitaraba.net/bbs/rawmode.cgi/c/1/2/");
    let (posts, s) = shitaraba::rawmode_response(Some(&prev), 200, "200 OK", None, b"8<>a<><>d<>b<>t\n9<>a<><>d<>b<>\n").unwrap();
    assert_eq!(posts.len(), 2);
    assert_eq!(s.last_count, 9);
    assert!(!s.full_reload);
    // the whole thread, asked for without an earlier state, replaces the list
    let (posts, s) = shitaraba::rawmode_response(None, 200, "200 OK", None, b"1<>a<><>d<>b<>t\n").unwrap();
    assert_eq!(posts.len(), 1);
    assert_eq!(s.last_count, 1);
    assert!(s.full_reload);
    // a 304 replaces nothing, whatever the state held said
    let held = FetchState { full_reload: true, ..state(7, 0, Some("lm")) };
    let (posts, s) = shitaraba::rawmode_response(Some(&held), 304, "304 Not Modified", None, b"").unwrap();
    assert!(posts.is_empty());
    assert_eq!((s.last_count, s.full_reload), (7, false));
    let (posts, s) = shitaraba::rawmode_response(Some(&prev), 200, "200 OK", None, b"").unwrap();
    assert!(posts.is_empty());
    assert_eq!(s.last_count, 7);
    assert!(matches!(
        shitaraba::rawmode_response(Some(&prev), 500, "500 Internal Server Error", None, b""),
        Err(AppError::Network(m)) if m == "rawmode returned 500 Internal Server Error"
    ));
}

#[test]
fn shitaraba_post_form_and_reply() {
    let req = PostRequest { name: String::new(), mail: String::new(), body: "a&b".into() };
    let f = shitaraba::post_form("https://jbbs.shitaraba.net/bbs/read.cgi/c/1/2/", &req, 5).unwrap();
    assert_eq!(f.url, "https://jbbs.shitaraba.net/bbs/write.cgi/c/1/");
    assert_eq!(f.referer, "https://jbbs.shitaraba.net/c/1/");
    assert!(f.body.starts_with("DIR=c&BBS=1&KEY=2&NAME=&MAIL=&MESSAGE=a%26b&TIME=5&submit="));
    // RESULT::CHECK asks for the same post once more, and is no success
    assert!(matches!(shitaraba::post_reply(true, b"RESULT::CHECK"), PostStep::Resend));
    assert!(matches!(
        shitaraba::post_reply(false, b"RESULT::CHECK"),
        PostStep::Finished(Err(AppError::PostRejected(m)))
            if m == "Cookie 確認画面が返ってきました (ブラウザで一度書き込んで確認画面を抜けてください)"
    ));
    assert!(matches!(shitaraba::post_reply(true, b"ERROR"), PostStep::Finished(Err(_))));
}
