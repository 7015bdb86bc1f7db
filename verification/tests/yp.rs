use pst_core::config::schema::YpSource;
use pst_core::peercast::yp::{check_yp_url, merge_fetch_results, parse, parse_line, YpEntry};
use pst_core::util::errors::AppError;

fn line(id: &str, name: &str) -> String {
    [
        name, id, "192.0.2.1:7144", "http://example.invalid/bbs", "Music", "&lt;detail&gt;", "10", "3", "320",
        "FLV", "Artist", "Album", "Title", "http://example.invalid/track", name, "1:23", "click", "hello", "0",
    ]
    .join("<>")
}

#[test]
fn parses_one_entry() {
    let l = line("0123456789ABCDEF0123456789ABCDEF", "TestCh");
    let e = parse_line(&l).unwrap();
    assert_eq!(e.name, "TestCh");
    assert_eq!(e.id, "0123456789abcdef0123456789abcdef");
    assert_eq!(e.listeners, 10);
    assert_eq!(e.relays, 3);
    assert_eq!(e.bitrate, 320);
    assert_eq!(e.desc, "<detail>");
}

#[test]
fn skips_short_lines() {
    assert!(parse_line("too<>few<>fields").is_none());
}

#[test]
fn bad_numbers_read_as_zero() {
    let l = [
        "A", "id", "", "", "", "", "-5", "x", "-1", "", "", "", "", "", "", "", "", "", "",
    ]
    .join("<>");
    let e = parse_line(&l).unwrap();
    assert_eq!(e.listeners, -5);
    assert_eq!(e.relays, 0);
    assert_eq!(e.bitrate, 0);
}

#[test]
fn parse_skips_malformed_lines() {
    let body = format!("{}\r\nbroken\n{}\n", line("AA", "One"), line("BB", "Two"));
    let es = parse(&body);
    assert_eq!(es.len(), 2);
    assert_eq!(es[0].name, "One");
    assert_eq!(es[1].id, "bb");
}

fn src(name: &str) -> YpSource {
    YpSource {
        name: name.into(),
        url: format!("http://{name}.example/index.txt"),
        namespace: String::new(),
        show_tab: true,
        show_in_all: true,
        text_color: String::new(),
        background: String::new(),
    }
}

fn entry(id: &str, name: &str) -> YpEntry {
    YpEntry { id: id.into(), name: name.into(), ..Default::default() }
}

#[test]
fn merge_keeps_first_source_and_reports_failures() {
    let sources = vec![src("SP"), src("TP"), src("EP"), src("XP")];
    let results = vec![
        Some(Ok(vec![entry("AA", "from SP"), entry("", "no id"), entry("bb", "b")])),
        Some(Err("network error: down".to_string())),
        Some(Ok(vec![entry("aa", "from EP"), entry("CC", "c"), entry("cc", "dup")])),
        None,
    ];
    let out = merge_fetch_results(&sources, &results);
    let names: Vec<&str> = out.entries.iter().map(|e| e.name.as_str()).collect();
    assert_eq!(names, vec!["from SP", "b", "c"]);
    assert_eq!(out.entries[0].yp_source, "SP");
    assert_eq!(out.entries[2].yp_source, "EP");
    assert_eq!(out.failures.len(), 1);
    assert_eq!(out.failures[0].source, "TP");
    assert_eq!(out.failures[0].url, "http://TP.example/index.txt");
    assert_eq!(out.failures[0].error, "network error: down");
}

#[test]
fn yp_url_must_be_http() {
    for url in ["file:///etc/passwd", "gopher://internal/x", "ftp://yp.example/index.txt", "javascript:alert(1)"] {
        match check_yp_url(url) {
            Err(AppError::InvalidUrl(m)) => {
                assert_eq!(m, format!("YP URL must start with http:// or https://: {url}"))
            }
            other => panic!("{url}: {other:?}"),
        }
    }
    match check_yp_url("   ") {
        Err(AppError::InvalidUrl(m)) => assert_eq!(m, "YP URL is empty"),
        other => panic!("{other:?}"),
    }
    assert_eq!(check_yp_url(" https://yp.example/index.txt ").unwrap(), "https://yp.example/index.txt");
}
