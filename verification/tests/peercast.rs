use pst_core::cli::CliArgs;
use pst_core::config::schema::PeerCastConfig;
use pst_core::peercast::client::{endpoint_for, endpoint_for_with_auth, resolve_endpoint};
use pst_core::peercast::types::{fill_contact_url, ChannelId, ChannelInfo, PeerCastEndpoint, Track};
use pst_core::peercast::url::{build_pls_url, parse, UrlKind};
use pst_core::util::errors::AppError;

const ID: &str = "0123456789ABCDEF0123456789ABCDEF";
const ID_LOWER: &str = "0123456789abcdef0123456789abcdef";

#[test]
fn falls_back_to_config_when_cli_url_absent() {
    let cli = CliArgs::default();
    let cfg = PeerCastConfig {
        host: "192.0.2.55".into(),
        port: 7148,
        auth_user: Some("u".into()),
        auth_pass: Some("p".into()),
        timeout_sec: 5,
        recent_hosts: vec![],
        yp_url: String::new(),
    };
    let ep = resolve_endpoint(&cli, &cfg);
    assert_eq!(ep.host, "192.0.2.55");
    assert_eq!(ep.port, 7148);
    assert_eq!(ep.auth.unwrap().user, "u");
}

#[test]
fn cli_url_host_wins_over_config() {
    let cli = CliArgs {
        url: Some("http://192.0.2.99:7150/pls/0123456789ABCDEF0123456789ABCDEF".into()),
        ..Default::default()
    };
    let cfg = PeerCastConfig {
        host: "localhost".into(),
        port: 7144,
        ..Default::default()
    };
    let ep = resolve_endpoint(&cli, &cfg);
    assert_eq!(ep.host, "192.0.2.99");
    assert_eq!(ep.port, 7150);
}

#[test]
fn invalid_cli_url_falls_back_to_config() {
    let cli = CliArgs {
        url: Some("not a url".into()),
        ..Default::default()
    };
    let cfg = PeerCastConfig {
        host: "h".into(),
        port: 1234,
        ..Default::default()
    };
    let ep = resolve_endpoint(&cli, &cfg);
    assert_eq!(ep.host, "h");
    assert_eq!(ep.port, 1234);
}

#[test]
fn endpoint_for_with_auth_attaches_config_creds() {
    let cfg = PeerCastConfig {
        auth_user: Some("admin".into()),
        auth_pass: Some("secret".into()),
        ..Default::default()
    };
    let ep = endpoint_for_with_auth("http://192.0.2.55:7148/pls/0123456789ABCDEF0123456789ABCDEF", &cfg).unwrap();
    assert_eq!(ep.host, "192.0.2.55");
    assert_eq!(ep.port, 7148);
    let auth = ep.auth.expect("auth attached");
    assert_eq!(auth.user, "admin");
    assert_eq!(auth.pass, "secret");
}

#[test]
fn endpoint_for_with_auth_omits_creds_when_blank() {
    let cfg = PeerCastConfig::default();
    let ep = endpoint_for_with_auth("http://localhost:7144/pls/0123456789ABCDEF0123456789ABCDEF", &cfg).unwrap();
    assert!(ep.auth.is_none());
}

#[test]
fn empty_auth_is_ignored() {
    let cli = CliArgs::default();
    let cfg = PeerCastConfig {
        auth_user: Some(String::new()),
        auth_pass: Some(String::new()),
        ..Default::default()
    };
    let ep = resolve_endpoint(&cli, &cfg);
    assert!(ep.auth.is_none());
}

#[test]
fn endpoint_for_reports_invalid_urls() {
    let ep = endpoint_for("http://[2001:db8::1]:7144/stream/0123456789abcdef0123456789abcdef.flv").unwrap();
    assert_eq!(ep.host, "[2001:db8::1]");
    assert_eq!(ep.port, 7144);
    match endpoint_for("http://h:99999/pls/0123456789abcdef0123456789abcdef") {
        Err(AppError::InvalidUrl(m)) => {
            assert_eq!(m, "invalid port in http://h:99999/pls/0123456789abcdef0123456789abcdef")
        }
        other => panic!("unexpected {other:?}"),
    }
    match endpoint_for("ftp://h:1/pls/x") {
        Err(AppError::InvalidUrl(m)) => assert_eq!(m, "not a recognised PeerCast URL: ftp://h:1/pls/x"),
        other => panic!("unexpected {other:?}"),
    }
}

#[test]
fn pls_minimum() {
    let p = parse(&format!("http://localhost:7144/pls/{ID}")).unwrap();
    assert_eq!(p.kind, UrlKind::Playlist);
    assert_eq!(p.endpoint.host, "localhost");
    assert_eq!(p.endpoint.port, 7144);
    assert_eq!(p.channel_id.as_str(), ID_LOWER);
    assert_eq!(p.ext, None);
    assert_eq!(p.tip, None);
}

#[test]
fn pls_with_ext_and_tip() {
    let p = parse(&format!("http://192.0.2.10:7144/pls/{ID}.flv?tip=192.0.2.99:7144")).unwrap();
    assert_eq!(p.kind, UrlKind::Playlist);
    assert_eq!(p.endpoint.host, "192.0.2.10");
    assert_eq!(p.endpoint.port, 7144);
    assert_eq!(p.ext.as_deref(), Some("flv"));
    assert_eq!(p.tip.as_deref(), Some("192.0.2.99:7144"));
}

#[test]
fn stream_form() {
    let p = parse(&format!("http://localhost:7144/stream/{ID}.flv")).unwrap();
    assert_eq!(p.kind, UrlKind::Stream);
    assert_eq!(p.ext.as_deref(), Some("flv"));
}

#[test]
fn play_html() {
    let p = parse(&format!("http://localhost:7144/play.html?id={ID}")).unwrap();
    assert_eq!(p.kind, UrlKind::PlayHtml);
    assert_eq!(p.channel_id.as_str(), ID_LOWER);
}

#[test]
fn rejects_unknown_path() {
    assert!(parse("http://localhost:7144/foo/bar").is_err());
}

#[test]
fn rejects_bad_id_length() {
    let bad = "0123456789abcdef0123456789abcde";
    assert!(parse(&format!("http://localhost:7144/pls/{bad}")).is_err());
}

#[test]
fn normalises_case() {
    let mixed = "0123456789AbCdEf0123456789aBcDeF";
    let p = parse(&format!("http://localhost:7144/pls/{mixed}")).unwrap();
    assert_eq!(p.channel_id.as_str(), ID_LOWER);
}

#[test]
fn build_pls_url_without_tip() {
    let u = build_pls_url("localhost", 7144, ID_LOWER, None);
    assert_eq!(u, format!("http://localhost:7144/pls/{ID_LOWER}"));
}

#[test]
fn build_pls_url_with_tip() {
    let u = build_pls_url("localhost", 7144, ID_LOWER, Some("192.0.2.99:7144"));
    assert_eq!(u, format!("http://localhost:7144/pls/{ID_LOWER}?tip=192.0.2.99:7144"));
    let p = parse(&u).unwrap();
    assert_eq!(p.tip.as_deref(), Some("192.0.2.99:7144"));
}

#[test]
fn build_pls_url_drops_empty_or_blank_tip() {
    let cases = ["", "   ", "\t"];
    for tip in cases {
        let u = build_pls_url("h", 1, ID_LOWER, Some(tip));
        assert!(!u.contains("tip="), "expected no tip for {tip:?}: {u}");
    }
}

#[test]
fn build_pls_url_rejects_unsafe_tip() {
    let cases = [
        "1.2.3.4:80&record_on_start=1",
        "1.2.3.4:80?evil=1",
        "1.2.3.4:80 evil",
        "1.2.3.4:80\nevil",
        "1.2.3.4",
        "evil",
        "ホスト:7144",
    ];
    for tip in cases {
        let u = build_pls_url("h", 1, ID_LOWER, Some(tip));
        assert!(!u.contains("tip="), "expected no tip for {tip:?}: {u}");
    }
}

#[test]
fn build_pls_url_accepts_ipv6_bracketed_tip() {
    let u = build_pls_url("h", 1, ID_LOWER, Some("[2001:db8::1]:7144"));
    assert!(u.contains("?tip=[2001:db8::1]:7144"), "got: {u}");
}

#[test]
fn pls_url_round_trips_through_parse() {
    for (host, port, tip) in [("example.invalid", 0u16, Some(" 10.0.0.1:7144 ")), ("pc", 65535, None), ("h", 8080, Some("bad tip")), ("[::1]", 7144, Some("[2001:db8::1]:7144"))] {
        let u = build_pls_url(host, port, ID, tip);
        let p = parse(&u).unwrap();
        assert_eq!(p.kind, UrlKind::Playlist);
        assert_eq!(p.endpoint.host, host);
        assert_eq!(p.endpoint.port, port);
        assert_eq!(p.channel_id.as_str(), ID_LOWER);
        assert_eq!(p.ext, None);
        assert_eq!(p.tip.as_deref(), tip.map(str::trim).filter(|t| !t.contains(' ')));
    }
}

#[test]
fn play_html_takes_the_last_id_after_an_ampersand() {
    let other = "fedcba9876543210fedcba9876543210";
    let p = parse(&format!("http://h:1/play.html?id={ID}&x=1&id={other}&y")).unwrap();
    assert_eq!(p.kind, UrlKind::PlayHtml);
    assert_eq!(p.channel_id.as_str(), other);
    assert_eq!(p.tip, None);
}

#[test]
fn tip_search_stops_at_a_pair_without_equals() {
    let p = parse(&format!("http://h:1/pls/{ID}?flag&tip=1.2.3.4:5")).unwrap();
    assert_eq!(p.tip, None);
    let p = parse(&format!("http://h:1/pls/{ID}?a=b&tip=1.2.3.4:5")).unwrap();
    assert_eq!(p.tip.as_deref(), Some("1.2.3.4:5"));
}

#[test]
fn channel_id_parse_and_base_url() {
    assert_eq!(ChannelId::parse(ID).unwrap().as_str(), ID_LOWER);
    assert_eq!(ChannelId::parse("xyz").unwrap_err(), "channel id must be 32 hex digits");
    let ep = PeerCastEndpoint { host: "localhost".into(), port: 7144, auth: None };
    assert_eq!(ep.base_url(), "http://localhost:7144");
}

#[test]
fn contact_url_falls_back_to_track_url() {
    let info = ChannelInfo {
        name: "X".into(),
        url: " ".into(),
        genre: String::new(),
        desc: String::new(),
        comment: String::new(),
        bitrate: 0,
        content_type: String::new(),
    };
    let track = Track { name: String::new(), url: "http://contact.example/thread/".into() };
    assert_eq!(fill_contact_url(info.clone(), &track).url, "http://contact.example/thread/");
    let kept = ChannelInfo { url: "http://bbs/".into(), ..info };
    assert_eq!(fill_contact_url(kept, &track).url, "http://bbs/");
}
