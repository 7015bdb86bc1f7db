use pst_core::server::auto_record::{auto_record_start, grace_or_default, has_auto_rule, interval_or_default, PendingStops};
use pst_core::server::config::{log_dir, upstream_endpoint, LogConfig, PeerCastUpstream, RecordingConfig};
use pst_core::server::error::ApiError;
use pst_core::server::handlers::{prev_state, unsupported_bbs_url, ThreadQuery};
use pst_core::server::hls::{
    check_segment_request, is_playlist_content_type, is_safe_path_component, playlist_channel_id,
    rewrite_playlist_body, upstream_playlist_url, upstream_segment_url,
};
use pst_core::server::recording::{admit_recording, recording_target, sort_by_channel_id, upstream_stream_url, RecordingEntry};
use pst_core::server::serve::{parse_config_arg, parse_port, parse_value};
use pst_core::server::stream_proxy::flv_channel_id;
use pst_core::favorites::{FavoriteAction, FavoriteRule};
use pst_core::peercast::types::ChannelInfo;
use pst_core::util::errors::AppError;

#[test]
fn rewrites_absolute_upstream_urls_to_local_paths() {
    let body = "#EXTM3U\nhttp://192.168.0.5:7144/hls/abc?session=X\nseg-1.ts\n";
    let out = rewrite_playlist_body(body, "192.168.0.5", 7144);
    assert_eq!(out, "#EXTM3U\n/hls/abc?session=X\nseg-1.ts\n");
}

#[test]
fn accepts_normal_ids_and_segments() {
    assert!(is_safe_path_component("0123456789abcdef0123456789abcdef"));
    assert!(is_safe_path_component("seg-1.ts"));
    assert!(is_safe_path_component("index.m3u8"));
}

#[test]
fn rejects_path_traversal() {
    assert!(!is_safe_path_component(""));
    assert!(!is_safe_path_component(".."));
    assert!(!is_safe_path_component("../etc/passwd"));
    assert!(!is_safe_path_component("a/b"));
    assert!(!is_safe_path_component("a\\b"));
    assert!(!is_safe_path_component("a\0b"));
    assert!(!is_safe_path_component("a\nb"));
    assert!(!is_safe_path_component("a\rb"));
}

#[test]
fn hls_upstream_urls_and_checks() {
    assert_eq!(upstream_playlist_url("h", 7144, "abc", Some("tip=1:2")), "http://h:7144/hls/abc?tip=1:2");
    assert_eq!(upstream_playlist_url("h", 7144, "abc", Some("")), "http://h:7144/hls/abc");
    assert_eq!(upstream_segment_url("h", 1, "abc", "s.ts", None), "http://h:1/hls/abc/s.ts");
    assert_eq!(playlist_channel_id("abc.m3u8").unwrap(), "abc");
    let e = playlist_channel_id("..").unwrap_err();
    assert_eq!((e.status, e.code), (400, "invalid_channel_id"));
    assert_eq!(e.message, "不正な channel_id: ..");
    let e = check_segment_request("abc", "a/b").unwrap_err();
    assert_eq!((e.status, e.code, e.message.as_str()), (400, "invalid_segment", "不正な segment 名: a/b"));
    assert!(is_playlist_content_type(None));
    assert!(is_playlist_content_type(Some("application/vnd.apple.mpegurl")));
    assert!(!is_playlist_content_type(Some("video/mp2t")));
}

#[test]
fn flv_ids_are_alphanumeric() {
    assert_eq!(flv_channel_id("ABC123.flv").unwrap(), "ABC123");
    let e = flv_channel_id("a-b").unwrap_err();
    assert_eq!((e.status, e.code, e.message.as_str()), (400, "invalid_channel_id", "不正な channel_id: a-b"));
    assert!(flv_channel_id(".flv").is_err());
}

#[test]
fn api_error_from_app_error() {
    let e = ApiError::from_app_error(AppError::ThreadGone("x".into()));
    assert_eq!((e.status, e.code, e.message.as_str()), (404, "thread_gone", "スレッドが見つかりません: x"));
    let e = ApiError::from_app_error(AppError::PostRejected("y".into()));
    assert_eq!((e.status, e.code), (422, "post_rejected"));
}

fn rec(enabled: bool, dir: &str, ext: &str, max: u32) -> RecordingConfig {
    RecordingConfig { enabled, dir: dir.into(), ext: ext.into(), max_concurrent: max, ..Default::default() }
}

#[test]
fn recording_checks() {
    let e = recording_target(&rec(false, "/r", "", 0)).unwrap_err();
    assert_eq!((e.status, e.code), (503, "recording_disabled"));
    let e = recording_target(&rec(true, "  ", "", 0)).unwrap_err();
    assert_eq!(e.message, "[recording] dir が空なので録画機能は無効です");
    let t = recording_target(&rec(true, " /r ", " ..mkv ", 0)).unwrap();
    assert_eq!((t.dir.as_str(), t.ext.as_str(), t.max), ("/r", "mkv", 8));
    let t = recording_target(&rec(true, "/r", "", 2)).unwrap();
    assert_eq!((t.ext.as_str(), t.max), ("flv", 2));
    let e = admit_recording("ch1", true, 0, 8).unwrap_err();
    assert_eq!((e.status, e.code, e.message.as_str()), (409, "recording_busy", "チャンネル ch1 は既に録画中です"));
    let e = admit_recording("ch1", false, 2, 2).unwrap_err();
    assert_eq!(e.message, "同時録画の上限 (2) に達しています。停止してから再試行してください");
    assert!(admit_recording("ch1", false, 1, 2).is_ok());
    assert_eq!(upstream_stream_url("h", 7144, "ID", "flv"), "http://h:7144/stream/ID.flv");
}

#[test]
fn recordings_are_listed_by_channel_id() {
    let e = |id: &str| RecordingEntry { channel_id: id.into(), channel_name: String::new(), path: String::new() };
    let out = sort_by_channel_id(vec![e("b"), e("ab"), e("a"), e("B"), e("aa")]);
    let ids: Vec<&str> = out.iter().map(|x| x.channel_id.as_str()).collect();
    assert_eq!(ids, vec!["B", "a", "aa", "ab", "b"]);
}

#[test]
fn recordings_with_one_id_keep_their_order() {
    let e = |id: &str, p: &str| RecordingEntry { channel_id: id.into(), channel_name: String::new(), path: p.into() };
    let out = sort_by_channel_id(vec![e("b", "1"), e("a", "2"), e("b", "3"), e("a", "4"), e("b", "5")]);
    let got: Vec<(&str, &str)> = out.iter().map(|x| (x.channel_id.as_str(), x.path.as_str())).collect();
    assert_eq!(got, vec![("a", "2"), ("a", "4"), ("b", "1"), ("b", "3"), ("b", "5")]);
}

#[test]
fn auto_record_decisions() {
    assert_eq!(interval_or_default(0), 60);
    assert_eq!(interval_or_default(5), 5);
    assert_eq!(grace_or_default(0), 30);
    let info = ChannelInfo {
        name: String::new(),
        url: String::new(),
        genre: String::new(),
        desc: String::new(),
        comment: String::new(),
        bitrate: 0,
        content_type: String::new(),
    };
    let rules = vec![FavoriteRule { auto_record: true, ..Default::default() }];
    assert!(has_auto_rule(&rules));
    assert_eq!(auto_record_start(&rules, "ID1", &info, false).as_deref(), Some("ID1"));
    assert_eq!(auto_record_start(&rules, "ID1", &info, true), None);
    assert_eq!(auto_record_start(&rules, "", &info, false), None);
    let blocked = vec![
        FavoriteRule { action: FavoriteAction::Block, ..Default::default() },
        FavoriteRule { auto_record: true, ..Default::default() },
    ];
    assert_eq!(auto_record_start(&blocked, "ID1", &info, false), None);
    assert!(!has_auto_rule(&[FavoriteRule::default()]));
}

#[test]
fn pending_stops_wait_out_the_grace() {
    let mut p = PendingStops::new();
    let recording = vec!["a".to_string(), "b".to_string(), "c".to_string()];
    let seen = vec!["b".to_string()];
    p.schedule_missing(&recording, &seen, 100);
    p.schedule_missing(&recording, &[], 200);
    p.cancel("c");
    assert!(p.take_expired(99).is_empty());
    assert_eq!(p.take_expired(150), vec!["a".to_string()]);
    assert_eq!(p.take_expired(250), vec!["b".to_string()]);
    assert!(p.take_expired(1000).is_empty());
}

#[test]
fn a_missing_recording_stops_after_the_grace() {
    let mut p = PendingStops::new();
    let recording = vec!["a".to_string()];
    // absent at 1000 ms with the default grace of 30 s
    p.schedule_missing_at(&recording, &[], 1_000, grace_or_default(0));
    // still absent later: the first deadline stays
    p.schedule_missing_at(&recording, &[], 20_000, grace_or_default(0));
    assert!(p.take_expired(30_999).is_empty());
    assert_eq!(p.take_expired(31_000), vec!["a".to_string()]);
    // a huge grace saturates instead of wrapping
    p.schedule_missing_at(&recording, &[], 5, u64::MAX);
    assert!(p.take_expired(u64::MAX - 1).is_empty());
    assert_eq!(p.take_expired(u64::MAX), vec!["a".to_string()]);
}

#[test]
fn server_config_helpers() {
    let up = PeerCastUpstream { auth_user: Some("u".into()), auth_pass: Some("p".into()), ..Default::default() };
    let ep = upstream_endpoint(&up);
    assert_eq!((ep.host.as_str(), ep.port), ("localhost", 7144));
    assert_eq!(ep.auth.unwrap().user, "u");
    assert_eq!(log_dir(&LogConfig { debug: true, dir: " /tmp/log ".into() }).as_deref(), Some("/tmp/log"));
    assert_eq!(log_dir(&LogConfig { debug: false, dir: "/tmp/log".into() }), None);
    assert_eq!(log_dir(&LogConfig::default()), None);
}

#[test]
fn server_arguments() {
    let args: Vec<String> = ["--server", "--config", "a.toml", "--port=9001"].iter().map(|s| s.to_string()).collect();
    assert_eq!(parse_config_arg(&args).as_deref(), Some("a.toml"));
    assert_eq!(parse_value(&args, "--port").as_deref(), Some("9001"));
    assert_eq!(parse_value(&args, "--bind"), None);
    assert_eq!(parse_port("9001"), Some(9001));
    assert_eq!(parse_port("abc"), None);
    let tail: Vec<String> = vec!["--config".into()];
    assert_eq!(parse_config_arg(&tail), None);
}

#[test]
fn thread_query_state() {
    let q = ThreadQuery { url: "u".into(), last_count: None, last_byte: None, last_modified: None };
    assert!(prev_state(&q).is_none());
    let q = ThreadQuery { url: "u".into(), last_count: Some(4), last_byte: None, last_modified: None };
    let s = prev_state(&q).unwrap();
    assert_eq!((s.last_count, s.last_byte, s.full_reload), (4, 0, false));
    let e = unsupported_bbs_url("x");
    assert_eq!((e.status, e.code, e.message.as_str()), (400, "invalid_url", "not a supported BBS URL: x"));
}
