use pst_core::config::{config_dir_from, config_path, config_path_from};
use pst_core::server::config::server_config_path_from;
use pst_core::util::errors::AppError;
use std::path::PathBuf;
use pst_core::config::schema::{effective_yp_sources, PeerCastConfig, YpConfig, YpSource};
use pst_core::single_instance::{is_pong, lock_file_name, reply_bytes, reply_to, IpcReply, LaunchPolicy};
use pst_core::snapshot::{
    dir_source, make_filename, make_filename_at, next_unique_candidate, numbered_filename, tilde_path, uses_configured_dir,
    DirSource, TildePath,
};
use pst_core::util::http::clamp_peercast_timeout_secs;

#[test]
fn config_path_uses_pstplayer_dir() {
    let p = config_path().unwrap();
    let s = p.to_string_lossy().to_ascii_lowercase();
    assert!(s.contains("pstplayer"), "expected pstplayer in {s}");
    assert!(s.ends_with("config.toml"), "expected config.toml suffix in {s}");
}

#[test]
fn no_yp_returns_empty() {
    let sources = effective_yp_sources(&YpConfig::default(), &PeerCastConfig::default());
    assert!(sources.is_empty());
}

#[test]
fn legacy_yp_url_becomes_one_source_and_explicit_sources_win() {
    let pc = PeerCastConfig { yp_url: " http://yp.example/index.txt ".into(), ..Default::default() };
    let s = effective_yp_sources(&YpConfig::default(), &pc);
    assert_eq!(s.len(), 1);
    assert_eq!(s[0].url, "http://yp.example/index.txt");
    assert_eq!(s[0].name, "YP");
    assert!(s[0].show_tab && s[0].show_in_all);
    let yp = YpConfig {
        sources: vec![YpSource {
            name: "SP".into(),
            url: "http://sp.example/index.txt".into(),
            namespace: String::new(),
            show_tab: false,
            show_in_all: true,
            text_color: String::new(),
            background: String::new(),
        }],
    };
    let s = effective_yp_sources(&yp, &pc);
    assert_eq!(s.len(), 1);
    assert_eq!(s[0].name, "SP");
    assert!(!s[0].show_tab);
}

#[test]
fn peercast_timeout_follows_config_and_clamps() {
    assert_eq!(clamp_peercast_timeout_secs(30), 30);
    assert_eq!(clamp_peercast_timeout_secs(0), 5);
    assert_eq!(clamp_peercast_timeout_secs(100_000), 5);
    assert_eq!(clamp_peercast_timeout_secs(1), 1);
    assert_eq!(clamp_peercast_timeout_secs(60), 60);
    assert_eq!(clamp_peercast_timeout_secs(600), 600);
    assert_eq!(clamp_peercast_timeout_secs(601), 5);
}

#[test]
fn filename_includes_channel_and_extension() {
    let n = make_filename("ニャム", "png");
    assert!(n.ends_with("_ニャム.png"));
}

#[test]
fn filename_strips_unsafe_chars() {
    let n = make_filename("a/b:c*d?e", "png");
    assert!(n.contains("a_b_c_d_e"));
}

#[test]
fn filename_handles_blank_channel() {
    let n = make_filename("   ", "png");
    assert!(n.ends_with(".png"));
    assert!(!n.contains("__"));
}

#[test]
fn filename_normalises_extension() {
    let n = make_filename("ch", ".jpg");
    assert!(n.ends_with("_ch.jpg"));
}

#[test]
fn filename_at_a_given_time() {
    assert_eq!(make_filename_at("20300101_120000", "a|b", " ..flv "), "20300101_120000_a_b.flv");
    assert_eq!(make_filename_at("20300101_120000", " ", "png"), "20300101_120000.png");
    assert_eq!(numbered_filename("shot.png", "png", 2), "shot_2.png");
    assert_eq!(numbered_filename("shot", "png", 13), "shot_13.png");
}

#[test]
fn configured_directories() {
    assert_eq!(tilde_path("~/Pictures"), TildePath::HomeJoin("Pictures".into()));
    assert_eq!(tilde_path("~"), TildePath::Home);
    assert_eq!(tilde_path("/tmp/foo"), TildePath::AsIs("/tmp/foo".into()));
    assert!(uses_configured_dir("/tmp/foo"));
    assert!(!uses_configured_dir("  "));
}

#[test]
fn lock_names_and_messages() {
    assert_eq!(lock_file_name("0123abcd-../x"), "ch-0123abcdx.lock");
    assert_eq!(LaunchPolicy::default(), LaunchPolicy::NewWindow);
    assert_eq!(reply_to(b"ping\n"), IpcReply::Pong);
    assert_eq!(reply_to(b"focus\nxx"), IpcReply::Focus);
    assert_eq!(reply_to(b"pin"), IpcReply::Ignore);
    assert_eq!(reply_bytes(&IpcReply::Pong), b"pong\n".to_vec());
    assert_eq!(reply_bytes(&IpcReply::Focus), b"ok\n".to_vec());
    assert!(is_pong(b"pong\n\0\0\0"));
    assert!(!is_pong(b"pon"));
}

#[test]
fn legacy_yp_url_migrates_to_effective_sources() {
    // an older config: only peercast.yp_url, no yp.sources
    let pc = PeerCastConfig {
        host: "localhost".into(),
        port: 7144,
        timeout_sec: 5,
        yp_url: "http://yp.example/index.txt".into(),
        ..Default::default()
    };
    let sources = effective_yp_sources(&YpConfig::default(), &pc);
    assert_eq!(sources.len(), 1);
    assert_eq!(sources[0].url, "http://yp.example/index.txt");
    assert_eq!(sources[0].name, "YP");
    assert!(sources[0].show_tab);
    assert!(sources[0].show_in_all);
}

#[test]
fn explicit_yp_sources_wins_over_legacy_yp_url() {
    let pc = PeerCastConfig {
        host: "localhost".into(),
        port: 7144,
        timeout_sec: 5,
        yp_url: "http://legacy.example/index.txt".into(),
        ..Default::default()
    };
    let yp = YpConfig {
        sources: vec![YpSource {
            name: "SP".into(),
            url: "http://sp.example/index.txt".into(),
            namespace: String::new(),
            show_tab: true,
            show_in_all: true,
            text_color: String::new(),
            background: String::new(),
        }],
    };
    let sources = effective_yp_sources(&yp, &pc);
    assert_eq!(sources.len(), 1);
    assert_eq!(sources[0].name, "SP");
    assert_eq!(sources[0].url, "http://sp.example/index.txt");
}

#[test]
fn config_paths_follow_the_platform_directory() {
    let d = PathBuf::from("/home/u/.config/PSTPlayer");
    assert_eq!(config_dir_from(Some(d.clone())), Ok(d.clone()));
    assert_eq!(
        config_dir_from(None),
        Err(AppError::Decode("could not resolve project directory".into()))
    );
    assert_eq!(config_path_from(Ok(d.clone())), Ok(d.join("config.toml")));
    assert_eq!(
        config_path_from(Err(AppError::Decode("x".into()))),
        Err(AppError::Decode("x".into()))
    );
    assert_eq!(server_config_path_from(Some(d.clone())), Some(d.join("pst-server.toml")));
    assert_eq!(server_config_path_from(None), None);
}

#[test]
fn resolve_uses_explicit_dir_when_provided() {
    // a configured snapshot_dir of "/tmp/foo" and no executable directory
    let snapshot_dir = "/tmp/foo";
    assert_eq!(dir_source(snapshot_dir, None), DirSource::Configured);
    assert_eq!(tilde_path(snapshot_dir), TildePath::AsIs("/tmp/foo".into()));
}

#[test]
fn dir_source_falls_back_in_order() {
    assert_eq!(dir_source("  ", Some(true)), DirSource::ExeDir);
    assert_eq!(dir_source("", Some(false)), DirSource::Fallback);
    assert_eq!(dir_source("", None), DirSource::Fallback);
    assert_eq!(dir_source("~/x", Some(true)), DirSource::Configured);
}

#[test]
fn unique_candidates_count_to_ninety_nine() {
    assert_eq!(next_unique_candidate("shot.png", "png", 0).as_deref(), Some("shot.png"));
    assert_eq!(next_unique_candidate("shot.png", "png", 1).as_deref(), Some("shot_2.png"));
    assert_eq!(next_unique_candidate("shot.png", "png", 98).as_deref(), Some("shot_99.png"));
    assert_eq!(next_unique_candidate("shot.png", "png", 99), None);
    assert_eq!(next_unique_candidate("shot", "png", 2).as_deref(), Some("shot_3.png"));
}
