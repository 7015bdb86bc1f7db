use pst_core::cli::parse;

fn argv(args: &[&str]) -> Vec<String> {
    args.iter().map(|s| (*s).to_string()).collect()
}

#[test]
fn url_only() {
    let a = parse(&argv(&["http://example.invalid:7144/pls/abc"]));
    assert_eq!(a.url.as_deref(), Some("http://example.invalid:7144/pls/abc"));
    assert_eq!(a.channel_name, None);
}

#[test]
fn url_and_name_pcrplayer_style() {
    let a = parse(&argv(&["http://example.invalid:7144/pls/abc", "テスト配信"]));
    assert_eq!(a.channel_name.as_deref(), Some("テスト配信"));
}

#[test]
fn long_options() {
    let a = parse(&argv(&[
        "http://h/",
        "--contact=http://bbs/",
        "--genre",
        "Music",
        "--bitrate=320",
        "--no-bbs",
    ]));
    assert_eq!(a.contact.as_deref(), Some("http://bbs/"));
    assert_eq!(a.genre.as_deref(), Some("Music"));
    assert_eq!(a.bitrate, Some(320));
    assert!(a.no_bbs);
}

#[test]
fn help_short() {
    let a = parse(&argv(&["-h"]));
    assert!(a.show_help);
}

#[test]
fn record_on_start_flag() {
    let a = parse(&argv(&["http://h/pls/x", "--record-on-start"]));
    assert!(a.record_on_start);
    assert_eq!(a.url.as_deref(), Some("http://h/pls/x"));
}

#[test]
fn record_on_start_default_off() {
    let a = parse(&argv(&["http://h/pls/x"]));
    assert!(!a.record_on_start);
}

#[test]
fn version_and_unknown_options() {
    let a = parse(&argv(&["-V", "--future-flag", "x", "--name", "Ch", "pos1", "pos2", "pos3"]));
    assert!(a.show_version);
    assert_eq!(a.channel_name.as_deref(), Some("pos2"));
    assert_eq!(a.url.as_deref(), Some("pos1"));
}

#[test]
fn bad_bitrate_is_dropped_and_trailing_key_has_no_value() {
    let a = parse(&argv(&["--bitrate=abc", "--tip"]));
    assert_eq!(a.bitrate, None);
    assert_eq!(a.tip, None);
    let b = parse(&argv(&["--yp-name", "SP", "--yp-url=http://yp/", "--type=FLV", "--id=ABC", "--desc", "d", "--comment=c", "--minimized", "--no-autoplay", "--help", "--version"]));
    assert_eq!(b.yp_name.as_deref(), Some("SP"));
    assert_eq!(b.yp_url.as_deref(), Some("http://yp/"));
    assert_eq!(b.content_type.as_deref(), Some("FLV"));
    assert_eq!(b.id.as_deref(), Some("ABC"));
    assert_eq!(b.desc.as_deref(), Some("d"));
    assert_eq!(b.comment.as_deref(), Some("c"));
    assert!(b.minimized && b.no_autoplay && b.show_help && b.show_version);
}
