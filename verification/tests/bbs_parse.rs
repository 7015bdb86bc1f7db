use pst_core::bbs::parse::{
    parse_board_setting, parse_ch2_dat, parse_ch2_subject, parse_shitaraba_dat,
    parse_shitaraba_subject,
};

#[test]
fn shitaraba_subject_basic() {
    let body = "1672500000.cgi,テストスレ part1 (123)\n1672500100.cgi,雑談 (42)\n";
    let v = parse_shitaraba_subject(body);
    assert_eq!(v.len(), 2);
    assert_eq!(v[0].key, "1672500000");
    assert_eq!(v[0].title, "テストスレ part1");
    assert_eq!(v[0].count, 123);
}

#[test]
fn shitaraba_subject_no_space_real_format() {
    let body = "1760675037.cgi,ナイトレン(484)\n1696385564.cgi,90(1000)\n";
    let v = parse_shitaraba_subject(body);
    assert_eq!(v.len(), 2);
    assert_eq!(v[0].title, "ナイトレン");
    assert_eq!(v[0].count, 484);
    assert_eq!(v[1].title, "90");
    assert_eq!(v[1].count, 1000);
}

#[test]
fn subject_title_with_parens_keeps_last_count() {
    let v = parse_shitaraba_subject("1.cgi,グラブル(神)(1000)\n");
    assert_eq!(v[0].title, "グラブル(神)");
    assert_eq!(v[0].count, 1000);
}

#[test]
fn shitaraba_subject_dedups_duplicate_key() {
    let body = "1760675037.cgi,ナイトレン(484)\n1696385564.cgi,90(1000)\n1760675037.cgi,ナイトレン(484)\n";
    let v = parse_shitaraba_subject(body);
    assert_eq!(v.len(), 2);
    assert_eq!(v[0].key, "1760675037");
    assert_eq!(v[1].key, "1696385564");
}

#[test]
fn ch2_subject_basic() {
    let body = "1672500000.dat<>テストスレ part1 (123)\n1672500100.dat<>雑談 (42)\n";
    let v = parse_ch2_subject(body);
    assert_eq!(v.len(), 2);
    assert_eq!(v[0].key, "1672500000");
    assert_eq!(v[0].title, "テストスレ part1");
    assert_eq!(v[1].count, 42);
}

#[test]
fn shitaraba_dat_basic() {
    let body = "\
1<>名無しさん<>sage<>2026/05/30(土) 12:34:56 ID:abc<>本文1<>テストスレ
2<>名無しさん<><>2026/05/30(土) 12:35:00 ID:def<>レス&lt;test&gt;<>";
    let posts = parse_shitaraba_dat(body);
    assert_eq!(posts.len(), 2);
    assert_eq!(posts[0].number, 1);
    assert_eq!(posts[0].thread_title, "テストスレ");
    assert_eq!(posts[0].id, "abc");
    assert_eq!(posts[1].body, "レス<test>");
    assert_eq!(posts[1].mail, "");
}

#[test]
fn ch2_dat_basic() {
    let body = "\
名無しさん<>sage<>2026/05/30(土) 12:34:56.78 ID:xxxxxxxx<>こんにちは<>テストスレ<>
名無しさん<><>2026/05/30(土) 12:35:00.10 ID:yyyyyyyy BE:1<>てす<br>と<><><>";
    let posts = parse_ch2_dat(body);
    assert_eq!(posts.len(), 2);
    assert_eq!(posts[0].number, 1);
    assert_eq!(posts[0].id, "xxxxxxxx");
    assert_eq!(posts[1].number, 2);
    assert_eq!(posts[1].id, "yyyyyyyy");
    assert_eq!(posts[1].body, "てす\nと");
}

#[test]
fn ch2_dat_strips_trip_wrappers() {
    let body = "名無し </b>◆ABC<b> <><>2026 ID:z<>x<>";
    let posts = parse_ch2_dat(body);
    assert_eq!(posts[0].name, "名無し ◆ABC");
}

#[test]
fn shitaraba_tilde_entity_replaced_in_body() {
    let body = "1<>n<>m<>2026 ID:a<>x&#65374;y<>t";
    let posts = parse_shitaraba_dat(body);
    assert_eq!(posts[0].body, "x～y");
}

#[test]
fn board_setting_shitaraba_thread_stop() {
    let body = "TOP=https://jbbs.shitaraba.net/internet/22667/\nBBS_THREAD_STOP=1000\nBBS_NONAME_NAME=名無しさん\nBBS_TITLE=どれいくch\n";
    let s = parse_board_setting(body);
    assert_eq!(s.max_res, 1000);
    assert_eq!(s.default_name, "名無しさん");
    assert_eq!(s.title, "どれいくch");
}

#[test]
fn board_setting_ch2_res_max() {
    let body = "BBS_TITLE=避難所\nBBS_NONAME_NAME=名無しの麺類\nBBS_RES_MAX=1000\n";
    let s = parse_board_setting(body);
    assert_eq!(s.max_res, 1000);
    assert_eq!(s.default_name, "名無しの麺類");
}

#[test]
fn board_setting_missing_max_is_zero() {
    let s = parse_board_setting("BBS_TITLE=x\n");
    assert_eq!(s.max_res, 0);
}

#[test]
fn subject_with_curly_count_tolerated() {
    let v = parse_ch2_subject("123.dat<>no count\n");
    assert_eq!(v[0].title, "no count");
    assert_eq!(v[0].count, 0);
}

#[test]
fn board_setting_thread_stop_wins_and_trims() {
    let s = parse_board_setting(" BBS_RES_MAX = 500 \r\nBBS_THREAD_STOP=1000\r\n");
    assert_eq!(s.max_res, 1000);
    let s = parse_board_setting("BBS_RES_MAX=500\n");
    assert_eq!(s.max_res, 500);
    let s = parse_board_setting("BBS_THREAD_STOP=abc\nBBS_RES_MAX=7\n");
    assert_eq!(s.max_res, 7);
}

#[test]
fn subject_count_overflow_and_crlf() {
    let v = parse_ch2_subject("1.dat<>t (99999999999)\r\n2.dat<>u(5)\r\nnoseparator\n");
    assert_eq!(v.len(), 2);
    assert_eq!(v[0].title, "t (99999999999)");
    assert_eq!(v[0].count, 0);
    assert_eq!(v[1].title, "u");
    assert_eq!(v[1].count, 5);
}

#[test]
fn dat_lines_that_do_not_parse_still_count() {
    let posts = parse_ch2_dat("too<>few\nn<>m<>d<>b\n");
    assert_eq!(posts.len(), 1);
    assert_eq!(posts[0].number, 2);
    assert_eq!(posts[0].date, "d");
    assert_eq!(posts[0].id, "");
    let posts = parse_shitaraba_dat("x<>n<>m<>d<>b\n3<>n<>m<>d<>b\n");
    assert_eq!(posts.len(), 1);
    assert_eq!(posts[0].number, 3);
    assert_eq!(posts[0].thread_title, "");
}
