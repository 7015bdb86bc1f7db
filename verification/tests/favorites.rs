use pst_core::favorites;
use pst_core::favorites::{first_match, migrate_rules, FavoriteAction, FavoriteRule};
use pst_core::peercast::types::ChannelInfo;
use pst_core::peercast::yp::YpEntry;

fn yp(name: &str, genre: &str) -> YpEntry {
    YpEntry {
        name: name.into(),
        genre: genre.into(),
        ..Default::default()
    }
}

#[test]
fn empty_rule_matches_everything() {
    let r = FavoriteRule::default();
    assert!(favorites::matches(&r, &yp("foo", "music")));
    assert!(favorites::matches(&r, &yp("", "")));
}

#[test]
fn name_substring() {
    let r = FavoriteRule {
        channel_name: "mox".into(),
        ..Default::default()
    };
    assert!(favorites::matches(&r, &yp("MOXch", "")));
    assert!(favorites::matches(&r, &yp("mox-ch", "")));
    assert!(!favorites::matches(&r, &yp("other", "")));
}

#[test]
fn pattern_or_across_checked_fields() {
    let r = FavoriteRule {
        pattern: "rta".into(),
        match_name: true,
        match_genre: true,
        ..Default::default()
    };
    assert!(favorites::matches(&r, &yp("MarioRTA", "")));
    assert!(favorites::matches(&r, &yp("", "RTA")));
    assert!(!favorites::matches(&r, &yp("other", "music")));
}

#[test]
fn pattern_without_targets_never_matches() {
    let r = FavoriteRule {
        pattern: "foo".into(),
        match_name: false,
        ..Default::default()
    };
    assert!(!favorites::matches(&r, &yp("foo", "foo")));
}

#[test]
fn legacy_single_field_rule_migrates_to_pattern() {
    let mut rules = vec![
        FavoriteRule {
            channel_name: "foo|bar".into(),
            ..Default::default()
        },
        FavoriteRule {
            genre: "game".into(),
            ..Default::default()
        },
        FavoriteRule {
            channel_name: "foo".into(),
            genre: "game".into(),
            ..Default::default()
        },
    ];
    migrate_rules(&mut rules);
    assert_eq!(rules[0].pattern, "foo|bar");
    assert!(rules[0].match_name);
    assert!(!rules[0].match_genre);
    assert!(rules[0].channel_name.is_empty());
    assert_eq!(rules[1].pattern, "game");
    assert!(!rules[1].match_name);
    assert!(rules[1].match_genre);
    assert!(rules[2].pattern.is_empty());
    assert_eq!(rules[2].channel_name, "foo");
}

#[test]
fn name_or_pattern() {
    let r = FavoriteRule {
        channel_name: "foo|bar|baz".into(),
        ..Default::default()
    };
    assert!(favorites::matches(&r, &yp("foobar", "")));
    assert!(favorites::matches(&r, &yp("just bar inside", "")));
    assert!(favorites::matches(&r, &yp("BAZTASTIC", "")));
    assert!(!favorites::matches(&r, &yp("qux", "")));
}

#[test]
fn or_pattern_trims_whitespace() {
    let r = FavoriteRule {
        channel_name: " foo | bar ".into(),
        ..Default::default()
    };
    assert!(favorites::matches(&r, &yp("FoO", "")));
    assert!(favorites::matches(&r, &yp("bar", "")));
    assert!(!favorites::matches(&r, &yp("baz", "")));
}

#[test]
fn name_and_genre_are_anded() {
    let r = FavoriteRule {
        channel_name: "mox".into(),
        genre: "music".into(),
        ..Default::default()
    };
    assert!(favorites::matches(&r, &yp("MOXch", "music live")));
    assert!(!favorites::matches(&r, &yp("MOXch", "game")));
    assert!(!favorites::matches(&r, &yp("other", "music live")));
}

#[test]
fn effective_background_falls_back_to_color() {
    let r = FavoriteRule {
        color: "#abcdef".into(),
        background: String::new(),
        ..Default::default()
    };
    assert_eq!(r.effective_background(), "#abcdef");
    let r = FavoriteRule {
        color: "#abcdef".into(),
        background: "#123456".into(),
        ..Default::default()
    };
    assert_eq!(r.effective_background(), "#123456");
}

#[test]
fn action_defaults_to_show() {
    let r = FavoriteRule::default();
    assert_eq!(r.action, FavoriteAction::Show);
}

#[test]
fn first_match_returns_first_rule() {
    let rules = vec![
        FavoriteRule {
            name: "B".into(),
            channel_name: "mox".into(),
            ..Default::default()
        },
        FavoriteRule {
            name: "A".into(),
            ..Default::default()
        },
    ];
    assert_eq!(first_match(&rules, &yp("MOXch", "")).unwrap().name, "B");
    assert_eq!(first_match(&rules, &yp("other", "")).unwrap().name, "A");
}

#[test]
fn migration_keeps_what_a_rule_matches() {
    let old = FavoriteRule {
        desc: " live ".into(),
        ..Default::default()
    };
    let mut rules = vec![old.clone()];
    migrate_rules(&mut rules);
    assert_eq!(rules[0].pattern, " live ");
    assert!(rules[0].match_desc);
    for (n, g, d) in [("a", "b", "LIVE now"), ("a", "b", "dead"), ("live", "", "")] {
        let e = YpEntry { name: n.into(), genre: g.into(), desc: d.into(), ..Default::default() };
        assert_eq!(favorites::matches(&old, &e), favorites::matches(&rules[0], &e));
    }
}

#[test]
fn channel_info_is_a_match_target() {
    let info = ChannelInfo {
        name: "x".into(),
        url: String::new(),
        genre: "Game".into(),
        desc: String::new(),
        comment: "RTA in progress".into(),
        bitrate: 0,
        content_type: String::new(),
    };
    let r = FavoriteRule { pattern: "rta".into(), match_comment: true, ..Default::default() };
    assert!(favorites::matches(&r, &info));
    assert!(first_match(&[r], &info).is_some());
    let none: Vec<FavoriteRule> = vec![FavoriteRule { pattern: "zzz".into(), match_name: true, ..Default::default() }];
    assert!(first_match(&none, &info).is_none());
}
