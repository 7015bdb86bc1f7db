//! Favourite rules for YP / PeerCast channels.
//!
//! Rules are evaluated from the top; the first rule that matches is used.
//! A rule matches either by `pattern` (a case-insensitive substring
//! pattern, `|` separating alternatives, tried on each checked field: any
//! of them may match) or, when `pattern` is blank, by the older per-field
//! patterns (`channel_name`, `genre`, `desc`, `comment`, all of which must
//! match; a blank one matches anything).

use vstd::prelude::*;
use crate::peercast::types::ChannelInfo;
use crate::peercast::yp::YpEntry;
use crate::text::{chars_of, contains, contains_exec, lowercase, split, split_exec, to_lowercase, trim, trim_exec, views};

verus! {

/// How a matching rule affects a channel.
#[derive(Debug, Clone, Copy, PartialEq, Eq, Structural)]
pub enum FavoriteAction {
    /// Shown as usual; pin, auto-record and colours apply.
    Show,
    /// Hidden from the "all" and "favourites" tabs; never watched or recorded.
    Ignore,
    /// Blocked completely: not shown, not watched, not recorded.
    Block,
}

impl Default for FavoriteAction {
    fn default() -> (r: FavoriteAction)
        ensures
            r == FavoriteAction::Show,
    {
        FavoriteAction::Show
    }
}

/// One favourite rule.
#[derive(Debug, Clone)]
pub struct FavoriteRule {
    /// Display name (not used for matching).
    pub name: String,
    /// Substring pattern (case-insensitive, `|` for alternatives); blank
    /// means the per-field patterns below are used.
    pub pattern: String,
    pub match_name: bool,
    pub match_genre: bool,
    pub match_desc: bool,
    pub match_comment: bool,
    /// Per-field patterns of the older form, used only when `pattern` is blank.
    pub channel_name: String,
    pub genre: String,
    pub desc: String,
    pub comment: String,
    pub pin_top: bool,
    pub auto_record: bool,
    /// Background colour of the older configs.
    pub color: String,
    /// Background colour of the row (CSS colour; empty for the theme's).
    pub background: String,
    /// Text colour of the row (CSS colour; empty for the theme's).
    pub text_color: String,
    pub action: FavoriteAction,
}

/// Abstract contents of a [`FavoriteRule`].
#[verifier::ext_equal]
pub struct RuleV {
    pub name: Seq<char>,
    pub pattern: Seq<char>,
    pub match_name: bool,
    pub match_genre: bool,
    pub match_desc: bool,
    pub match_comment: bool,
    pub channel_name: Seq<char>,
    pub genre: Seq<char>,
    pub desc: Seq<char>,
    pub comment: Seq<char>,
    pub pin_top: bool,
    pub auto_record: bool,
    pub color: Seq<char>,
    pub background: Seq<char>,
    pub text_color: Seq<char>,
    pub action: FavoriteAction,
}

impl View for FavoriteRule {
    type V = RuleV;

    open spec fn view(&self) -> RuleV {
        RuleV {
            name: self.name@,
            pattern: self.pattern@,
            match_name: self.match_name,
            match_genre: self.match_genre,
            match_desc: self.match_desc,
            match_comment: self.match_comment,
            channel_name: self.channel_name@,
            genre: self.genre@,
            desc: self.desc@,
            comment: self.comment@,
            pin_top: self.pin_top,
            auto_record: self.auto_record,
            color: self.color@,
            background: self.background@,
            text_color: self.text_color@,
            action: self.action,
        }
    }
}

impl Default for FavoriteRule {
    /// Everything empty or off; the action is `Show`.
    fn default() -> (r: FavoriteRule)
        ensures
            r@ == (RuleV {
                name: Seq::empty(),
                pattern: Seq::empty(),
                match_name: false,
                match_genre: false,
                match_desc: false,
                match_comment: false,
                channel_name: Seq::empty(),
                genre: Seq::empty(),
                desc: Seq::empty(),
                comment: Seq::empty(),
                pin_top: false,
                auto_record: false,
                color: Seq::empty(),
                background: Seq::empty(),
                text_color: Seq::empty(),
                action: FavoriteAction::Show,
            }),
    {
        FavoriteRule {
            name: String::new(),
            pattern: String::new(),
            match_name: false,
            match_genre: false,
            match_desc: false,
            match_comment: false,
            channel_name: String::new(),
            genre: String::new(),
            desc: String::new(),
            comment: String::new(),
            pin_top: false,
            auto_record: false,
            color: String::new(),
            background: String::new(),
            text_color: String::new(),
            action: FavoriteAction::Show,
        }
    }
}

impl FavoriteRule {
    /// The background to use: `background`, or the older `color` when
    /// `background` is empty.
    pub fn effective_background(&self) -> (r: &str)
        ensures
            r@ == (if self.background@.len() > 0 {
                self.background@
            } else {
                self.color@
            }),
    {
        if self.background.as_str().unicode_len() > 0 {
            self.background.as_str()
        } else {
            self.color.as_str()
        }
    }

    /// A field-by-field copy.
    pub fn copy(&self) -> (r: FavoriteRule)
        ensures
            r@ == self@,
    {
        FavoriteRule {
            name: self.name.clone(),
            pattern: self.pattern.clone(),
            match_name: self.match_name,
            match_genre: self.match_genre,
            match_desc: self.match_desc,
            match_comment: self.match_comment,
            channel_name: self.channel_name.clone(),
            genre: self.genre.clone(),
            desc: self.desc.clone(),
            comment: self.comment.clone(),
            pin_top: self.pin_top,
            auto_record: self.auto_record,
            color: self.color.clone(),
            background: self.background.clone(),
            text_color: self.text_color.clone(),
            action: self.action,
        }
    }
}

/// The rules, in the order they are evaluated.
#[derive(Debug, Clone)]
pub struct FavoritesConfig {
    pub rules: Vec<FavoriteRule>,
}

impl Default for FavoritesConfig {
    fn default() -> (r: FavoritesConfig)
        ensures
            r.rules@.len() == 0,
    {
        FavoritesConfig { rules: Vec::new() }
    }
}

/// Something a rule can be matched against.
pub trait MatchTarget {
    spec fn target_name(&self) -> Seq<char>;

    spec fn target_genre(&self) -> Seq<char>;

    spec fn target_desc(&self) -> Seq<char>;

    spec fn target_comment(&self) -> Seq<char>;

    fn ch_name(&self) -> (r: &str)
        ensures
            r@ == self.target_name(),
    ;

    fn ch_genre(&self) -> (r: &str)
        ensures
            r@ == self.target_genre(),
    ;

    fn ch_desc(&self) -> (r: &str)
        ensures
            r@ == self.target_desc(),
    ;

    fn ch_comment(&self) -> (r: &str)
        ensures
            r@ == self.target_comment(),
    ;
}

impl MatchTarget for YpEntry {
    open spec fn target_name(&self) -> Seq<char> {
        self.name@
    }

    open spec fn target_genre(&self) -> Seq<char> {
        self.genre@
    }

    open spec fn target_desc(&self) -> Seq<char> {
        self.desc@
    }

    open spec fn target_comment(&self) -> Seq<char> {
        self.comment@
    }

    fn ch_name(&self) -> (r: &str) {
        self.name.as_str()
    }

    fn ch_genre(&self) -> (r: &str) {
        self.genre.as_str()
    }

    fn ch_desc(&self) -> (r: &str) {
        self.desc.as_str()
    }

    fn ch_comment(&self) -> (r: &str) {
        self.comment.as_str()
    }
}

impl MatchTarget for ChannelInfo {
    open spec fn target_name(&self) -> Seq<char> {
        self.name@
    }

    open spec fn target_genre(&self) -> Seq<char> {
        self.genre@
    }

    open spec fn target_desc(&self) -> Seq<char> {
        self.desc@
    }

    open spec fn target_comment(&self) -> Seq<char> {
        self.comment@
    }

    fn ch_name(&self) -> (r: &str) {
        self.name.as_str()
    }

    fn ch_genre(&self) -> (r: &str) {
        self.genre.as_str()
    }

    fn ch_desc(&self) -> (r: &str) {
        self.desc.as_str()
    }

    fn ch_comment(&self) -> (r: &str) {
        self.comment.as_str()
    }
}

/// One of the `|`-separated alternatives, trimmed and non-empty, occurs in
/// the lower-cased `hay_lc` (compared in lower case).
pub open spec fn any_alternative(alts: Seq<Seq<char>>, hay_lc: Seq<char>) -> bool {
    exists|i: int|
        0 <= i < alts.len() && trim(#[trigger] alts[i]).len() > 0 && contains(
            hay_lc,
            lowercase(trim(alts[i])),
        )
}

/// A single pattern against one field: a blank pattern matches anything;
/// otherwise one of its `|`-separated alternatives must occur in the field,
/// ignoring case.
pub open spec fn part_spec(needle: Seq<char>, hay: Seq<char>) -> bool {
    let n = trim(needle);
    n.len() == 0 || any_alternative(split(n, seq!['|']), lowercase(hay))
}

/// Whether `r` matches a channel with these fields.
pub open spec fn matches_spec(r: RuleV, name: Seq<char>, genre: Seq<char>, desc: Seq<char>, comment: Seq<char>) -> bool {
    let p = trim(r.pattern);
    if p.len() > 0 {
        ||| (r.match_name && part_spec(p, name))
        ||| (r.match_genre && part_spec(p, genre))
        ||| (r.match_desc && part_spec(p, desc))
        ||| (r.match_comment && part_spec(p, comment))
    } else {
        &&& part_spec(r.channel_name, name)
        &&& part_spec(r.genre, genre)
        &&& part_spec(r.desc, desc)
        &&& part_spec(r.comment, comment)
    }
}

pub open spec fn matches_target<T: MatchTarget>(r: RuleV, t: T) -> bool {
    matches_spec(r, t.target_name(), t.target_genre(), t.target_desc(), t.target_comment())
}

fn part(needle: &str, hay: &str) -> (r: bool)
    ensures
        r == part_spec(needle@, hay@),
{
    let n = trim_exec(chars_of(needle).as_slice());
    if n.len() == 0 {
        return true;
    }
    let hay_lc = chars_of(to_lowercase(hay).as_str());
    let bar: [char; 1] = ['|'];
    assert(bar@ == seq!['|']);
    let alts = split_exec(n.as_slice(), &bar);
    let ghost av = views(alts@);
    let mut i: usize = 0;
    while i < alts.len()
        invariant
            i <= alts@.len(),
            av == views(alts@),
            av == split(n@, seq!['|']),
            n@ == trim(needle@),
            hay_lc@ == lowercase(hay@),
            forall|k: int|
                0 <= k < i ==> !(trim(#[trigger] av[k]).len() > 0 && contains(
                    hay_lc@,
                    lowercase(trim(av[k])),
                )),
        decreases alts@.len() - i,
    {
        assert(av[i as int] == alts@[i as int]@);
        let a = trim_exec(alts[i].as_slice());
        if a.len() > 0 {
            let al = chars_of(to_lowercase(string_of_chars(a.as_slice()).as_str()).as_str());
            if contains_exec(hay_lc.as_slice(), al.as_slice()) {
                assert(trim(av[i as int]).len() > 0 && contains(hay_lc@, lowercase(trim(av[i as int]))));
                return true;
            }
        }
        i += 1;
    }
    false
}

fn string_of_chars(v: &[char]) -> (r: String)
    ensures
        r@ == v@,
{
    crate::text::string_of(v)
}

/// Whether `rule` matches `t`: by `pattern` on any checked field (no
/// checked field, no match), or, when `pattern` is blank, by every
/// per-field pattern.
pub fn matches<T: MatchTarget>(rule: &FavoriteRule, t: &T) -> (r: bool)
    ensures
        r == matches_target(rule@, *t),
{
    let pv = trim_exec(chars_of(rule.pattern.as_str()).as_slice());
    if pv.len() > 0 {
        let p = string_of_chars(pv.as_slice());
        if rule.match_name && part(p.as_str(), t.ch_name()) {
            return true;
        }
        if rule.match_genre && part(p.as_str(), t.ch_genre()) {
            return true;
        }
        if rule.match_desc && part(p.as_str(), t.ch_desc()) {
            return true;
        }
        if rule.match_comment && part(p.as_str(), t.ch_comment()) {
            return true;
        }
        return false;
    }
    part(rule.channel_name.as_str(), t.ch_name()) && part(rule.genre.as_str(), t.ch_genre()) && part(
        rule.desc.as_str(),
        t.ch_desc(),
    ) && part(rule.comment.as_str(), t.ch_comment())
}

/// `i` is the first rule, from the top, that matches `t`.
pub open spec fn is_first_match<T: MatchTarget>(rules: Seq<FavoriteRule>, t: T, i: int) -> bool {
    &&& 0 <= i < rules.len()
    &&& matches_target(rules[i]@, t)
    &&& forall|j: int| 0 <= j < i ==> !matches_target(#[trigger] rules[j]@, t)
}

/// The first rule, from the top, that matches `t`.
pub fn first_match<'a, T: MatchTarget>(rules: &'a [FavoriteRule], t: &T) -> (r: Option<&'a FavoriteRule>)
    ensures
        match r {
            Some(x) => exists|i: int| is_first_match(rules@, *t, i) && *x == rules@[i],
            None => forall|i: int| 0 <= i < rules@.len() ==> !matches_target(#[trigger] rules@[i]@, *t),
        },
{
    let mut i: usize = 0;
    while i < rules.len()
        invariant
            i <= rules@.len(),
            forall|j: int| 0 <= j < i ==> !matches_target(#[trigger] rules@[j]@, *t),
        decreases rules@.len() - i,
    {
        if matches(&rules[i], t) {
            assert(is_first_match(rules@, *t, i as int));
            return Some(&rules[i]);
        }
        i += 1;
    }
    None
}

// ------------------------------------------------------------ migration

/// Number of the per-field patterns that are not blank.
pub open spec fn legacy_count(r: RuleV) -> int {
    (if trim(r.channel_name).len() > 0 { 1int } else { 0int }) + (if trim(r.genre).len() > 0 {
        1int
    } else {
        0int
    }) + (if trim(r.desc).len() > 0 { 1int } else { 0int }) + (if trim(r.comment).len() > 0 {
        1int
    } else {
        0int
    })
}

/// A rule of the older form with exactly one per-field pattern becomes a
/// `pattern` on that one field (the per-field patterns are cleared); any
/// other rule is left as it is.
pub open spec fn migrate_rule(r: RuleV) -> RuleV {
    if trim(r.pattern).len() > 0 || legacy_count(r) != 1 {
        r
    } else {
        let (p, f) = if trim(r.channel_name).len() > 0 {
            (r.channel_name, (true, false, false, false))
        } else if trim(r.genre).len() > 0 {
            (r.genre, (false, true, false, false))
        } else if trim(r.desc).len() > 0 {
            (r.desc, (false, false, true, false))
        } else {
            (r.comment, (false, false, false, true))
        };
        RuleV {
            pattern: p,
            match_name: f.0,
            match_genre: f.1,
            match_desc: f.2,
            match_comment: f.3,
            channel_name: Seq::empty(),
            genre: Seq::empty(),
            desc: Seq::empty(),
            comment: Seq::empty(),
            ..r
        }
    }
}

fn is_blank(s: &String) -> (r: bool)
    ensures
        r == (trim(s@).len() == 0),
{
    trim_exec(chars_of(s.as_str()).as_slice()).len() == 0
}

fn migrate_one(r: &FavoriteRule) -> (out: FavoriteRule)
    ensures
        out@ == migrate_rule(r@),
{
    if !is_blank(&r.pattern) {
        return r.copy();
    }
    let a = !is_blank(&r.channel_name);
    let b = !is_blank(&r.genre);
    let c = !is_blank(&r.desc);
    let d = !is_blank(&r.comment);
    let n: u8 = (if a { 1u8 } else { 0u8 }) + (if b { 1u8 } else { 0u8 }) + (if c { 1u8 } else { 0u8 }) + (if d {
        1u8
    } else {
        0u8
    });
    if n != 1 {
        return r.copy();
    }
    let mut out = r.copy();
    if a {
        out.pattern = r.channel_name.clone();
        out.match_name = true;
        out.match_genre = false;
        out.match_desc = false;
        out.match_comment = false;
    } else if b {
        out.pattern = r.genre.clone();
        out.match_name = false;
        out.match_genre = true;
        out.match_desc = false;
        out.match_comment = false;
    } else if c {
        out.pattern = r.desc.clone();
        out.match_name = false;
        out.match_genre = false;
        out.match_desc = true;
        out.match_comment = false;
    } else {
        out.pattern = r.comment.clone();
        out.match_name = false;
        out.match_genre = false;
        out.match_desc = false;
        out.match_comment = true;
    }
    out.channel_name = String::new();
    out.genre = String::new();
    out.desc = String::new();
    out.comment = String::new();
    out
}

/// Move rules of the older form that use exactly one per-field pattern to
/// the `pattern` form (see [`migrate_rule`]); called when a config is read.
pub fn migrate_rules(rules: &mut [FavoriteRule])
    ensures
        final(rules)@.len() == old(rules)@.len(),
        forall|i: int| 0 <= i < old(rules)@.len() ==> #[trigger] final(rules)@[i]@ == migrate_rule(old(rules)@[i]@),
{
    let ghost orig = rules@;
    let mut i: usize = 0;
    while i < rules.len()
        invariant
            i <= rules@.len(),
            rules@.len() == orig.len(),
            forall|k: int| 0 <= k < i ==> #[trigger] rules@[k]@ == migrate_rule(orig[k]@),
            forall|k: int| i <= k < rules@.len() ==> #[trigger] rules@[k] == orig[k],
        decreases rules@.len() - i,
    {
        let m = migrate_one(&rules[i]);
        rules[i] = m;
        i += 1;
    }
}

/// Migrating a rule never changes what it matches.
pub proof fn law_migrate_keeps_matching(r: RuleV, name: Seq<char>, genre: Seq<char>, desc: Seq<char>, comment: Seq<char>)
    ensures
        matches_spec(migrate_rule(r), name, genre, desc, comment) == matches_spec(r, name, genre, desc, comment),
{
    if trim(r.pattern).len() > 0 || legacy_count(r) != 1 {
    } else {
        let m = migrate_rule(r);
        crate::text::lemma_trim_idempotent(m.pattern);
        assert(part_spec(trim(m.pattern), name) == part_spec(m.pattern, name));
        assert(part_spec(trim(m.pattern), genre) == part_spec(m.pattern, genre));
        assert(part_spec(trim(m.pattern), desc) == part_spec(m.pattern, desc));
        assert(part_spec(trim(m.pattern), comment) == part_spec(m.pattern, comment));
    }
}

} // verus!
