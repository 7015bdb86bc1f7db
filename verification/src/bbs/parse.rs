//! Subject and dat parsers of the two board families. No HTTP here: the
//! callers hand in decoded text.

use vstd::prelude::*;
use crate::bbs::encoding::{unescape_chars, unescaped};
use crate::bbs::types::{BoardSetting, Post, PostV, posts_view};
use crate::text::{
    all_digits, ends_with, ends_with_exec, is_ascii_digit, lemma_find_from_bounds, lines,
    lines_exec, parse_u32, parse_u32_exec, replace, replace_exec, rfind_char, rfind_char_exec,
    slice_exec, split_once, split_once_exec, splitn, splitn_exec, string_of, trim, trim_end,
    trim_end_exec, trim_exec, views, words, words_exec, chars_of,
};

verus! {

/// One thread of a board's `subject.txt`.
#[derive(Debug, Clone)]
pub struct SubjectEntry {
    /// The thread key (the dat / cgi file name without extension).
    pub key: String,
    pub title: String,
    pub count: u32,
}

/// Abstract contents of a [`SubjectEntry`].
pub struct SubjectEntryV {
    pub key: Seq<char>,
    pub title: Seq<char>,
    pub count: u32,
}

impl View for SubjectEntry {
    type V = SubjectEntryV;

    open spec fn view(&self) -> SubjectEntryV {
        SubjectEntryV { key: self.key@, title: self.title@, count: self.count }
    }
}

pub open spec fn entries_view(v: Seq<SubjectEntry>) -> Seq<SubjectEntryV> {
    v.map_values(|e: SubjectEntry| e@)
}

/// `s` consists of ASCII digits only.
pub open spec fn all_ascii_digits(s: Seq<char>) -> bool {
    forall|i: int| 0 <= i < s.len() ==> is_ascii_digit(#[trigger] s[i])
}

/// Splits `"title(123)"` / `"title (123)"` into the title and the count
/// in the last parenthesised group, when the (right-trimmed) text ends with
/// `(digits)` that fit a `u32`; otherwise the whole right-trimmed text with
/// count 0.
pub open spec fn title_and_count(s0: Seq<char>) -> (Seq<char>, u32) {
    let s = trim_end(s0);
    match rfind_char(s, '(') {
        Some(open) => if s.len() > 0 && s.last() == ')' {
            let cs = s.subrange(open + 1, s.len() - 1);
            if cs.len() > 0 && all_ascii_digits(cs) && parse_u32(cs) is Some {
                (trim_end(s.subrange(0, open)), parse_u32(cs).unwrap())
            } else {
                (s, 0)
            }
        } else {
            (s, 0)
        },
        None => (s, 0),
    }
}

/// The entry of one subject line: `{file}{sep}{title}({count})`, with
/// `file` losing its extension `ext` when it has it.
pub open spec fn subject_line(line: Seq<char>, sep: Seq<char>, ext: Seq<char>) -> Option<
    SubjectEntryV,
> {
    match split_once(line, sep) {
        Some((file, rest)) => {
            let key = if ends_with(file, ext) {
                file.subrange(0, file.len() - ext.len())
            } else {
                file
            };
            let tc = title_and_count(rest);
            Some(SubjectEntryV { key, title: tc.0, count: tc.1 })
        },
        None => None,
    }
}

/// The entries of the lines that parse, in order.
pub open spec fn subject_entries(ls: Seq<Seq<char>>, sep: Seq<char>, ext: Seq<char>) -> Seq<
    SubjectEntryV,
>
    decreases ls.len(),
{
    if ls.len() == 0 {
        Seq::empty()
    } else {
        let prev = subject_entries(ls.drop_last(), sep, ext);
        match subject_line(ls.last(), sep, ext) {
            Some(e) => prev.push(e),
            None => prev,
        }
    }
}

/// `es` has an entry with key `k`.
pub open spec fn has_key(es: Seq<SubjectEntryV>, k: Seq<char>) -> bool {
    exists|j: int| 0 <= j < es.len() && (#[trigger] es[j]).key == k
}

/// The entries with a key seen before dropped (the first one stays).
pub open spec fn dedup_by_key(es: Seq<SubjectEntryV>) -> Seq<SubjectEntryV>
    decreases es.len(),
{
    if es.len() == 0 {
        Seq::empty()
    } else {
        let d = dedup_by_key(es.drop_last());
        if has_key(d, es.last().key) {
            d
        } else {
            d.push(es.last())
        }
    }
}

pub open spec fn sep_comma() -> Seq<char> {
    seq![',']
}

pub open spec fn sep_ch2() -> Seq<char> {
    seq!['<', '>']
}

pub open spec fn ext_cgi() -> Seq<char> {
    seq!['.', 'c', 'g', 'i']
}

pub open spec fn ext_dat() -> Seq<char> {
    seq!['.', 'd', 'a', 't']
}

/// A shitaraba `subject.txt`: `{key}.cgi,{title}({count})` per line.
pub open spec fn shitaraba_subject(body: Seq<char>) -> Seq<SubjectEntryV> {
    dedup_by_key(subject_entries(lines(body), sep_comma(), ext_cgi()))
}

/// A 2ch-compatible `subject.txt`: `{key}.dat<>{title} ({count})` per line.
pub open spec fn ch2_subject(body: Seq<char>) -> Seq<SubjectEntryV> {
    dedup_by_key(subject_entries(lines(body), sep_ch2(), ext_dat()))
}

fn all_ascii_digits_exec(v: &[char], lo: usize, hi: usize) -> (r: bool)
    requires
        lo <= hi <= v@.len(),
    ensures
        r == all_ascii_digits(v@.subrange(lo as int, hi as int)),
{
    let mut k = lo;
    while k < hi
        invariant
            lo <= k <= hi <= v@.len(),
            forall|m: int| lo <= m < k ==> is_ascii_digit(#[trigger] v@[m]),
        decreases hi - k,
    {
        if !('0' <= v[k] && v[k] <= '9') {
            assert(v@.subrange(lo as int, hi as int)[k - lo] == v@[k as int]);
            return false;
        }
        k += 1;
    }
    assert forall|i: int| 0 <= i < hi - lo implies is_ascii_digit(
        #[trigger] v@.subrange(lo as int, hi as int)[i],
    ) by {
        assert(v@.subrange(lo as int, hi as int)[i] == v@[lo + i]);
    }
    true
}

/// Exec form of [`title_and_count`].
fn split_title_and_count(s0: &[char]) -> (r: (Vec<char>, u32))
    ensures
        (r.0@, r.1) == title_and_count(s0@),
{
    let s = trim_end_exec(s0);
    let ghost sv = s@;
    match rfind_char_exec(s.as_slice(), '(') {
        Some(open) => {
            proof {
                crate::text::lemma_rfind_bounds(sv, '(', sv.len() as int);
            }
            if s.len() > 0 && s[s.len() - 1] == ')' {
                assert(open < s.len() - 1) by {
                    assert(sv[open as int] == '(');
                }
                let ok = open + 1 < s.len() - 1 && all_ascii_digits_exec(
                    s.as_slice(),
                    open + 1,
                    s.len() - 1,
                );
                if ok {
                    let cs = slice_exec(s.as_slice(), open + 1, s.len() - 1);
                    match parse_u32_exec(cs.as_slice()) {
                        Some(n) => {
                            let head = slice_exec(s.as_slice(), 0, open);
                            let title = trim_end_exec(head.as_slice());
                            return (title, n);
                        },
                        None => {
                            return (s, 0);
                        },
                    }
                }
                (s, 0)
            } else {
                (s, 0)
            }
        },
        None => (s, 0),
    }
}

/// Exec form of [`subject_line`].
fn parse_subject_line(line: &[char], sep: &[char], ext: &[char]) -> (r: Option<SubjectEntry>)
    ensures
        match r {
            Some(e) => subject_line(line@, sep@, ext@) == Some(e@),
            None => subject_line(line@, sep@, ext@) is None,
        },
{
    match split_once_exec(line, sep) {
        Some((file, rest)) => {
            let key = if ends_with_exec(file.as_slice(), ext) {
                slice_exec(file.as_slice(), 0, file.len() - ext.len())
            } else {
                file
            };
            let (title, count) = split_title_and_count(rest.as_slice());
            Some(
                SubjectEntry {
                    key: string_of(key.as_slice()),
                    title: string_of(title.as_slice()),
                    count,
                },
            )
        },
        None => None,
    }
}

/// Exec: does `out` hold an entry with key `k`?
fn has_key_exec(out: &Vec<SubjectEntry>, k: &String) -> (r: bool)
    ensures
        r == has_key(entries_view(out@), k@),
{
    let mut j: usize = 0;
    while j < out.len()
        invariant
            j <= out.len(),
            forall|m: int| 0 <= m < j ==> (#[trigger] out@[m])@.key != k@,
        decreases out.len() - j,
    {
        if out[j].key == *k {
            assert(entries_view(out@)[j as int].key == k@);
            return true;
        }
        j += 1;
    }
    assert forall|m: int| 0 <= m < entries_view(out@).len() implies (
    #[trigger] entries_view(out@)[m]).key != k@ by {
        assert(entries_view(out@)[m] == out@[m]@);
    }
    false
}

/// Parses the subject lines with `sep` / `ext`, dropping repeated keys.
fn parse_subject(body: &str, sep: &[char], ext: &[char]) -> (r: Vec<SubjectEntry>)
    ensures
        entries_view(r@) == dedup_by_key(subject_entries(lines(body@), sep@, ext@)),
{
    let v = chars_of(body);
    let ls = lines_exec(v.as_slice());
    let ghost lsv = views(ls@);
    let mut out: Vec<SubjectEntry> = Vec::new();
    let mut i: usize = 0;
    while i < ls.len()
        invariant
            i <= ls.len(),
            lsv == views(ls@),
            lsv == lines(body@),
            entries_view(out@) == dedup_by_key(subject_entries(lsv.take(i as int), sep@, ext@)),
        decreases ls.len() - i,
    {
        let ghost before = out@;
        proof {
            assert(lsv.take(i + 1).drop_last() =~= lsv.take(i as int));
            assert(lsv.take(i + 1).last() == ls@[i as int]@);
        }
        match parse_subject_line(ls[i].as_slice(), sep, ext) {
            Some(e) => {
                proof {
                    let es = subject_entries(lsv.take(i + 1), sep@, ext@);
                    assert(es == subject_entries(lsv.take(i as int), sep@, ext@).push(e@));
                    assert(es.drop_last() =~= subject_entries(lsv.take(i as int), sep@, ext@));
                }
                if !has_key_exec(&out, &e.key) {
                    out.push(e);
                    proof {
                        assert(entries_view(out@) =~= entries_view(before).push(e@));
                    }
                }
            },
            None => {},
        }
        i += 1;
    }
    assert(lsv.take(ls.len() as int) =~= lsv);
    out
}

/// Parse a shitaraba `subject.txt` (`{key}.cgi,{title}({count})` per line).
/// Repeated keys are dropped, the first one stays (shitaraba lists a hot
/// thread both first and last).
pub fn parse_shitaraba_subject(body: &str) -> (r: Vec<SubjectEntry>)
    ensures
        entries_view(r@) == shitaraba_subject(body@),
{
    let sep: [char; 1] = [','];
    let ext: [char; 4] = ['.', 'c', 'g', 'i'];
    assert(sep@ == sep_comma());
    assert(ext@ == ext_cgi());
    parse_subject(body, &sep, &ext)
}

/// Parse a 2ch-compatible `subject.txt` (`{key}.dat<>{title} ({count})` per
/// line). Repeated keys are dropped, the first one stays.
pub fn parse_ch2_subject(body: &str) -> (r: Vec<SubjectEntry>)
    ensures
        entries_view(r@) == ch2_subject(body@),
{
    let sep: [char; 2] = ['<', '>'];
    let ext: [char; 4] = ['.', 'd', 'a', 't'];
    assert(sep@ == sep_ch2());
    assert(ext@ == ext_dat());
    parse_subject(body, &sep, &ext)
}


/// No two entries of `es` share a key.
pub open spec fn keys_distinct(es: Seq<SubjectEntryV>) -> bool {
    forall|i: int, j: int| 0 <= i < j < es.len() ==> (#[trigger] es[i]).key != (#[trigger] es[j]).key
}

pub proof fn lemma_dedup_distinct_and_keys(es: Seq<SubjectEntryV>)
    ensures
        keys_distinct(dedup_by_key(es)),
        forall|k: Seq<char>| has_key(es, k) <==> has_key(dedup_by_key(es), k),
        forall|j: int|
            0 <= j < dedup_by_key(es).len() ==> exists|i: int|
                0 <= i < es.len() && es[i] == #[trigger] dedup_by_key(es)[j] && forall|m: int|
                    0 <= m < i ==> (#[trigger] es[m]).key != es[i].key,
    decreases es.len(),
{
    if es.len() > 0 {
        let p = es.drop_last();
        lemma_dedup_distinct_and_keys(p);
        let d = dedup_by_key(p);
        let last = es.last();
        assert forall|k: Seq<char>| has_key(es, k) <==> has_key(p, k) || last.key == k by {
            if has_key(es, k) {
                let j = choose|j: int| 0 <= j < es.len() && (#[trigger] es[j]).key == k;
                if j < es.len() - 1 {
                    assert(p[j] == es[j]);
                }
            }
            if has_key(p, k) {
                let j = choose|j: int| 0 <= j < p.len() && (#[trigger] p[j]).key == k;
                assert(es[j] == p[j]);
            }
            if last.key == k {
                assert(es[es.len() - 1].key == k);
            }
        }
        if has_key(d, last.key) {
            assert forall|j: int| 0 <= j < d.len() implies exists|i: int|
                0 <= i < es.len() && es[i] == #[trigger] d[j] && forall|m: int|
                    0 <= m < i ==> (#[trigger] es[m]).key != es[i].key by {
                let i = choose|i: int|
                    0 <= i < p.len() && p[i] == #[trigger] d[j] && forall|m: int|
                        0 <= m < i ==> (#[trigger] p[m]).key != p[i].key;
                assert(es[i] == p[i]);
                assert forall|m: int| 0 <= m < i implies (#[trigger] es[m]).key != es[i].key by {
                    assert(es[m] == p[m]);
                }
            }
        } else {
            let d2 = d.push(last);
            assert forall|k: Seq<char>| has_key(d2, k) <==> has_key(d, k) || last.key == k by {
                if has_key(d2, k) {
                    let j = choose|j: int| 0 <= j < d2.len() && (#[trigger] d2[j]).key == k;
                    if j < d.len() {
                        assert(d[j] == d2[j]);
                    }
                }
                if has_key(d, k) {
                    let j = choose|j: int| 0 <= j < d.len() && (#[trigger] d[j]).key == k;
                    assert(d2[j] == d[j]);
                }
                if last.key == k {
                    assert(d2[d.len() as int].key == k);
                }
            }
            assert forall|i: int, j: int| 0 <= i < j < d2.len() implies (#[trigger] d2[i]).key
                != (#[trigger] d2[j]).key by {
                if j == d.len() {
                    if d2[i].key == d2[j].key {
                        assert(d[i] == d2[i]);
                        assert(has_key(d, last.key));
                    }
                } else {
                    assert(d2[i] == d[i] && d2[j] == d[j]);
                }
            }
            assert forall|j: int| 0 <= j < d2.len() implies exists|i: int|
                0 <= i < es.len() && es[i] == #[trigger] d2[j] && forall|m: int|
                    0 <= m < i ==> (#[trigger] es[m]).key != es[i].key by {
                if j < d.len() {
                    assert(d2[j] == d[j]);
                    let i = choose|i: int|
                        0 <= i < p.len() && p[i] == #[trigger] d[j] && forall|m: int|
                            0 <= m < i ==> (#[trigger] p[m]).key != p[i].key;
                    assert(es[i] == p[i]);
                    assert forall|m: int| 0 <= m < i implies (#[trigger] es[m]).key
                        != es[i].key by {
                        assert(es[m] == p[m]);
                    }
                } else {
                    let i = es.len() - 1;
                    assert(es[i] == d2[j]);
                    assert forall|m: int| 0 <= m < i implies (#[trigger] es[m]).key
                        != es[i].key by {
                        assert(es[m] == p[m]);
                        if es[m].key == last.key {
                            assert(has_key(p, last.key));
                        }
                    }
                }
            }
        }
    }
}

/// The threads that a shitaraba `subject.txt` yields have pairwise
/// different keys; each key of a line that parses is among them, and each
/// entry is the first line that carries its key.
pub proof fn law_shitaraba_subject_keys(body: Seq<char>)
    ensures
        keys_distinct(shitaraba_subject(body)),
        forall|k: Seq<char>|
            has_key(subject_entries(lines(body), sep_comma(), ext_cgi()), k) <==> has_key(
                shitaraba_subject(body),
                k,
            ),
        forall|j: int|
            0 <= j < shitaraba_subject(body).len() ==> exists|i: int|
                0 <= i < subject_entries(lines(body), sep_comma(), ext_cgi()).len() && subject_entries(
                    lines(body),
                    sep_comma(),
                    ext_cgi(),
                )[i] == #[trigger] shitaraba_subject(body)[j] && forall|m: int|
                    0 <= m < i ==> (#[trigger] subject_entries(
                        lines(body),
                        sep_comma(),
                        ext_cgi(),
                    )[m]).key != subject_entries(lines(body), sep_comma(), ext_cgi())[i].key,
{
    lemma_dedup_distinct_and_keys(subject_entries(lines(body), sep_comma(), ext_cgi()));
}

/// The threads that a 2ch-compatible `subject.txt` yields have pairwise
/// different keys, and each key of a line that parses is among them.
pub proof fn law_ch2_subject_keys(body: Seq<char>)
    ensures
        keys_distinct(ch2_subject(body)),
        forall|k: Seq<char>|
            has_key(subject_entries(lines(body), sep_ch2(), ext_dat()), k) <==> has_key(
                ch2_subject(body),
                k,
            ),
{
    lemma_dedup_distinct_and_keys(subject_entries(lines(body), sep_ch2(), ext_dat()));
}


/// What a setting file says so far, line by line.
pub struct SettingAcc {
    pub res_max: Option<u32>,
    pub thread_stop: Option<u32>,
    pub default_name: Seq<char>,
    pub title: Seq<char>,
}

/// One `KEY=VALUE` line (key and value trimmed) applied to `a`. A number
/// that does not parse clears the earlier one.
pub open spec fn setting_step(a: SettingAcc, line: Seq<char>) -> SettingAcc {
    match split_once(line, seq!['=']) {
        None => a,
        Some((k0, v0)) => {
            let k = trim(k0);
            let v = trim(v0);
            if k == "BBS_THREAD_STOP"@ {
                SettingAcc { thread_stop: parse_u32(v), ..a }
            } else if k == "BBS_RES_MAX"@ {
                SettingAcc { res_max: parse_u32(v), ..a }
            } else if k == "BBS_NONAME_NAME"@ {
                SettingAcc { default_name: v, ..a }
            } else if k == "BBS_TITLE"@ {
                SettingAcc { title: v, ..a }
            } else {
                a
            }
        },
    }
}

pub open spec fn setting_fold(ls: Seq<Seq<char>>) -> SettingAcc
    decreases ls.len(),
{
    if ls.len() == 0 {
        SettingAcc {
            res_max: None,
            thread_stop: None,
            default_name: Seq::empty(),
            title: Seq::empty(),
        }
    } else {
        setting_step(setting_fold(ls.drop_last()), ls.last())
    }
}

/// `max_res` of a setting file: `BBS_THREAD_STOP` (shitaraba) when it is
/// there, else `BBS_RES_MAX` (2ch-compatible), else 0.
pub open spec fn setting_max_res(a: SettingAcc) -> u32 {
    match a.thread_stop {
        Some(n) => n,
        None => match a.res_max {
            Some(n) => n,
            None => 0,
        },
    }
}

/// `KEY=VALUE` board settings (SETTING.TXT / setting.cgi), already decoded.
pub fn parse_board_setting(body: &str) -> (r: BoardSetting)
    ensures
        r.max_res == setting_max_res(setting_fold(lines(body@))),
        r.default_name@ == setting_fold(lines(body@)).default_name,
        r.title@ == setting_fold(lines(body@)).title,
{
    let v = chars_of(body);
    let ls = lines_exec(v.as_slice());
    let ghost lsv = views(ls@);
    let eq: [char; 1] = ['='];
    assert(eq@ == seq!['=']);
    let mut res_max: Option<u32> = None;
    let mut thread_stop: Option<u32> = None;
    let mut default_name: Vec<char> = Vec::new();
    let mut title: Vec<char> = Vec::new();
    let mut i: usize = 0;
    while i < ls.len()
        invariant
            i <= ls.len(),
            lsv == views(ls@),
            lsv == lines(body@),
            eq@ == seq!['='],
            setting_fold(lsv.take(i as int)) == (SettingAcc {
                res_max,
                thread_stop,
                default_name: default_name@,
                title: title@,
            }),
        decreases ls.len() - i,
    {
        proof {
            assert(lsv.take(i + 1).drop_last() =~= lsv.take(i as int));
            assert(lsv.take(i + 1).last() == ls@[i as int]@);
        }
        match split_once_exec(ls[i].as_slice(), &eq) {
            None => {},
            Some((k0, v0)) => {
                let k = trim_exec(k0.as_slice());
                let val = trim_exec(v0.as_slice());
                if crate::text::eq_str_exec(k.as_slice(), "BBS_THREAD_STOP") {
                    thread_stop = parse_u32_exec(val.as_slice());
                } else if crate::text::eq_str_exec(k.as_slice(), "BBS_RES_MAX") {
                    res_max = parse_u32_exec(val.as_slice());
                } else if crate::text::eq_str_exec(k.as_slice(), "BBS_NONAME_NAME") {
                    default_name = val;
                } else if crate::text::eq_str_exec(k.as_slice(), "BBS_TITLE") {
                    title = val;
                }
            },
        }
        i += 1;
    }
    assert(lsv.take(ls.len() as int) =~= lsv);
    let max_res = match thread_stop {
        Some(n) => n,
        None => match res_max {
            Some(n) => n,
            None => 0,
        },
    };
    BoardSetting {
        max_res,
        default_name: string_of(default_name.as_slice()),
        title: string_of(title.as_slice()),
    }
}

/// A name with its `<b>` / `</b>` trip wrappers removed (contents kept).
pub open spec fn strip_bold(raw: Seq<char>) -> Seq<char> {
    replace(
        replace(replace(replace(raw, "</b>"@, Seq::empty()), "<b>"@, Seq::empty()), "</B>"@, Seq::empty()),
        "<B>"@,
        Seq::empty(),
    )
}

/// A name field: trip wrappers removed, trimmed, entities decoded.
pub open spec fn clean_text(raw: Seq<char>) -> Seq<char> {
    unescaped(trim(strip_bold(raw)))
}

/// A body field: ` <br> ` and `<br>` become newlines, entities decoded.
pub open spec fn clean_body(raw: Seq<char>) -> Seq<char> {
    unescaped(replace(replace(raw, " <br> "@, "\n"@), "<br>"@, "\n"@))
}

/// The date and the ID of a `date ID:xxxx ...` field: the ID is the first
/// word after ` ID:`; without ` ID:` the whole field is the date.
pub open spec fn date_id(field: Seq<char>) -> (Seq<char>, Seq<char>) {
    match split_once(field, " ID:"@) {
        Some((d, rest)) => (d, if words(rest).len() > 0 {
            words(rest)[0]
        } else {
            Seq::empty()
        }),
        None => (field, Seq::empty()),
    }
}

/// One line of a shitaraba `rawmode.cgi` body:
/// `{n}<>{name}<>{mail}<>{date ID}<>{body}<>{title}`.
pub open spec fn shitaraba_post(line: Seq<char>) -> Option<PostV> {
    let f = splitn(line, "<>"@, 6);
    if f.len() < 5 {
        None
    } else {
        match parse_u32(f[0]) {
            None => None,
            Some(n) => Some(
                PostV {
                    number: n,
                    name: clean_text(f[1]),
                    mail: f[2],
                    date: date_id(f[3]).0,
                    id: date_id(f[3]).1,
                    body: replace(clean_body(f[4]), "&#65374;"@, "～"@),
                    thread_title: if f.len() > 5 {
                        f[5]
                    } else {
                        Seq::empty()
                    },
                },
            ),
        }
    }
}

/// One line of a 2ch-compatible dat: `{name}<>{mail}<>{date ID}<>{body}<>{title}<>...`,
/// numbered `number`.
pub open spec fn ch2_post(line: Seq<char>, number: u32) -> Option<PostV> {
    let f = splitn(line, "<>"@, 7);
    if f.len() < 4 {
        None
    } else {
        Some(
            PostV {
                number,
                name: clean_text(f[0]),
                mail: f[1],
                date: date_id(f[2]).0,
                id: date_id(f[2]).1,
                body: clean_body(f[3]),
                thread_title: if f.len() > 4 {
                    f[4]
                } else {
                    Seq::empty()
                },
            },
        )
    }
}

/// The posts of the lines that parse, in order.
pub open spec fn shitaraba_posts(ls: Seq<Seq<char>>) -> Seq<PostV>
    decreases ls.len(),
{
    if ls.len() == 0 {
        Seq::empty()
    } else {
        let prev = shitaraba_posts(ls.drop_last());
        match shitaraba_post(ls.last()) {
            Some(p) => prev.push(p),
            None => prev,
        }
    }
}

/// The posts of the lines that parse, each numbered by its 1-based line
/// number (lines that do not parse still count).
pub open spec fn ch2_posts(ls: Seq<Seq<char>>) -> Seq<PostV>
    decreases ls.len(),
{
    if ls.len() == 0 {
        Seq::empty()
    } else {
        let prev = ch2_posts(ls.drop_last());
        match ch2_post(ls.last(), ls.len() as u32) {
            Some(p) => prev.push(p),
            None => prev,
        }
    }
}

fn lit_chars(lit: &str) -> (r: Vec<char>)
    ensures
        r@ == lit@,
{
    chars_of(lit)
}

/// Exec form of [`clean_text`].
fn clean_text_exec(raw: &[char]) -> (r: Vec<char>)
    ensures
        r@ == clean_text(raw@),
{
    proof {
        reveal_strlit("</b>");
        reveal_strlit("<b>");
        reveal_strlit("</B>");
        reveal_strlit("<B>");
    }
    let empty: Vec<char> = Vec::new();
    let a = replace_exec(raw, lit_chars("</b>").as_slice(), empty.as_slice());
    let b = replace_exec(a.as_slice(), lit_chars("<b>").as_slice(), empty.as_slice());
    let c = replace_exec(b.as_slice(), lit_chars("</B>").as_slice(), empty.as_slice());
    let d = replace_exec(c.as_slice(), lit_chars("<B>").as_slice(), empty.as_slice());
    assert(empty@ == Seq::<char>::empty());
    let t = trim_exec(d.as_slice());
    unescape_chars(t.as_slice())
}

/// Exec form of [`clean_body`].
fn clean_body_exec(raw: &[char]) -> (r: Vec<char>)
    ensures
        r@ == clean_body(raw@),
{
    proof {
        reveal_strlit(" <br> ");
        reveal_strlit("<br>");
    }
    let nl = lit_chars("\n");
    let a = replace_exec(raw, lit_chars(" <br> ").as_slice(), nl.as_slice());
    let b = replace_exec(a.as_slice(), lit_chars("<br>").as_slice(), nl.as_slice());
    unescape_chars(b.as_slice())
}

/// Exec form of [`date_id`].
fn split_date_id(field: &[char]) -> (r: (Vec<char>, Vec<char>))
    ensures
        (r.0@, r.1@) == date_id(field@),
{
    let pat = lit_chars(" ID:");
    match split_once_exec(field, pat.as_slice()) {
        Some((d, rest)) => {
            let ws = words_exec(rest.as_slice());
            let id = if ws.len() > 0 {
                proof {
                    assert(views(ws@)[0] == ws@[0]@);
                }
                ws[0].clone()
            } else {
                Vec::new()
            };
            (d, id)
        },
        None => (slice_exec(field, 0, field.len()), Vec::new()),
    }
}

fn post_of(
    number: u32,
    name: Vec<char>,
    mail: &[char],
    date: Vec<char>,
    id: Vec<char>,
    body: Vec<char>,
    thread_title: &[char],
) -> (r: Post)
    ensures
        r@ == (PostV {
            number,
            name: name@,
            mail: mail@,
            date: date@,
            id: id@,
            body: body@,
            thread_title: thread_title@,
        }),
{
    Post {
        number,
        name: string_of(name.as_slice()),
        mail: string_of(mail),
        date: string_of(date.as_slice()),
        id: string_of(id.as_slice()),
        body: string_of(body.as_slice()),
        thread_title: string_of(thread_title),
    }
}

/// Exec form of [`shitaraba_post`].
fn parse_shitaraba_line(line: &[char]) -> (r: Option<Post>)
    ensures
        match r {
            Some(p) => shitaraba_post(line@) == Some(p@),
            None => shitaraba_post(line@) is None,
        },
{
    proof {
        reveal_strlit("<>");
        reveal_strlit("&#65374;");
    }
    let sep = lit_chars("<>");
    let f = splitn_exec(line, sep.as_slice(), 6);
    let ghost fv = views(f@);
    if f.len() < 5 {
        return None;
    }
    assert(fv[0] == f@[0]@ && fv[1] == f@[1]@ && fv[2] == f@[2]@ && fv[3] == f@[3]@ && fv[4]
        == f@[4]@);
    match parse_u32_exec(f[0].as_slice()) {
        None => None,
        Some(n) => {
            let (date, id) = split_date_id(f[3].as_slice());
            let body0 = clean_body_exec(f[4].as_slice());
            let body = replace_exec(
                body0.as_slice(),
                lit_chars("&#65374;").as_slice(),
                lit_chars("～").as_slice(),
            );
            let empty: Vec<char> = Vec::new();
            let title: &[char] = if f.len() > 5 {
                assert(fv[5] == f@[5]@);
                f[5].as_slice()
            } else {
                empty.as_slice()
            };
            Some(post_of(n, clean_text_exec(f[1].as_slice()), f[2].as_slice(), date, id, body, title))
        },
    }
}

/// Exec form of [`ch2_post`].
fn parse_ch2_line(line: &[char], number: u32) -> (r: Option<Post>)
    ensures
        match r {
            Some(p) => ch2_post(line@, number) == Some(p@),
            None => ch2_post(line@, number) is None,
        },
{
    proof {
        reveal_strlit("<>");
    }
    let sep = lit_chars("<>");
    let f = splitn_exec(line, sep.as_slice(), 7);
    let ghost fv = views(f@);
    if f.len() < 4 {
        return None;
    }
    assert(fv[0] == f@[0]@ && fv[1] == f@[1]@ && fv[2] == f@[2]@ && fv[3] == f@[3]@);
    let (date, id) = split_date_id(f[2].as_slice());
    let empty: Vec<char> = Vec::new();
    let title: &[char] = if f.len() > 4 {
        assert(fv[4] == f@[4]@);
        f[4].as_slice()
    } else {
        empty.as_slice()
    };
    Some(
        post_of(
            number,
            clean_text_exec(f[0].as_slice()),
            f[1].as_slice(),
            date,
            id,
            clean_body_exec(f[3].as_slice()),
            title,
        ),
    )
}

/// Parse a shitaraba `rawmode.cgi` body
/// (`{n}<>{name}<>{mail}<>{date+ID}<>{body}<>{title}` per line); lines with
/// fewer than 5 fields or a number that does not parse are skipped.
pub fn parse_shitaraba_dat(body: &str) -> (r: Vec<Post>)
    ensures
        posts_view(r@) == shitaraba_posts(lines(body@)),
{
    let v = chars_of(body);
    let ls = lines_exec(v.as_slice());
    let ghost lsv = views(ls@);
    let mut out: Vec<Post> = Vec::new();
    let mut i: usize = 0;
    while i < ls.len()
        invariant
            i <= ls.len(),
            lsv == views(ls@),
            lsv == lines(body@),
            posts_view(out@) == shitaraba_posts(lsv.take(i as int)),
        decreases ls.len() - i,
    {
        proof {
            assert(lsv.take(i + 1).drop_last() =~= lsv.take(i as int));
            assert(lsv.take(i + 1).last() == ls@[i as int]@);
        }
        let ghost before = out@;
        match parse_shitaraba_line(ls[i].as_slice()) {
            Some(p) => {
                out.push(p);
                assert(posts_view(out@) =~= posts_view(before).push(p@));
            },
            None => {},
        }
        i += 1;
    }
    assert(lsv.take(ls.len() as int) =~= lsv);
    out
}

/// Parse a 2ch-compatible dat body
/// (`{name}<>{mail}<>{date+ID}<>{body}<>{title}<>...` per line); each post
/// is numbered by its 1-based line number, lines with fewer than 4 fields are
/// skipped.
pub fn parse_ch2_dat(body: &str) -> (r: Vec<Post>)
    requires
        lines(body@).len() < u32::MAX,
    ensures
        posts_view(r@) == ch2_posts(lines(body@)),
{
    let v = chars_of(body);
    let ls = lines_exec(v.as_slice());
    let ghost lsv = views(ls@);
    let mut out: Vec<Post> = Vec::new();
    let mut i: usize = 0;
    while i < ls.len()
        invariant
            i <= ls.len(),
            lsv == views(ls@),
            lsv == lines(body@),
            lsv.len() < u32::MAX,
            posts_view(out@) == ch2_posts(lsv.take(i as int)),
        decreases ls.len() - i,
    {
        proof {
            assert(lsv.take(i + 1).drop_last() =~= lsv.take(i as int));
            assert(lsv.take(i + 1).last() == ls@[i as int]@);
        }
        let ghost before = out@;
        let number: u32 = (i as u32) + 1;
        match parse_ch2_line(ls[i].as_slice(), number) {
            Some(p) => {
                out.push(p);
                assert(posts_view(out@) =~= posts_view(before).push(p@));
            },
            None => {},
        }
        i += 1;
    }
    assert(lsv.take(ls.len() as int) =~= lsv);
    out
}

/// `splitn` on `<>` at `i`, with at least two pieces left, where the
/// field `x` and a `<>` follow: `x`, then the pieces of what follows.
proof fn lemma_splitn_field(s: Seq<char>, i: int, x: Seq<char>, n: nat)
    requires
        n >= 2,
        0 <= i,
        i + x.len() + 2 <= s.len(),
        s.subrange(i, i + x.len()) == x,
        s[i + x.len()] == '<',
        s[i + x.len() + 1] == '>',
        !crate::text::contains(x, "<>"@),
    ensures
        crate::text::splitn_from(s, "<>"@, i, n) == seq![x] + crate::text::splitn_from(
            s,
            "<>"@,
            i + x.len() + 2,
            (n - 1) as nat,
        ),
{
    reveal_strlit("<>");
    crate::text::lemma_next_field(s, i, x);
}

proof fn lemma_splitn_nonempty(s: Seq<char>, i: int, n: nat)
    requires
        n >= 1,
    ensures
        crate::text::splitn_from(s, "<>"@, i, n).len() >= 1,
{
    reveal_strlit("<>");
}

/// A 2ch-compatible dat line `{name}<>{mail}<>{date ID}<>{body}<>...`
/// (the first three fields without `<>`) is a post, numbered as asked:
/// its name is the cleaned first field, its mail the second field as it
/// stands, its date and ID those of the third field, and its body the
/// cleaned fourth field.
pub proof fn law_ch2_post_fields(
    name: Seq<char>,
    mail: Seq<char>,
    date: Seq<char>,
    body: Seq<char>,
    rest: Seq<char>,
    number: u32,
)
    requires
        !crate::text::contains(name, "<>"@),
        !crate::text::contains(mail, "<>"@),
        !crate::text::contains(date, "<>"@),
    ensures
        ch2_post(name + "<>"@ + mail + "<>"@ + date + "<>"@ + body + rest, number) matches Some(p) && p.number
            == number && p.name == clean_text(name) && p.mail == mail && p.date == date_id(date).0 && p.id
            == date_id(date).1 && (!crate::text::contains(body, "<>"@) && rest.len() >= 2 && rest[0] == '<'
            && rest[1] == '>' ==> p.body == clean_body(body)),
{
    reveal_strlit("<>");
    let s = name + "<>"@ + mail + "<>"@ + date + "<>"@ + body + rest;
    let i1: int = name.len() as int + 2;
    let i2: int = i1 + mail.len() + 2;
    let i3: int = i2 + date.len() + 2;
    assert(s.subrange(0, name.len() as int) =~= name);
    assert(s.subrange(i1, i1 + mail.len()) =~= mail);
    assert(s.subrange(i2, i2 + date.len()) =~= date);
    assert(s[i1 - 2] == '<' && s[i1 - 1] == '>');
    assert(s[i2 - 2] == '<' && s[i2 - 1] == '>');
    assert(s[i3 - 2] == '<' && s[i3 - 1] == '>');
    lemma_splitn_field(s, 0, name, 7);
    lemma_splitn_field(s, i1, mail, 6);
    lemma_splitn_field(s, i2, date, 5);
    let t = crate::text::splitn_from(s, "<>"@, i3, 4);
    lemma_splitn_nonempty(s, i3, 4);
    let f = splitn(s, "<>"@, 7);
    assert(f =~= seq![name, mail, date] + t);
    assert(f.len() >= 4 && f[0] == name && f[1] == mail && f[2] == date && f[3] == t[0]);
    if !crate::text::contains(body, "<>"@) && rest.len() >= 2 && rest[0] == '<' && rest[1] == '>' {
        assert(s.subrange(i3, i3 + body.len()) =~= body);
        assert(s[i3 + body.len()] == '<' && s[i3 + body.len() + 1] == '>');
        lemma_splitn_field(s, i3, body, 4);
        assert(t[0] == body);
    }
}

/// A shitaraba rawmode line `{n}<>{name}<>{mail}<>{date ID}<>{body}<>...`
/// (the first four fields without `<>`, `n` a number) is a post numbered
/// `n`, whose name is the cleaned second field, whose mail is the third
/// field as it stands and whose date and ID are those of the fourth.
pub proof fn law_shitaraba_post_fields(
    n: Seq<char>,
    name: Seq<char>,
    mail: Seq<char>,
    date: Seq<char>,
    rest: Seq<char>,
)
    requires
        !crate::text::contains(n, "<>"@),
        !crate::text::contains(name, "<>"@),
        !crate::text::contains(mail, "<>"@),
        !crate::text::contains(date, "<>"@),
        parse_u32(n) is Some,
    ensures
        shitaraba_post(n + "<>"@ + name + "<>"@ + mail + "<>"@ + date + "<>"@ + rest) matches Some(p) && p.number
            == parse_u32(n)->0 && p.name == clean_text(name) && p.mail == mail && p.date == date_id(date).0
            && p.id == date_id(date).1,
{
    reveal_strlit("<>");
    let s = n + "<>"@ + name + "<>"@ + mail + "<>"@ + date + "<>"@ + rest;
    let i1: int = n.len() as int + 2;
    let i2: int = i1 + name.len() + 2;
    let i3: int = i2 + mail.len() + 2;
    let i4: int = i3 + date.len() + 2;
    assert(s.subrange(0, n.len() as int) =~= n);
    assert(s.subrange(i1, i1 + name.len()) =~= name);
    assert(s.subrange(i2, i2 + mail.len()) =~= mail);
    assert(s.subrange(i3, i3 + date.len()) =~= date);
    assert(s[i1 - 2] == '<' && s[i1 - 1] == '>');
    assert(s[i2 - 2] == '<' && s[i2 - 1] == '>');
    assert(s[i3 - 2] == '<' && s[i3 - 1] == '>');
    assert(s[i4 - 2] == '<' && s[i4 - 1] == '>');
    lemma_splitn_field(s, 0, n, 6);
    lemma_splitn_field(s, i1, name, 5);
    lemma_splitn_field(s, i2, mail, 4);
    lemma_splitn_field(s, i3, date, 3);
    let t = crate::text::splitn_from(s, "<>"@, i4, 2);
    lemma_splitn_nonempty(s, i4, 2);
    let f = splitn(s, "<>"@, 6);
    assert(f =~= seq![n, name, mail, date] + t);
    assert(f.len() >= 5 && f[0] == n && f[1] == name && f[2] == mail && f[3] == date);
}

} // verus!
