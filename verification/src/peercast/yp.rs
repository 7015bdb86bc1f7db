//! The YP `index.txt` format (19 `<>`-separated fields a line), and the
//! merge of several YPs' listings.

use vstd::prelude::*;
use crate::config::schema::YpSource;
use crate::text::{
    ascii_lower_seq, ascii_lower_seq_exec, chars_of, lines, lines_exec, parse_i32, parse_i32_exec,
    parse_u32, parse_u32_exec, replace, replace_exec, split, split_exec, string_of, views,
};

verus! {

/// One channel listed by a YP.
#[derive(Debug, Clone)]
pub struct YpEntry {
    pub name: String,
    pub id: String,
    pub tip: String,
    pub contact_url: String,
    pub genre: String,
    pub desc: String,
    pub listeners: i32,
    pub relays: i32,
    pub bitrate: u32,
    pub content_type: String,
    pub track_artist: String,
    pub track_album: String,
    pub track_title: String,
    pub track_contact: String,
    pub name_url_encoded: String,
    pub uptime: String,
    pub flag_click: String,
    pub comment: String,
    pub flag_extra: String,
    /// Name of the YP the entry was taken from (set when several YPs are
    /// merged; empty otherwise).
    pub yp_source: String,
}

/// Abstract contents of a [`YpEntry`].
#[verifier::ext_equal]
pub struct YpEntryV {
    pub name: Seq<char>,
    pub id: Seq<char>,
    pub tip: Seq<char>,
    pub contact_url: Seq<char>,
    pub genre: Seq<char>,
    pub desc: Seq<char>,
    pub listeners: i32,
    pub relays: i32,
    pub bitrate: u32,
    pub content_type: Seq<char>,
    pub track_artist: Seq<char>,
    pub track_album: Seq<char>,
    pub track_title: Seq<char>,
    pub track_contact: Seq<char>,
    pub name_url_encoded: Seq<char>,
    pub uptime: Seq<char>,
    pub flag_click: Seq<char>,
    pub comment: Seq<char>,
    pub flag_extra: Seq<char>,
    pub yp_source: Seq<char>,
}

impl View for YpEntry {
    type V = YpEntryV;

    open spec fn view(&self) -> YpEntryV {
        YpEntryV {
            name: self.name@,
            id: self.id@,
            tip: self.tip@,
            contact_url: self.contact_url@,
            genre: self.genre@,
            desc: self.desc@,
            listeners: self.listeners,
            relays: self.relays,
            bitrate: self.bitrate,
            content_type: self.content_type@,
            track_artist: self.track_artist@,
            track_album: self.track_album@,
            track_title: self.track_title@,
            track_contact: self.track_contact@,
            name_url_encoded: self.name_url_encoded@,
            uptime: self.uptime@,
            flag_click: self.flag_click@,
            comment: self.comment@,
            flag_extra: self.flag_extra@,
            yp_source: self.yp_source@,
        }
    }
}

impl Default for YpEntry {
    fn default() -> (r: YpEntry)
        ensures
            r.name@ == Seq::<char>::empty() && r.id@ == Seq::<char>::empty(),
            r.tip@ == Seq::<char>::empty() && r.contact_url@ == Seq::<char>::empty(),
            r.genre@ == Seq::<char>::empty() && r.desc@ == Seq::<char>::empty(),
            r.listeners == 0 && r.relays == 0 && r.bitrate == 0,
            r.content_type@ == Seq::<char>::empty() && r.track_artist@ == Seq::<char>::empty(),
            r.track_album@ == Seq::<char>::empty() && r.track_title@ == Seq::<char>::empty(),
            r.track_contact@ == Seq::<char>::empty() && r.name_url_encoded@ == Seq::<char>::empty(),
            r.uptime@ == Seq::<char>::empty() && r.flag_click@ == Seq::<char>::empty(),
            r.comment@ == Seq::<char>::empty() && r.flag_extra@ == Seq::<char>::empty(),
            r.yp_source@ == Seq::<char>::empty(),
    {
        YpEntry {
            name: String::new(),
            id: String::new(),
            tip: String::new(),
            contact_url: String::new(),
            genre: String::new(),
            desc: String::new(),
            listeners: 0,
            relays: 0,
            bitrate: 0,
            content_type: String::new(),
            track_artist: String::new(),
            track_album: String::new(),
            track_title: String::new(),
            track_contact: String::new(),
            name_url_encoded: String::new(),
            uptime: String::new(),
            flag_click: String::new(),
            comment: String::new(),
            flag_extra: String::new(),
            yp_source: String::new(),
        }
    }
}

impl YpEntry {
    /// A field-by-field copy.
    pub fn copy(&self) -> (r: YpEntry)
        ensures
            r@ == self@,
    {
        YpEntry {
            name: self.name.clone(),
            id: self.id.clone(),
            tip: self.tip.clone(),
            contact_url: self.contact_url.clone(),
            genre: self.genre.clone(),
            desc: self.desc.clone(),
            listeners: self.listeners,
            relays: self.relays,
            bitrate: self.bitrate,
            content_type: self.content_type.clone(),
            track_artist: self.track_artist.clone(),
            track_album: self.track_album.clone(),
            track_title: self.track_title.clone(),
            track_contact: self.track_contact.clone(),
            name_url_encoded: self.name_url_encoded.clone(),
            uptime: self.uptime.clone(),
            flag_click: self.flag_click.clone(),
            comment: self.comment.clone(),
            flag_extra: self.flag_extra.clone(),
            yp_source: self.yp_source.clone(),
        }
    }
}

/// `&lt;` and `&gt;` turned back into `<` and `>`.
pub open spec fn unescape_field(f: Seq<char>) -> Seq<char> {
    replace(replace(f, "&lt;"@, "<"@), "&gt;"@, ">"@)
}

/// A number field; what does not parse counts as 0.
pub open spec fn int_field(f: Seq<char>) -> i32 {
    match parse_i32(f) {
        Some(n) => n,
        None => 0,
    }
}

pub open spec fn uint_field(f: Seq<char>) -> u32 {
    match parse_u32(f) {
        Some(n) => n,
        None => 0,
    }
}

/// The entry the first 19 fields of a line describe: text fields that may
/// hold markup are unescaped, the channel id is lower-cased.
pub open spec fn entry_of_fields(f: Seq<Seq<char>>) -> YpEntryV {
    YpEntryV {
        name: unescape_field(f[0]),
        id: ascii_lower_seq(f[1]),
        tip: f[2],
        contact_url: f[3],
        genre: unescape_field(f[4]),
        desc: unescape_field(f[5]),
        listeners: int_field(f[6]),
        relays: int_field(f[7]),
        bitrate: uint_field(f[8]),
        content_type: f[9],
        track_artist: unescape_field(f[10]),
        track_album: unescape_field(f[11]),
        track_title: unescape_field(f[12]),
        track_contact: f[13],
        name_url_encoded: f[14],
        uptime: f[15],
        flag_click: f[16],
        comment: unescape_field(f[17]),
        flag_extra: f[18],
        yp_source: Seq::empty(),
    }
}

/// A line of `index.txt`: nothing when it has fewer than 19 fields.
pub open spec fn parse_line_spec(line: Seq<char>) -> Option<YpEntryV> {
    let f = split(line, "<>"@);
    if f.len() < 19 {
        None
    } else {
        Some(entry_of_fields(f))
    }
}

/// The entries of the lines from `i` on that parse.
pub open spec fn parse_lines_from(ls: Seq<Seq<char>>, i: int) -> Seq<YpEntryV>
    decreases ls.len() - i,
{
    if i < 0 || i >= ls.len() {
        Seq::empty()
    } else {
        match parse_line_spec(ls[i]) {
            Some(e) => seq![e] + parse_lines_from(ls, i + 1),
            None => parse_lines_from(ls, i + 1),
        }
    }
}

pub open spec fn entry_views(v: Seq<YpEntry>) -> Seq<YpEntryV> {
    v.map_values(|e: YpEntry| e@)
}

fn unescape(field: &[char]) -> (r: String)
    ensures
        r@ == unescape_field(field@),
{
    proof {
        reveal_strlit("&lt;");
        reveal_strlit("&gt;");
    }
    let lt = chars_of("&lt;");
    let lt_r = chars_of("<");
    let gt = chars_of("&gt;");
    let gt_r = chars_of(">");
    let a = replace_exec(field, lt.as_slice(), lt_r.as_slice());
    let b = replace_exec(a.as_slice(), gt.as_slice(), gt_r.as_slice());
    string_of(b.as_slice())
}

fn parse_int(s: &[char]) -> (r: i32)
    ensures
        r == int_field(s@),
{
    match parse_i32_exec(s) {
        Some(n) => n,
        None => 0,
    }
}

fn parse_uint(s: &[char]) -> (r: u32)
    ensures
        r == uint_field(s@),
{
    match parse_u32_exec(s) {
        Some(n) => n,
        None => 0,
    }
}

fn parse_line_chars(line: &[char]) -> (r: Option<YpEntry>)
    ensures
        match r {
            Some(e) => parse_line_spec(line@) == Some(e@),
            None => parse_line_spec(line@) is None,
        },
{
    proof {
        reveal_strlit("<>");
    }
    let sep = chars_of("<>");
    let f = split_exec(line, sep.as_slice());
    if f.len() < 19 {
        return None;
    }
    let ghost fv = views(f@);
    assert(forall|k: int| 0 <= k < f@.len() ==> #[trigger] fv[k] == f@[k]@);
    let e = YpEntry {
        name: unescape(f[0].as_slice()),
        id: string_of(ascii_lower_seq_exec(f[1].as_slice()).as_slice()),
        tip: string_of(f[2].as_slice()),
        contact_url: string_of(f[3].as_slice()),
        genre: unescape(f[4].as_slice()),
        desc: unescape(f[5].as_slice()),
        listeners: parse_int(f[6].as_slice()),
        relays: parse_int(f[7].as_slice()),
        bitrate: parse_uint(f[8].as_slice()),
        content_type: string_of(f[9].as_slice()),
        track_artist: unescape(f[10].as_slice()),
        track_album: unescape(f[11].as_slice()),
        track_title: unescape(f[12].as_slice()),
        track_contact: string_of(f[13].as_slice()),
        name_url_encoded: string_of(f[14].as_slice()),
        uptime: string_of(f[15].as_slice()),
        flag_click: string_of(f[16].as_slice()),
        comment: unescape(f[17].as_slice()),
        flag_extra: string_of(f[18].as_slice()),
        yp_source: String::new(),
    };
    assert(e@ =~= entry_of_fields(fv));
    Some(e)
}

/// Parse one `<>`-separated line of an `index.txt` file; `None` when the
/// line has fewer than 19 fields.
pub fn parse_line(line: &str) -> (r: Option<YpEntry>)
    ensures
        match r {
            Some(e) => parse_line_spec(line@) == Some(e@),
            None => parse_line_spec(line@) is None,
        },
{
    let v = chars_of(line);
    parse_line_chars(v.as_slice())
}

/// Parse an entire `index.txt` body, skipping lines that do not parse.
pub fn parse(body: &str) -> (r: Vec<YpEntry>)
    ensures
        entry_views(r@) == parse_lines_from(lines(body@), 0),
{
    let v = chars_of(body);
    let ls = lines_exec(v.as_slice());
    let ghost lv = views(ls@);
    let mut out: Vec<YpEntry> = Vec::new();
    let mut i: usize = 0;
    while i < ls.len()
        invariant
            i <= ls@.len(),
            lv == views(ls@),
            lv == lines(body@),
            parse_lines_from(lv, 0) == entry_views(out@) + parse_lines_from(lv, i as int),
        decreases ls@.len() - i,
    {
        assert(lv[i as int] == ls@[i as int]@);
        let ghost before = out@;
        match parse_line_chars(ls[i].as_slice()) {
            Some(e) => {
                out.push(e);
                assert(entry_views(out@) =~= entry_views(before).push(e@));
                assert(entry_views(before) + (seq![e@] + parse_lines_from(lv, i + 1)) =~= entry_views(
                    out@,
                ) + parse_lines_from(lv, i + 1));
            },
            None => {},
        }
        i += 1;
    }
    assert(entry_views(out@) + Seq::<YpEntryV>::empty() =~= entry_views(out@));
    out
}


/// What [`check_yp_url`] gives for `u`: the trimmed URL, or the text of the
/// `InvalidUrl` error.
pub open spec fn check_yp_url_spec(u: Seq<char>) -> Result<Seq<char>, Seq<char>> {
    let t = crate::text::trim(u);
    if t.len() == 0 {
        Err("YP URL is empty"@)
    } else if !crate::text::starts_with(t, "http://"@) && !crate::text::starts_with(t, "https://"@) {
        Err("YP URL must start with http:// or https://: "@ + t)
    } else {
        Ok(t)
    }
}

/// The URL of a YP `index.txt` as it is fetched: trimmed, non-empty and
/// with an `http`/`https` scheme (no other scheme may reach the fetch).
pub fn check_yp_url(yp_url: &str) -> (r: Result<String, crate::util::errors::AppError>)
    ensures
        match check_yp_url_spec(yp_url@) {
            Ok(t) => (r matches Ok(x) && x@ == t),
            Err(m) => (r matches Err(crate::util::errors::AppError::InvalidUrl(x)) && x@ == m),
        },
{
    let t = crate::text::trim_exec(chars_of(yp_url).as_slice());
    if t.len() == 0 {
        return Err(crate::util::errors::AppError::InvalidUrl(String::from_str("YP URL is empty")));
    }
    let h = chars_of("http://");
    let hs = chars_of("https://");
    if !crate::text::starts_with_exec(t.as_slice(), h.as_slice()) && !crate::text::starts_with_exec(
        t.as_slice(),
        hs.as_slice(),
    ) {
        let ts = string_of(t.as_slice());
        return Err(
            crate::util::errors::AppError::InvalidUrl(
                crate::util::errors::concat_str("YP URL must start with http:// or https://: ", ts.as_str()),
            ),
        );
    }
    Ok(string_of(t.as_slice()))
}

// ------------------------------------------------------------ merging

/// A YP that could not be read.
#[derive(Debug, Clone)]
pub struct YpFetchFailure {
    pub source: String,
    pub url: String,
    pub error: String,
}

/// The listings of several YPs merged.
#[derive(Debug, Clone)]
pub struct MultiFetchOutcome {
    pub entries: Vec<YpEntry>,
    pub failures: Vec<YpFetchFailure>,
}

/// Abstract contents of a [`YpFetchFailure`].
pub struct FailureV {
    pub source: Seq<char>,
    pub url: Seq<char>,
    pub error: Seq<char>,
}

pub open spec fn failure_views(v: Seq<YpFetchFailure>) -> Seq<FailureV> {
    v.map_values(|f: YpFetchFailure| FailureV { source: f.source@, url: f.url@, error: f.error@ })
}

/// What came of fetching one YP.
pub enum FetchV {
    /// The fetch did not finish (its task was lost).
    Missing,
    Fetched(Seq<YpEntryV>),
    /// The fetch failed with this message.
    Failed(Seq<char>),
}

pub open spec fn fetch_view(o: Option<Result<Vec<YpEntry>, String>>) -> FetchV {
    match o {
        None => FetchV::Missing,
        Some(Ok(v)) => FetchV::Fetched(entry_views(v@)),
        Some(Err(m)) => FetchV::Failed(m@),
    }
}

pub open spec fn fetch_views(v: Seq<Option<Result<Vec<YpEntry>, String>>>) -> Seq<FetchV> {
    v.map_values(|o: Option<Result<Vec<YpEntry>, String>>| fetch_view(o))
}

/// The key a channel is merged by: its id in lower case.
pub open spec fn entry_key(e: YpEntryV) -> Seq<char> {
    ascii_lower_seq(e.id)
}

/// The entries of `list` from `k` on taken into `(seen, out)`: an entry
/// whose key is empty or already seen is skipped, any other is tagged with
/// the YP's name and its key is remembered.
pub open spec fn take_from(
    list: Seq<YpEntryV>,
    k: int,
    name: Seq<char>,
    seen: Seq<Seq<char>>,
    out: Seq<YpEntryV>,
) -> (Seq<Seq<char>>, Seq<YpEntryV>)
    decreases list.len() - k,
{
    if k < 0 || k >= list.len() {
        (seen, out)
    } else {
        let key = entry_key(list[k]);
        if key.len() == 0 || seen.contains(key) {
            take_from(list, k + 1, name, seen, out)
        } else {
            take_from(list, k + 1, name, seen.push(key), out.push(YpEntryV { yp_source: name, ..list[k] }))
        }
    }
}

/// The results of the YPs from `i` on merged into `(seen, out, fails)`, in
/// the order of the sources.
pub open spec fn merge_from(
    srcs: Seq<YpSource>,
    res: Seq<FetchV>,
    i: int,
    seen: Seq<Seq<char>>,
    out: Seq<YpEntryV>,
    fails: Seq<FailureV>,
) -> (Seq<YpEntryV>, Seq<FailureV>)
    decreases srcs.len() - i,
{
    if i < 0 || i >= srcs.len() || i >= res.len() {
        (out, fails)
    } else {
        match res[i] {
            FetchV::Missing => merge_from(srcs, res, i + 1, seen, out, fails),
            FetchV::Fetched(list) => {
                let (s2, o2) = take_from(list, 0, srcs[i].name@, seen, out);
                merge_from(srcs, res, i + 1, s2, o2, fails)
            },
            FetchV::Failed(m) => merge_from(
                srcs,
                res,
                i + 1,
                seen,
                out,
                fails.push(FailureV { source: srcs[i].name@, url: srcs[i].url@, error: m }),
            ),
        }
    }
}


/// No two entries share a key, and none has an empty key.
pub open spec fn distinct_keys(out: Seq<YpEntryV>) -> bool {
    &&& forall|j: int| 0 <= j < out.len() ==> #[trigger] entry_key(out[j]).len() > 0
    &&& forall|j: int, k: int| 0 <= j < k < out.len() ==> entry_key(out[j]) != entry_key(out[k])
}

spec fn merged_wf(seen: Seq<Seq<char>>, out: Seq<YpEntryV>) -> bool {
    &&& seen.len() == out.len()
    &&& forall|j: int| 0 <= j < out.len() ==> entry_key(#[trigger] out[j]) == seen[j] && seen[j].len() > 0
    &&& forall|j: int, k: int| 0 <= j < k < seen.len() ==> seen[j] != seen[k]
}

proof fn lemma_take_wf(list: Seq<YpEntryV>, k: int, name: Seq<char>, seen: Seq<Seq<char>>, out: Seq<YpEntryV>)
    requires
        merged_wf(seen, out),
    ensures
        merged_wf(take_from(list, k, name, seen, out).0, take_from(list, k, name, seen, out).1),
    decreases list.len() - k,
{
    if k < 0 || k >= list.len() {
    } else {
        let key = entry_key(list[k]);
        if key.len() == 0 || seen.contains(key) {
            lemma_take_wf(list, k + 1, name, seen, out);
        } else {
            let s2 = seen.push(key);
            let o2 = out.push(YpEntryV { yp_source: name, ..list[k] });
            assert(entry_key(o2[out.len() as int]) == key);
            assert forall|j: int, m: int| 0 <= j < m < s2.len() implies s2[j] != s2[m] by {
                if m == seen.len() {
                    assert(s2[j] == seen[j]);
                    assert(seen.contains(seen[j]));
                }
            }
            assert(merged_wf(s2, o2));
            lemma_take_wf(list, k + 1, name, s2, o2);
        }
    }
}

proof fn lemma_merge_wf(
    srcs: Seq<YpSource>,
    res: Seq<FetchV>,
    i: int,
    seen: Seq<Seq<char>>,
    out: Seq<YpEntryV>,
    fails: Seq<FailureV>,
)
    requires
        merged_wf(seen, out),
    ensures
        distinct_keys(merge_from(srcs, res, i, seen, out, fails).0),
    decreases srcs.len() - i,
{
    if i < 0 || i >= srcs.len() || i >= res.len() {
        assert forall|j: int, k: int| 0 <= j < k < out.len() implies entry_key(out[j]) != entry_key(out[k]) by {
            assert(entry_key(out[j]) == seen[j]);
            assert(entry_key(out[k]) == seen[k]);
        }
    } else {
        match res[i] {
            FetchV::Missing => lemma_merge_wf(srcs, res, i + 1, seen, out, fails),
            FetchV::Fetched(list) => {
                lemma_take_wf(list, 0, srcs[i].name@, seen, out);
                let (s2, o2) = take_from(list, 0, srcs[i].name@, seen, out);
                lemma_merge_wf(srcs, res, i + 1, s2, o2, fails);
            },
            FetchV::Failed(m) => lemma_merge_wf(
                srcs,
                res,
                i + 1,
                seen,
                out,
                fails.push(FailureV { source: srcs[i].name@, url: srcs[i].url@, error: m }),
            ),
        }
    }
}

/// After a merge no channel is listed twice (by its lower-cased id), and
/// every listed channel has an id.
pub proof fn law_merged_channels_distinct(srcs: Seq<YpSource>, res: Seq<FetchV>)
    ensures
        distinct_keys(merge_from(srcs, res, 0, Seq::empty(), Seq::empty(), Seq::empty()).0),
{
    lemma_merge_wf(srcs, res, 0, Seq::empty(), Seq::empty(), Seq::empty());
}

fn eq_chars(a: &[char], b: &[char]) -> (r: bool)
    ensures
        r == (a@ == b@),
{
    if a.len() != b.len() {
        return false;
    }
    let mut i: usize = 0;
    while i < a.len()
        invariant
            i <= a.len(),
            a.len() == b.len(),
            forall|k: int| 0 <= k < i ==> a@[k] == b@[k],
        decreases a.len() - i,
    {
        if a[i] != b[i] {
            return false;
        }
        i += 1;
    }
    assert(a@ =~= b@);
    true
}

fn seen_contains(seen: &Vec<Vec<char>>, key: &[char]) -> (r: bool)
    ensures
        r == views(seen@).contains(key@),
{
    let mut i: usize = 0;
    while i < seen.len()
        invariant
            i <= seen@.len(),
            forall|k: int| 0 <= k < i ==> views(seen@)[k] != key@,
        decreases seen@.len() - i,
    {
        if eq_chars(seen[i].as_slice(), key) {
            assert(views(seen@)[i as int] == key@);
            return true;
        }
        i += 1;
    }
    false
}


/// Exec of [`take_from`] from the start of `list`.
fn take_entries(list: &Vec<YpEntry>, name: &String, seen: &mut Vec<Vec<char>>, entries: &mut Vec<YpEntry>)
    ensures
        (views(final(seen)@), entry_views(final(entries)@)) == take_from(
            entry_views(list@),
            0,
            name@,
            views(old(seen)@),
            entry_views(old(entries)@),
        ),
{
    let ghost lv = entry_views(list@);
    let ghost start = (views(seen@), entry_views(entries@));
    let mut k: usize = 0;
    while k < list.len()
        invariant
            k <= list@.len(),
            lv == entry_views(list@),
            take_from(lv, 0, name@, start.0, start.1) == take_from(
                lv,
                k as int,
                name@,
                views(seen@),
                entry_views(entries@),
            ),
        decreases list@.len() - k,
    {
        let e = &list[k];
        assert(lv[k as int] == e@);
        let key = ascii_lower_seq_exec(chars_of(e.id.as_str()).as_slice());
        if key.len() == 0 || seen_contains(seen, key.as_slice()) {
        } else {
            let ghost sb = seen@;
            let ghost eb = entries@;
            seen.push(key);
            let mut t = e.copy();
            t.yp_source = name.clone();
            entries.push(t);
            proof {
                crate::text::lemma_views_push(sb, key);
                assert(entry_views(entries@) =~= entry_views(eb).push(YpEntryV { yp_source: name@, ..lv[k as int] }));
            }
        }
        k += 1;
    }
}

/// Merge the listings of `sources` (`results[i]` is what came of fetching
/// `sources[i]`): the entries in source order, a channel listed by several
/// YPs taken from the first of them and tagged with its name, entries
/// without an id dropped; a failed fetch is listed with its message.
pub fn merge_fetch_results(sources: &[YpSource], results: &Vec<Option<Result<Vec<YpEntry>, String>>>) -> (r: MultiFetchOutcome)
    requires
        results@.len() == sources@.len(),
    ensures
        (entry_views(r.entries@), failure_views(r.failures@)) == merge_from(
            sources@,
            fetch_views(results@),
            0,
            Seq::empty(),
            Seq::empty(),
            Seq::empty(),
        ),
{
    let ghost rv = fetch_views(results@);
    let mut seen: Vec<Vec<char>> = Vec::new();
    let mut entries: Vec<YpEntry> = Vec::new();
    let mut failures: Vec<YpFetchFailure> = Vec::new();
    assert(views(seen@) =~= Seq::<Seq<char>>::empty());
    assert(entry_views(entries@) =~= Seq::<YpEntryV>::empty());
    assert(failure_views(failures@) =~= Seq::<FailureV>::empty());
    let mut i: usize = 0;
    while i < sources.len()
        invariant
            i <= sources@.len(),
            results@.len() == sources@.len(),
            rv == fetch_views(results@),
            merge_from(sources@, rv, 0, Seq::empty(), Seq::empty(), Seq::empty()) == merge_from(
                sources@,
                rv,
                i as int,
                views(seen@),
                entry_views(entries@),
                failure_views(failures@),
            ),
        decreases sources@.len() - i,
    {
        assert(rv[i as int] == fetch_view(results@[i as int]));
        match &results[i] {
            None => {},
            Some(Ok(list)) => {
                assert(rv[i as int] == FetchV::Fetched(entry_views(list@)));
                take_entries(list, &sources[i].name, &mut seen, &mut entries);
            },
            Some(Err(m)) => {
                let ghost before = failures@;
                failures.push(
                    YpFetchFailure {
                        source: sources[i].name.clone(),
                        url: sources[i].url.clone(),
                        error: m.clone(),
                    },
                );
                assert(failure_views(failures@) =~= failure_views(before).push(
                    FailureV { source: sources@[i as int].name@, url: sources@[i as int].url@, error: m@ },
                ));
            },
        }
        i += 1;
    }
    MultiFetchOutcome { entries, failures }
}

/// `split` on `<>` at `i`, where the field `x` and a `<>` follow: `x`
/// first, then what follows.
proof fn lemma_split_field(s: Seq<char>, i: int, x: Seq<char>)
    requires
        0 <= i,
        i + x.len() + 2 <= s.len(),
        s.subrange(i, i + x.len()) == x,
        s[i + x.len()] == '<',
        s[i + x.len() + 1] == '>',
        !crate::text::contains(x, "<>"@),
    ensures
        crate::text::split_from(s, "<>"@, i) == seq![x] + crate::text::split_from(s, "<>"@, i + x.len() + 2),
{
    reveal_strlit("<>");
    crate::text::lemma_next_field(s, i, x);
}

/// A YP line `{name}<>{id}<>{tip}<>{contact}<>...` (none of these four
/// fields holding `<>`) that parses gives an entry whose name is the
/// (unescaped) first field, whose id is the second in lower case, whose
/// tip is the third and whose contact URL is the fourth, as they stand.
pub proof fn law_yp_line_fields(
    name: Seq<char>,
    id: Seq<char>,
    tip: Seq<char>,
    contact: Seq<char>,
    rest: Seq<char>,
)
    requires
        !crate::text::contains(name, "<>"@),
        !crate::text::contains(id, "<>"@),
        !crate::text::contains(tip, "<>"@),
        !crate::text::contains(contact, "<>"@),
    ensures
        parse_line_spec(name + "<>"@ + id + "<>"@ + tip + "<>"@ + contact + "<>"@ + rest) matches Some(e)
            ==> e.name == unescape_field(name) && e.id == ascii_lower_seq(id) && e.tip == tip && e.contact_url
            == contact,
{
    reveal_strlit("<>");
    let s = name + "<>"@ + id + "<>"@ + tip + "<>"@ + contact + "<>"@ + rest;
    let i1: int = name.len() as int + 2;
    let i2: int = i1 + id.len() + 2;
    let i3: int = i2 + tip.len() + 2;
    let i4: int = i3 + contact.len() + 2;
    assert(s.subrange(0, name.len() as int) =~= name);
    assert(s.subrange(i1, i1 + id.len()) =~= id);
    assert(s.subrange(i2, i2 + tip.len()) =~= tip);
    assert(s.subrange(i3, i3 + contact.len()) =~= contact);
    assert(s[name.len() as int] == '<' && s[i1 - 1] == '>');
    assert(s[i2 - 2] == '<' && s[i2 - 1] == '>');
    assert(s[i3 - 2] == '<' && s[i3 - 1] == '>');
    assert(s[i4 - 2] == '<' && s[i4 - 1] == '>');
    lemma_split_field(s, 0, name);
    lemma_split_field(s, i1, id);
    lemma_split_field(s, i2, tip);
    lemma_split_field(s, i3, contact);
    let f = split(s, "<>"@);
    let t = crate::text::split_from(s, "<>"@, i4);
    assert(f =~= seq![name, id, tip, contact] + t);
    assert(f[0] == name && f[1] == id && f[2] == tip && f[3] == contact);
}

/// The fields joined with `<>`.
pub open spec fn joined_fields(fs: Seq<Seq<char>>) -> Seq<char>
    decreases fs.len(),
{
    if fs.len() <= 1 {
        if fs.len() == 1 {
            fs[0]
        } else {
            Seq::empty()
        }
    } else {
        fs[0] + "<>"@ + joined_fields(fs.drop_first())
    }
}

proof fn lemma_split_last(s: Seq<char>, i: int)
    requires
        0 <= i <= s.len(),
        !crate::text::contains(s.subrange(i, s.len() as int), "<>"@),
    ensures
        crate::text::split_from(s, "<>"@, i) == seq![s.subrange(i, s.len() as int)],
{
    reveal_strlit("<>");
    let x = s.subrange(i, s.len() as int);
    crate::text::lemma_find_from_bounds(x, "<>"@, 0);
    crate::text::lemma_find_from_bounds(s, "<>"@, i);
    if let Some(k) = crate::text::find_from(s, "<>"@, i) {
        assert(x.subrange(k - i, k - i + 2) =~= s.subrange(k, k + 2));
        assert(crate::text::occurs_at(x, k - i, "<>"@));
    }
}

/// Splitting joined fields (none holding `<>`) on `<>` gives the fields.
proof fn lemma_split_joined(pre: Seq<char>, fs: Seq<Seq<char>>)
    requires
        fs.len() >= 1,
        forall|k: int| 0 <= k < fs.len() ==> !crate::text::contains(#[trigger] fs[k], "<>"@),
    ensures
        crate::text::split_from(pre + joined_fields(fs), "<>"@, pre.len() as int) == fs,
    decreases fs.len(),
{
    reveal_strlit("<>");
    let s = pre + joined_fields(fs);
    let i = pre.len() as int;
    if fs.len() == 1 {
        assert(s.subrange(i, s.len() as int) =~= fs[0]);
        lemma_split_last(s, i);
        assert(seq![fs[0]] =~= fs);
    } else {
        let x = fs[0];
        let rest = fs.drop_first();
        let pre2 = pre + x + "<>"@;
        assert(s =~= pre2 + joined_fields(rest));
        assert(s.subrange(i, i + x.len()) =~= x);
        assert(s[i + x.len()] == '<' && s[i + x.len() + 1] == '>');
        lemma_split_field(s, i, x);
        assert forall|k: int| 0 <= k < rest.len() implies !crate::text::contains(#[trigger] rest[k], "<>"@) by {
            assert(rest[k] == fs[k + 1]);
        }
        lemma_split_joined(pre2, rest);
        assert(pre2.len() == i + x.len() + 2);
        assert(seq![x] + rest =~= fs);
    }
}

/// A YP line of 19 or more `<>`-separated fields (none holding `<>`) is an
/// entry: the name, genre, description, track artist, album and title and
/// comment are fields 0, 4, 5, 10, 11, 12 and 17 unescaped; the id is field
/// 1 in lower case; the tip, contact URL, content type, track contact,
/// encoded name, uptime, click flag and extra flag are fields 2, 3, 9, 13,
/// 14, 15, 16 and 18 as they stand; the listeners, relays and bitrate are
/// the numbers of fields 6, 7 and 8 (0 when not a number); and no YP is
/// named yet.
pub proof fn law_yp_line_positions(fs: Seq<Seq<char>>)
    requires
        fs.len() >= 19,
        forall|k: int| 0 <= k < fs.len() ==> !crate::text::contains(#[trigger] fs[k], "<>"@),
    ensures
        parse_line_spec(joined_fields(fs)) matches Some(e) && e.name == unescape_field(fs[0]) && e.id
            == ascii_lower_seq(fs[1]) && e.tip == fs[2] && e.contact_url == fs[3] && e.genre == unescape_field(
            fs[4],
        ) && e.desc == unescape_field(fs[5]) && e.listeners == int_field(fs[6]) && e.relays == int_field(fs[7])
            && e.bitrate == uint_field(fs[8]) && e.content_type == fs[9] && e.track_artist == unescape_field(
            fs[10],
        ) && e.track_album == unescape_field(fs[11]) && e.track_title == unescape_field(fs[12])
            && e.track_contact == fs[13] && e.name_url_encoded == fs[14] && e.uptime == fs[15] && e.flag_click
            == fs[16] && e.comment == unescape_field(fs[17]) && e.flag_extra == fs[18] && e.yp_source.len() == 0,
{
    lemma_split_joined(Seq::empty(), fs);
    assert(Seq::<char>::empty() + joined_fields(fs) =~= joined_fields(fs));
}

} // verus!
