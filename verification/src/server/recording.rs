//! Recording: the checks made before a recording starts, the upstream
//! stream it reads, and the order in which recordings are listed.

use vstd::prelude::*;
use crate::server::config::RecordingConfig;
use crate::server::error::ApiError;
use crate::snapshot::strip_leading_dots;
use crate::text::{chars_of, decimal, decimal_exec, push_all, push_str, slice_exec, string_of, trim, trim_exec};
use crate::util::errors::concat_str;

verus! {

/// Most recordings at once when the setting is 0.
pub const DEFAULT_MAX_CONCURRENT: u32 = 8;

/// A recording in progress.
#[derive(Debug, Clone)]
pub struct RecordingEntry {
    pub channel_id: String,
    pub channel_name: String,
    pub path: String,
}

#[derive(Debug, Clone)]
pub struct RecordingList {
    pub recordings: Vec<RecordingEntry>,
}

/// Where and how recordings are written.
#[derive(Debug, Clone)]
pub struct RecordingTarget {
    /// The (trimmed) output directory.
    pub dir: String,
    /// The file extension (without dots).
    pub ext: String,
    /// Most recordings at once.
    pub max: u32,
}

/// The extension of recorded files: the configured one trimmed and
/// without leading dots, `flv` when that is empty.
pub open spec fn recording_ext_of(ext: Seq<char>) -> Seq<char> {
    if strip_leading_dots(trim(ext)).len() == 0 {
        "flv"@
    } else {
        strip_leading_dots(trim(ext))
    }
}

/// The target of recordings, or 503 `recording_disabled` when recording is
/// off or has no directory.
pub fn recording_target(rec: &RecordingConfig) -> (r: Result<RecordingTarget, ApiError>)
    ensures
        !rec.enabled ==> (r matches Err(e) && e.status == 503 && e.code@ == "recording_disabled"@ && e.message@
            == "[recording] enabled = false なので録画機能は無効です"@),
        rec.enabled && trim(rec.dir@).len() == 0 ==> (r matches Err(e) && e.status == 503 && e.code@
            == "recording_disabled"@ && e.message@ == "[recording] dir が空なので録画機能は無効です"@),
        rec.enabled && trim(rec.dir@).len() > 0 ==> (r matches Ok(t) && t.dir@ == trim(rec.dir@) && t.ext@
            == recording_ext_of(rec.ext@) && t.max == (if rec.max_concurrent == 0 {
            DEFAULT_MAX_CONCURRENT
        } else {
            rec.max_concurrent
        })),
{
    if !rec.enabled {
        return Err(
            ApiError {
                status: 503,
                code: "recording_disabled",
                message: String::from_str("[recording] enabled = false なので録画機能は無効です"),
            },
        );
    }
    let dir = trim_exec(chars_of(rec.dir.as_str()).as_slice());
    if dir.len() == 0 {
        return Err(
            ApiError {
                status: 503,
                code: "recording_disabled",
                message: String::from_str("[recording] dir が空なので録画機能は無効です"),
            },
        );
    }
    let max = if rec.max_concurrent == 0 {
        DEFAULT_MAX_CONCURRENT
    } else {
        rec.max_concurrent
    };
    let e = trim_exec(chars_of(rec.ext.as_str()).as_slice());
    let mut k: usize = 0;
    assert(e@.subrange(0, e@.len() as int) =~= e@);
    while k < e.len() && e[k] == '.'
        invariant
            k <= e@.len(),
            strip_leading_dots(e@) == strip_leading_dots(e@.subrange(k as int, e@.len() as int)),
        decreases e@.len() - k,
    {
        assert(e@.subrange(k as int, e@.len() as int).drop_first() =~= e@.subrange(k + 1, e@.len() as int));
        k += 1;
    }
    let raw = slice_exec(e.as_slice(), k, e.len());
    assert(strip_leading_dots(raw@) == raw@);
    let ext = if raw.len() == 0 {
        String::from_str("flv")
    } else {
        string_of(raw.as_slice())
    };
    Ok(RecordingTarget { dir: string_of(dir.as_slice()), ext, max })
}

/// Whether one more recording of `channel_id` may start: 409
/// `recording_busy` when the channel is being recorded, 429
/// `recording_limit` when `active` recordings reach `max`.
pub fn admit_recording(channel_id: &str, busy: bool, active: usize, max: u32) -> (r: Result<(), ApiError>)
    ensures
        busy ==> (r matches Err(e) && e.status == 409 && e.code@ == "recording_busy"@ && e.message@ == "チャンネル "@
            + channel_id@ + " は既に録画中です"@),
        !busy && (active as u32) >= max ==> (r matches Err(e) && e.status == 429 && e.code@ == "recording_limit"@
            && e.message@ == "同時録画の上限 ("@ + decimal(max as nat) + ") に達しています。停止してから再試行してください"@),
        !busy && (active as u32) < max ==> r is Ok,
{
    if busy {
        let mut m = concat_str("チャンネル ", channel_id);
        m.append(" は既に録画中です");
        return Err(ApiError { status: 409, code: "recording_busy", message: m });
    }
    if (active as u32) >= max {
        let mut v: Vec<char> = Vec::new();
        push_str(&mut v, "同時録画の上限 (");
        let d = decimal_exec(max as u64);
        push_all(&mut v, d.as_slice());
        push_str(&mut v, ") に達しています。停止してから再試行してください");
        return Err(ApiError { status: 429, code: "recording_limit", message: string_of(v.as_slice()) });
    }
    Ok(())
}

/// `http://{host}:{port}/stream/{channel_id}.{ext}`.
pub fn upstream_stream_url(host: &str, port: u16, channel_id: &str, ext: &str) -> (r: String)
    ensures
        r@ == "http://"@ + host@ + ":"@ + decimal(port as nat) + "/stream/"@ + channel_id@ + "."@ + ext@,
{
    let mut v: Vec<char> = Vec::new();
    push_str(&mut v, "http://");
    push_str(&mut v, host);
    push_str(&mut v, ":");
    let d = decimal_exec(port as u64);
    push_all(&mut v, d.as_slice());
    push_str(&mut v, "/stream/");
    push_str(&mut v, channel_id);
    push_str(&mut v, ".");
    push_str(&mut v, ext);
    string_of(v.as_slice())
}

// ------------------------------------------------------------ listing order

/// `a` comes before `b` or equals it, character by character (the order
/// of `String`'s `Ord`: by code point, a prefix first).
pub open spec fn lex_le(a: Seq<char>, b: Seq<char>) -> bool
    decreases a.len(),
{
    if a.len() == 0 {
        true
    } else if b.len() == 0 {
        false
    } else if a[0] != b[0] {
        (a[0] as u32) < (b[0] as u32)
    } else {
        lex_le(a.drop_first(), b.drop_first())
    }
}

proof fn lemma_lex_total(a: Seq<char>, b: Seq<char>)
    ensures
        lex_le(a, b) || lex_le(b, a),
    decreases a.len(),
{
    if a.len() > 0 && b.len() > 0 && a[0] == b[0] {
        lemma_lex_total(a.drop_first(), b.drop_first());
    } else if a.len() > 0 && b.len() > 0 {
        if a[0] as u32 == b[0] as u32 {
            crate::text::lemma_char_code(a[0], a[0] as u32);
            crate::text::lemma_char_code(b[0], b[0] as u32);
        }
    }
}

proof fn lemma_lex_trans(a: Seq<char>, b: Seq<char>, c: Seq<char>)
    requires
        lex_le(a, b),
        lex_le(b, c),
    ensures
        lex_le(a, c),
    decreases a.len(),
{
    if a.len() > 0 && b.len() > 0 && c.len() > 0 && a[0] == b[0] && b[0] == c[0] {
        lemma_lex_trans(a.drop_first(), b.drop_first(), c.drop_first());
    }
    if a.len() > 0 && b.len() > 0 && c.len() > 0 {
        assert((a[0] as u32) <= (b[0] as u32));
        assert((b[0] as u32) <= (c[0] as u32));
        if a[0] == c[0] {
            assert(a[0] == b[0]) by {
                crate::text::lemma_char_code(a[0], a[0] as u32);
                crate::text::lemma_char_code(b[0], b[0] as u32);
            }
        }
    }
}

fn lex_le_exec(a: &[char], b: &[char]) -> (r: bool)
    ensures
        r == lex_le(a@, b@),
{
    let mut i: usize = 0;
    assert(a@.subrange(0, a@.len() as int) =~= a@);
    assert(b@.subrange(0, b@.len() as int) =~= b@);
    while i < a.len() && i < b.len() && a[i] == b[i]
        invariant
            i <= a@.len(),
            i <= b@.len(),
            lex_le(a@, b@) == lex_le(a@.subrange(i as int, a@.len() as int), b@.subrange(i as int, b@.len() as int)),
        decreases a@.len() - i,
    {
        assert(a@.subrange(i as int, a@.len() as int).drop_first() =~= a@.subrange(i + 1, a@.len() as int));
        assert(b@.subrange(i as int, b@.len() as int).drop_first() =~= b@.subrange(i + 1, b@.len() as int));
        i += 1;
    }
    if i == a.len() {
        true
    } else if i == b.len() {
        false
    } else {
        (a[i] as u32) < (b[i] as u32)
    }
}

proof fn lemma_lex_refl(a: Seq<char>)
    ensures
        lex_le(a, a),
    decreases a.len(),
{
    if a.len() > 0 {
        lemma_lex_refl(a.drop_first());
    }
}

/// The entries of `v` with channel id `k`, in their order.
pub open spec fn with_id(v: Seq<RecordingEntry>, k: Seq<char>) -> Seq<RecordingEntry>
    decreases v.len(),
{
    if v.len() == 0 {
        Seq::empty()
    } else if v.last().channel_id@ == k {
        with_id(v.drop_last(), k).push(v.last())
    } else {
        with_id(v.drop_last(), k)
    }
}

proof fn lemma_with_id_concat(a: Seq<RecordingEntry>, b: Seq<RecordingEntry>, k: Seq<char>)
    ensures
        with_id(a + b, k) == with_id(a, k) + with_id(b, k),
    decreases b.len(),
{
    if b.len() == 0 {
        assert(a + b =~= a);
        assert(with_id(a, k) + with_id(b, k) =~= with_id(a, k));
    } else {
        assert((a + b).drop_last() =~= a + b.drop_last());
        assert((a + b).last() == b.last());
        lemma_with_id_concat(a, b.drop_last(), k);
        if b.last().channel_id@ == k {
            assert(with_id(a, k) + with_id(b, k) =~= (with_id(a, k) + with_id(b.drop_last(), k)).push(b.last()));
        }
    }
}

proof fn lemma_with_id_none(v: Seq<RecordingEntry>, k: Seq<char>)
    requires
        forall|i: int| 0 <= i < v.len() ==> (#[trigger] v[i]).channel_id@ != k,
    ensures
        with_id(v, k) == Seq::<RecordingEntry>::empty(),
    decreases v.len(),
{
    if v.len() > 0 {
        assert(v.last() == v[v.len() - 1]);
        lemma_with_id_none(v.drop_last(), k);
    }
}

proof fn lemma_with_id_one(x: RecordingEntry, k: Seq<char>)
    ensures
        with_id(seq![x], k) == (if x.channel_id@ == k {
            seq![x]
        } else {
            Seq::<RecordingEntry>::empty()
        }),
{
    let one = seq![x];
    assert(one.len() == 1);
    assert(one.drop_last() =~= Seq::<RecordingEntry>::empty());
    assert(with_id(one.drop_last(), k) == Seq::<RecordingEntry>::empty());
    assert(one.last() == x);
    assert(Seq::<RecordingEntry>::empty().push(x) =~= seq![x]);
}

/// Sorted by channel id.
pub open spec fn sorted_by_id(v: Seq<RecordingEntry>) -> bool {
    forall|i: int, j: int| 0 <= i < j < v.len() ==> lex_le(#[trigger] v[i].channel_id@, #[trigger] v[j].channel_id@)
}

/// The entries sorted by channel id; entries with equal ids keep their
/// order (the entries of each id come out as they went in).
pub fn sort_by_channel_id(entries: Vec<RecordingEntry>) -> (r: Vec<RecordingEntry>)
    ensures
        sorted_by_id(r@),
        r@.to_multiset() == entries@.to_multiset(),
        forall|k: Seq<char>| #[trigger] with_id(r@, k) == with_id(entries@, k),
{
    broadcast use vstd::seq_lib::group_to_multiset_ensures;

    let ghost orig = entries@;
    let mut src = entries;
    let mut out: Vec<RecordingEntry> = Vec::new();
    while src.len() > 0
        invariant
            sorted_by_id(out@),
            out@.to_multiset().add(src@.to_multiset()) == orig.to_multiset(),
            forall|k: Seq<char>| #[trigger] with_id(orig, k) == with_id(out@, k) + with_id(src@, k),
        decreases src@.len(),
    {
        let ghost before_src = src@;
        let x = src.remove(0);
        proof {
            vstd::seq_lib::to_multiset_remove(before_src, 0);
        }
        let xid = chars_of(x.channel_id.as_str());
        let mut p: usize = 0;
        while p < out.len() && lex_le_exec(chars_of(out[p].channel_id.as_str()).as_slice(), xid.as_slice())
            invariant
                p <= out@.len(),
                xid@ == x.channel_id@,
                forall|k: int| 0 <= k < p ==> lex_le(#[trigger] out@[k].channel_id@, x.channel_id@),
            decreases out@.len() - p,
        {
            p += 1;
        }
        let ghost before = out@;
        proof {
            if p < before.len() {
                lemma_lex_total(before[p as int].channel_id@, x.channel_id@);
            }
        }
        out.insert(p, x);
        proof {
            let b0 = before.subrange(0, p as int);
            let b1 = before.subrange(p as int, before.len() as int);
            let rest = src@;
            assert(before =~= b0 + b1);
            assert(out@ =~= b0 + seq![x] + b1);
            assert(before_src =~= seq![x] + rest);
            assert forall|k: Seq<char>| #[trigger] with_id(orig, k) == with_id(out@, k) + with_id(src@, k) by {
                lemma_with_id_concat(b0, b1, k);
                lemma_with_id_concat(b0 + seq![x], b1, k);
                lemma_with_id_concat(b0, seq![x], k);
                lemma_with_id_concat(seq![x], rest, k);
                lemma_with_id_one(x, k);
                assert(with_id(orig, k) == with_id(before, k) + with_id(before_src, k));
                if x.channel_id@ == k {
                    assert forall|i: int| 0 <= i < b1.len() implies (#[trigger] b1[i]).channel_id@ != k by {
                        if b1[i].channel_id@ == k {
                            assert(b1[i] == before[p + i]);
                            if i > 0 {
                                assert(lex_le(before[p as int].channel_id@, before[p + i].channel_id@));
                            } else {
                                lemma_lex_refl(x.channel_id@);
                            }
                        }
                    }
                    lemma_with_id_none(b1, k);
                    assert(with_id(b1, k) + with_id(b1, k) =~= with_id(b1, k));
                    assert(with_id(out@, k) + with_id(src@, k) =~= with_id(b0, k) + seq![x] + with_id(rest, k));
                    assert(with_id(before, k) + with_id(before_src, k) =~= with_id(b0, k) + seq![x] + with_id(rest, k));
                } else {
                    assert(with_id(out@, k) + with_id(src@, k) =~= with_id(b0, k) + with_id(b1, k) + with_id(rest, k));
                    assert(with_id(before, k) + with_id(before_src, k) =~= with_id(b0, k) + with_id(b1, k) + with_id(rest, k));
                }
            }
            vstd::seq_lib::to_multiset_insert(before, p as int, x);
            assert(before_src[0] == x);
            assert(before_src.contains(x));
            vstd::seq_lib::to_multiset_contains(before_src, x);
            assert(before_src.to_multiset().count(x) > 0);
            assert(out@.to_multiset().add(src@.to_multiset()) =~= before.to_multiset().add(before_src.to_multiset()));
            assert forall|i: int, j: int| 0 <= i < j < out@.len() implies lex_le(
                #[trigger] out@[i].channel_id@,
                #[trigger] out@[j].channel_id@,
            ) by {
                if j < p {
                    assert(out@[i] == before[i] && out@[j] == before[j]);
                } else if j == p {
                    assert(out@[i] == before[i]);
                } else if i < p {
                    assert(out@[i] == before[i] && out@[j] == before[j - 1]);
                    lemma_lex_total(before[p as int].channel_id@, x.channel_id@);
                    lemma_lex_trans(before[i].channel_id@, x.channel_id@, before[p as int].channel_id@);
                    if p < j - 1 {
                        lemma_lex_trans(before[i].channel_id@, before[p as int].channel_id@, before[j - 1].channel_id@);
                    }
                } else if i == p {
                    assert(out@[j] == before[j - 1]);
                    if p < j - 1 {
                        lemma_lex_trans(x.channel_id@, before[p as int].channel_id@, before[j - 1].channel_id@);
                    }
                } else {
                    assert(out@[i] == before[i - 1] && out@[j] == before[j - 1]);
                }
            }
        }
    }
    assert forall|k: Seq<char>| #[trigger] with_id(out@, k) == with_id(entries@, k) by {
        assert(src@ =~= Seq::<RecordingEntry>::empty());
        assert(with_id(out@, k) + with_id(src@, k) =~= with_id(out@, k));
    }
    out
}

} // verus!
