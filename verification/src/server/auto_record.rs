//! Automatic recording: which channels a poll starts recording, and the
//! stops that wait out a grace period after a channel is gone.
//!
//! Every poll lists the node's channels. A channel whose first matching
//! favourite rule says `Show` and `auto_record` starts recording (unless it
//! already records). A recording whose channel was not listed gets a stop
//! after the grace period; the stop is called off when the channel comes
//! back before it is due.

use vstd::prelude::*;
use crate::favorites::{FavoriteAction, FavoriteRule, first_match, is_first_match, matches_target};
use crate::peercast::types::ChannelInfo;

verus! {

/// Seconds between polls when the setting is 0.
pub const DEFAULT_POLL_INTERVAL_SEC: u64 = 60;
/// Seconds of grace when the setting is 0.
pub const DEFAULT_STOP_GRACE_SEC: u64 = 30;

/// The poll interval in seconds (0 means the default).
pub fn interval_or_default(v: u64) -> (r: u64)
    ensures
        r == (if v == 0 {
            DEFAULT_POLL_INTERVAL_SEC
        } else {
            v
        }),
{
    if v == 0 {
        DEFAULT_POLL_INTERVAL_SEC
    } else {
        v
    }
}

/// The grace period in seconds (0 means the default).
pub fn grace_or_default(v: u64) -> (r: u64)
    ensures
        r == (if v == 0 {
            DEFAULT_STOP_GRACE_SEC
        } else {
            v
        }),
{
    if v == 0 {
        DEFAULT_STOP_GRACE_SEC
    } else {
        v
    }
}

/// Whether any rule asks for automatic recording (no poll is needed
/// otherwise).
pub fn has_auto_rule(rules: &[FavoriteRule]) -> (r: bool)
    ensures
        r == exists|i: int| 0 <= i < rules@.len() && #[trigger] rules@[i].auto_record,
{
    let mut i: usize = 0;
    while i < rules.len()
        invariant
            i <= rules@.len(),
            forall|k: int| 0 <= k < i ==> !(#[trigger] rules@[k]).auto_record,
        decreases rules@.len() - i,
    {
        if rules[i].auto_record {
            return true;
        }
        i += 1;
    }
    false
}

/// The channel is to be recorded now: it has an id, is not recorded yet,
/// and the first rule that matches it shows it and records it.
pub open spec fn starts_recording(rules: Seq<FavoriteRule>, channel_id: Seq<char>, info: ChannelInfo, recording: bool) -> bool {
    &&& channel_id.len() > 0
    &&& !recording
    &&& exists|i: int|
        is_first_match(rules, info, i) && rules[i].action == FavoriteAction::Show && #[trigger] rules[i].auto_record
}

/// The name a recording started by a poll gets: the channel's name, or its
/// id when the name is empty.
pub open spec fn recording_name(channel_id: Seq<char>, info: ChannelInfo) -> Seq<char> {
    if info.name@.len() == 0 {
        channel_id
    } else {
        info.name@
    }
}

/// A recording started by a poll is named after its channel: the
/// channel's name when it has one, its id otherwise; so the name is never
/// empty for a channel that can be started.
pub proof fn law_recording_named_after_channel(channel_id: Seq<char>, info: ChannelInfo)
    ensures
        info.name@.len() > 0 ==> recording_name(channel_id, info) == info.name@,
        info.name@.len() == 0 ==> recording_name(channel_id, info) == channel_id,
        channel_id.len() > 0 ==> recording_name(channel_id, info).len() > 0,
{
}

/// A poll never starts a channel without an id or one already recorded,
/// and starts any other whose first matching rule shows it and records
/// it automatically; a first match that hides or blocks it, or that does
/// not record, starts nothing.
pub proof fn law_auto_start_conditions(rules: Seq<FavoriteRule>, channel_id: Seq<char>, info: ChannelInfo, recording: bool, i: int)
    requires
        is_first_match(rules, info, i),
    ensures
        recording || channel_id.len() == 0 ==> !starts_recording(rules, channel_id, info, recording),
        !recording && channel_id.len() > 0 && rules[i].action == FavoriteAction::Show && rules[i].auto_record
            ==> starts_recording(rules, channel_id, info, recording),
        !(rules[i].action == FavoriteAction::Show && rules[i].auto_record) ==> !starts_recording(
            rules,
            channel_id,
            info,
            recording,
        ),
{
    assert forall|k: int| is_first_match(rules, info, k) implies k == i by {
        if k < i {
            assert(!matches_target(rules[k]@, info));
        }
        if i < k {
            assert(!matches_target(rules[i]@, info));
        }
    }
}

/// What a poll does with a listed channel: the name to record it under,
/// or nothing.
pub fn auto_record_start(rules: &[FavoriteRule], channel_id: &str, info: &ChannelInfo, recording: bool) -> (r: Option<String>)
    ensures
        match r {
            Some(name) => starts_recording(rules@, channel_id@, *info, recording) && name@ == recording_name(
                channel_id@,
                *info,
            ),
            None => !starts_recording(rules@, channel_id@, *info, recording),
        },
{
    if channel_id.unicode_len() == 0 || recording {
        return None;
    }
    match first_match(rules, info) {
        None => {
            assert forall|i: int| is_first_match(rules@, *info, i) implies !(rules@[i].action
                == FavoriteAction::Show && #[trigger] rules@[i].auto_record) by {
                assert(!matches_target(rules@[i]@, *info));
            }
            None
        },
        Some(rule) => {
            let ghost i = choose|i: int| is_first_match(rules@, *info, i) && *rule == rules@[i];
            proof {
                assert forall|k: int| is_first_match(rules@, *info, k) implies k == i by {
                    if k < i {
                        assert(!matches_target(rules@[k]@, *info));
                    }
                    if i < k {
                        assert(!matches_target(rules@[i]@, *info));
                    }
                }
            }
            let shows = match rule.action {
                FavoriteAction::Show => true,
                _ => false,
            };
            if !shows || !rule.auto_record {
                assert(!(rules@[i].action == FavoriteAction::Show && rules@[i].auto_record));
                assert forall|k: int| is_first_match(rules@, *info, k) implies !(rules@[k].action
                    == FavoriteAction::Show && #[trigger] rules@[k].auto_record) by {}
                return None;
            }
            assert(is_first_match(rules@, *info, i) && rules@[i].action == FavoriteAction::Show
                && rules@[i].auto_record);
            if info.name.as_str().unicode_len() == 0 {
                Some(String::from_str(channel_id))
            } else {
                Some(info.name.clone())
            }
        },
    }
}

// ------------------------------------------------------------ pending stops

/// The pending stops with their deadlines (in whatever clock the caller
/// keeps), in the order they were scheduled.
pub open spec fn stops_view(v: Seq<(String, u64)>) -> Seq<(Seq<char>, u64)> {
    v.map_values(|e: (String, u64)| (e.0@, e.1))
}

/// `s` without the entries of `id`.
pub open spec fn without_id(s: Seq<(Seq<char>, u64)>, id: Seq<char>) -> Seq<(Seq<char>, u64)>
    decreases s.len(),
{
    if s.len() == 0 {
        s
    } else {
        let a = without_id(s.drop_last(), id);
        if s.last().0 != id {
            a.push(s.last())
        } else {
            a
        }
    }
}

/// The entries of `s` that are not due at `now`.
pub open spec fn not_due(s: Seq<(Seq<char>, u64)>, now: u64) -> Seq<(Seq<char>, u64)>
    decreases s.len(),
{
    if s.len() == 0 {
        s
    } else {
        let a = not_due(s.drop_last(), now);
        if s.last().1 > now {
            a.push(s.last())
        } else {
            a
        }
    }
}

/// The ids of the entries of `s` that are due at `now`.
pub open spec fn due_ids(s: Seq<(Seq<char>, u64)>, now: u64) -> Seq<Seq<char>>
    decreases s.len(),
{
    if s.len() == 0 {
        Seq::empty()
    } else {
        let a = due_ids(s.drop_last(), now);
        if s.last().1 <= now {
            a.push(s.last().0)
        } else {
            a
        }
    }
}

pub open spec fn has_id(s: Seq<(Seq<char>, u64)>, id: Seq<char>) -> bool {
    exists|i: int| 0 <= i < s.len() && (#[trigger] s[i]).0 == id
}

/// `s` with a stop for `id` at `deadline`, unless one is pending already.
pub open spec fn schedule_one(s: Seq<(Seq<char>, u64)>, id: Seq<char>, deadline: u64) -> Seq<(Seq<char>, u64)> {
    if has_id(s, id) {
        s
    } else {
        s.push((id, deadline))
    }
}

/// Stops for the recordings (from `i` on) whose channel was not seen.
pub open spec fn schedule_from(
    s: Seq<(Seq<char>, u64)>,
    recording: Seq<Seq<char>>,
    seen: Seq<Seq<char>>,
    deadline: u64,
    i: int,
) -> Seq<(Seq<char>, u64)>
    decreases recording.len() - i,
{
    if i < 0 || i >= recording.len() {
        s
    } else if seen.contains(recording[i]) {
        schedule_from(s, recording, seen, deadline, i + 1)
    } else {
        schedule_from(schedule_one(s, recording[i], deadline), recording, seen, deadline, i + 1)
    }
}

/// `now + grace_secs` seconds, in milliseconds, held at `u64::MAX`.
pub open spec fn sat_deadline(now: u64, grace_secs: u64) -> u64 {
    if now + grace_secs * 1000 > u64::MAX {
        u64::MAX
    } else {
        (now + grace_secs * 1000) as u64
    }
}

/// The stops waiting out their grace period.
#[derive(Debug, Clone)]
pub struct PendingStops {
    entries: Vec<(String, u64)>,
}

pub open spec fn strings_view(v: Seq<String>) -> Seq<Seq<char>> {
    v.map_values(|s: String| s@)
}

fn same_chars(a: &str, b: &str) -> (r: bool)
    ensures
        r == (a@ == b@),
{
    let x = crate::text::chars_of(a);
    crate::text::eq_str_exec(x.as_slice(), b)
}

impl PendingStops {
    pub closed spec fn view_stops(&self) -> Seq<(Seq<char>, u64)> {
        stops_view(self.entries@)
    }

    pub fn new() -> (r: PendingStops)
        ensures
            r.view_stops().len() == 0,
    {
        PendingStops { entries: Vec::new() }
    }

    /// Calls off the stop of `id` (its channel is back).
    pub fn cancel(&mut self, id: &str)
        ensures
            final(self).view_stops() == without_id(old(self).view_stops(), id@),
    {
        let ghost s = stops_view(self.entries@);
        let mut kept: Vec<(String, u64)> = Vec::new();
        let mut i: usize = 0;
        while i < self.entries.len()
            invariant
                i <= self.entries@.len(),
                s == stops_view(self.entries@),
                stops_view(kept@) == without_id(s.take(i as int), id@),
            decreases self.entries@.len() - i,
        {
            let e = &self.entries[i];
            proof {
                assert(s.take(i + 1).drop_last() =~= s.take(i as int));
                assert(s.take(i + 1).last() == (e.0@, e.1));
            }
            if !same_chars(e.0.as_str(), id) {
                let ghost before = kept@;
                kept.push((e.0.clone(), e.1));
                assert(stops_view(kept@) =~= stops_view(before).push((e.0@, e.1)));
            }
            i += 1;
        }
        assert(s.take(s.len() as int) =~= s);
        self.entries = kept;
    }

    fn contains_id(&self, id: &str) -> (r: bool)
        ensures
            r == has_id(self.view_stops(), id@),
    {
        let ghost s = stops_view(self.entries@);
        let mut i: usize = 0;
        while i < self.entries.len()
            invariant
                i <= self.entries@.len(),
                s == stops_view(self.entries@),
                forall|k: int| 0 <= k < i ==> (#[trigger] s[k]).0 != id@,
            decreases self.entries@.len() - i,
        {
            if same_chars(self.entries[i].0.as_str(), id) {
                assert(s[i as int].0 == id@);
                return true;
            }
            i += 1;
        }
        false
    }

    /// Schedules a stop at `deadline` for every recording whose channel was
    /// not seen in this poll; a stop already pending keeps its deadline.
    pub fn schedule_missing(&mut self, recording: &[String], seen: &[String], deadline: u64)
        ensures
            final(self).view_stops() == schedule_from(
                old(self).view_stops(),
                strings_view(recording@),
                strings_view(seen@),
                deadline,
                0,
            ),
    {
        let ghost rv = strings_view(recording@);
        let ghost sv = strings_view(seen@);
        let mut i: usize = 0;
        while i < recording.len()
            invariant
                i <= recording@.len(),
                rv == strings_view(recording@),
                sv == strings_view(seen@),
                schedule_from(old(self).view_stops(), rv, sv, deadline, 0) == schedule_from(
                    self.view_stops(),
                    rv,
                    sv,
                    deadline,
                    i as int,
                ),
            decreases recording@.len() - i,
        {
            let id = &recording[i];
            assert(rv[i as int] == id@);
            let mut in_seen = false;
            let mut k: usize = 0;
            while k < seen.len()
                invariant
                    k <= seen@.len(),
                    sv == strings_view(seen@),
                    in_seen == exists|j: int| 0 <= j < k && sv[j] == id@,
                decreases seen@.len() - k,
            {
                assert(sv[k as int] == seen@[k as int]@);
                if same_chars(seen[k].as_str(), id.as_str()) {
                    in_seen = true;
                }
                k += 1;
            }
            assert(in_seen == sv.contains(id@));
            if !in_seen {
                if !self.contains_id(id.as_str()) {
                    let ghost before = self.entries@;
                    self.entries.push((id.clone(), deadline));
                    assert(stops_view(self.entries@) =~= stops_view(before).push((id@, deadline)));
                }
            }
            i += 1;
        }
    }

    /// One poll's scheduling at time `now` (milliseconds): every recording
    /// whose channel was not seen gets a stop `grace_secs` seconds later
    /// (the grace of [`grace_or_default`]), unless one is pending already;
    /// so a recording is stopped only after staying absent for the grace.
    pub fn schedule_missing_at(&mut self, recording: &[String], seen: &[String], now: u64, grace_secs: u64)
        ensures
            final(self).view_stops() == schedule_from(
                old(self).view_stops(),
                strings_view(recording@),
                strings_view(seen@),
                sat_deadline(now, grace_secs),
                0,
            ),
    {
        let ms: u64 = if grace_secs <= u64::MAX / 1000 {
            assert(grace_secs * 1000 <= u64::MAX) by (nonlinear_arith)
                requires
                    grace_secs <= u64::MAX / 1000,
            ;
            grace_secs * 1000
        } else {
            assert(grace_secs * 1000 > u64::MAX) by (nonlinear_arith)
                requires
                    grace_secs > u64::MAX / 1000,
            ;
            u64::MAX
        };
        let deadline = now.saturating_add(ms);
        self.schedule_missing(recording, seen, deadline);
    }

    /// Removes the stops that are due at `now` and gives their ids, in the
    /// order they were scheduled.
    pub fn take_expired(&mut self, now: u64) -> (r: Vec<String>)
        ensures
            strings_view(r@) == due_ids(old(self).view_stops(), now),
            final(self).view_stops() == not_due(old(self).view_stops(), now),
    {
        let ghost s = stops_view(self.entries@);
        let mut kept: Vec<(String, u64)> = Vec::new();
        let mut due: Vec<String> = Vec::new();
        let mut i: usize = 0;
        while i < self.entries.len()
            invariant
                i <= self.entries@.len(),
                s == stops_view(self.entries@),
                stops_view(kept@) == not_due(s.take(i as int), now),
                strings_view(due@) == due_ids(s.take(i as int), now),
            decreases self.entries@.len() - i,
        {
            let e = &self.entries[i];
            proof {
                assert(s.take(i + 1).drop_last() =~= s.take(i as int));
                assert(s.take(i + 1).last() == (e.0@, e.1));
            }
            if e.1 > now {
                let ghost before = kept@;
                kept.push((e.0.clone(), e.1));
                assert(stops_view(kept@) =~= stops_view(before).push((e.0@, e.1)));
            } else {
                let ghost before = due@;
                due.push(e.0.clone());
                assert(strings_view(due@) =~= strings_view(before).push(e.0@));
            }
            i += 1;
        }
        assert(s.take(s.len() as int) =~= s);
        self.entries = kept;
        due
    }
}

proof fn lemma_not_due_later(s: Seq<(Seq<char>, u64)>, now: u64)
    ensures
        forall|i: int| 0 <= i < not_due(s, now).len() ==> (#[trigger] not_due(s, now)[i]).1 > now,
    decreases s.len(),
{
    if s.len() > 0 {
        lemma_not_due_later(s.drop_last(), now);
        let a = not_due(s.drop_last(), now);
        if s.last().1 > now {
            assert forall|i: int| 0 <= i < a.push(s.last()).len() implies (#[trigger] a.push(s.last())[i]).1 > now by {
                if i < a.len() {
                    assert(a.push(s.last())[i] == a[i]);
                }
            }
        }
    }
}

proof fn lemma_without_id(s: Seq<(Seq<char>, u64)>, id: Seq<char>)
    ensures
        !has_id(without_id(s, id), id),
    decreases s.len(),
{
    if s.len() > 0 {
        lemma_without_id(s.drop_last(), id);
        let a = without_id(s.drop_last(), id);
        if s.last().0 != id {
            assert forall|i: int| 0 <= i < a.push(s.last()).len() implies (#[trigger] a.push(s.last())[i]).0 != id by {
                if i < a.len() {
                    assert(a.push(s.last())[i] == a[i]);
                }
            }
        }
    }
}

/// After the due stops are taken, no pending stop is due.
pub proof fn law_nothing_due_after_take(s: Seq<(Seq<char>, u64)>, now: u64)
    ensures
        forall|i: int| 0 <= i < not_due(s, now).len() ==> (#[trigger] not_due(s, now)[i]).1 > now,
{
    lemma_not_due_later(s, now);
}

/// A channel that is seen again has no pending stop.
pub proof fn law_cancel_clears(s: Seq<(Seq<char>, u64)>, id: Seq<char>)
    ensures
        !has_id(without_id(s, id), id),
{
    lemma_without_id(s, id);
}

} // verus!
