//! Deciding whether a resource has to be rebuilt: the newest modification
//! time seen for it is remembered, and a build is due when a file is newer.

use vstd::prelude::*;
use crate::text::{concat3, str_equals};
use crate::json::{Json, parse_json, json_of};

verus! {

/// The remembered time and the verdict after looking at the modification
/// times in order: a time replaces the remembered one when nothing is
/// remembered or it is later, and each replacement means a rebuild.
pub open spec fn later_fold(stored: Option<u64>, times: Seq<u64>) -> (Option<u64>, bool)
    decreases times.len(),
{
    if times.len() == 0 {
        (stored, false)
    } else {
        let (s, r) = later_fold(stored, times.drop_last());
        let t = times.last();
        if s is None || t > s->0 {
            (Some(t), true)
        } else {
            (s, r)
        }
    }
}

/// What checking a resource's files gives: with no files a rebuild is always
/// due and nothing is remembered anew; otherwise see `later_fold`.
pub open spec fn spec_later(stored: Option<u64>, times: Seq<u64>) -> (Option<u64>, bool) {
    if times.len() == 0 { (stored, true) } else { later_fold(stored, times) }
}

/// Checks the modification times (in seconds) of a resource's files
/// against the time remembered for it: the new time to remember, and
/// whether the resource has to be rebuilt.
pub fn are_any_of_these_later(stored: Option<u64>, times: &Vec<u64>) -> (r: (Option<u64>, bool))
    ensures
        r == spec_later(stored, times@),
{
    if times.len() == 0 {
        return (stored, true);
    }
    let mut s = stored;
    let mut res = false;
    let mut i: usize = 0;
    while i < times.len()
        invariant
            i <= times@.len(),
            (s, res) == later_fold(stored, times@.take(i as int)),
        decreases times@.len() - i,
    {
        proof {
            assert(times@.take(i + 1).drop_last() =~= times@.take(i as int));
            assert(times@.take(i + 1).last() == times@[i as int]);
        }
        let t = times[i];
        let later = match s {
            None => true,
            Some(v) => t > v,
        };
        if later {
            s = Some(t);
            res = true;
        }
        i = i + 1;
    }
    proof { assert(times@.take(times@.len() as int) =~= times@); }
    (s, res)
}

/// After the fold, a time is remembered and it is at least every time seen.
proof fn lemma_fold_covers(stored: Option<u64>, times: Seq<u64>)
    requires
        times.len() > 0,
    ensures
        later_fold(stored, times).0 is Some,
        forall|i: int| 0 <= i < times.len() ==> times[i] <= later_fold(stored, times).0->0,
        stored matches Some(v) ==> v <= later_fold(stored, times).0->0,
    decreases times.len(),
{
    let d = times.drop_last();
    if d.len() > 0 {
        lemma_fold_covers(stored, d);
        assert forall|i: int| 0 <= i < times.len() implies times[i] <= later_fold(stored, times).0->0 by {
            if i < d.len() {
                assert(times[i] == d[i]);
            }
        }
    } else {
        assert(later_fold(stored, d) == (stored, false));
    }
}

/// Folding times that are none of them later than the remembered one
/// changes nothing and calls for no rebuild.
proof fn lemma_fold_quiet(v: u64, times: Seq<u64>)
    requires
        forall|i: int| 0 <= i < times.len() ==> times[i] <= v,
    ensures
        later_fold(Some(v), times) == (Some(v), false),
    decreases times.len(),
{
    if times.len() > 0 {
        let d = times.drop_last();
        assert forall|i: int| 0 <= i < d.len() implies d[i] <= v by {
            assert(d[i] == times[i]);
        }
        lemma_fold_quiet(v, d);
    }
}

/// Checking the same files twice with nothing changed in between: the
/// second check calls for no rebuild and remembers the same time.
pub proof fn lemma_second_check_is_quiet(stored: Option<u64>, times: Seq<u64>)
    requires
        times.len() > 0,
    ensures
        spec_later(spec_later(stored, times).0, times) == (spec_later(stored, times).0, false),
{
    lemma_fold_covers(stored, times);
    let v = later_fold(stored, times).0->0;
    lemma_fold_quiet(v, times);
}

/// A file newer than anything remembered always calls for a rebuild, and
/// is remembered.
pub proof fn lemma_newer_file_rebuilds(stored: Option<u64>, times: Seq<u64>, t: u64)
    requires
        times.len() > 0,
        forall|i: int| 0 <= i < times.len() ==> times[i] <= t,
        stored matches Some(v) ==> v < t,
        times.contains(t),
    ensures
        spec_later(stored, times).1,
        spec_later(stored, times).0 == Some(t),
{
    lemma_fold_covers(stored, times);
    lemma_fold_finds_max(stored, times, t);
}

proof fn lemma_fold_finds_max(stored: Option<u64>, times: Seq<u64>, t: u64)
    requires
        forall|i: int| 0 <= i < times.len() ==> times[i] <= t,
        stored matches Some(v) ==> v < t,
        times.contains(t),
    ensures
        later_fold(stored, times) == (Some(t), true),
    decreases times.len(),
{
    let d = times.drop_last();
    if times.last() == t {
        assert forall|i: int| 0 <= i < d.len() implies d[i] <= t by {
            assert(d[i] == times[i]);
        }
        lemma_fold_bounded(stored, d, t);
        lemma_fold_changed(stored, d);
    } else {
        let k = choose|k: int| 0 <= k < times.len() && times[k] == t;
        assert(k < d.len());
        assert(d[k] == t);
        assert forall|i: int| 0 <= i < d.len() implies d[i] <= t by {
            assert(d[i] == times[i]);
        }
        lemma_fold_finds_max(stored, d, t);
    }
}

/// Once the remembered time changes, a rebuild is called for.
proof fn lemma_fold_changed(stored: Option<u64>, times: Seq<u64>)
    ensures
        later_fold(stored, times).0 != stored ==> later_fold(stored, times).1,
    decreases times.len(),
{
    if times.len() > 0 {
        lemma_fold_changed(stored, times.drop_last());
    }
}

/// Times no later than `t`, from a remembered time before `t`, leave the
/// remembered time at most `t`.
proof fn lemma_fold_bounded(stored: Option<u64>, times: Seq<u64>, t: u64)
    requires
        forall|i: int| 0 <= i < times.len() ==> times[i] <= t,
        stored matches Some(v) ==> v < t,
    ensures
        later_fold(stored, times).0 matches Some(v) ==> v <= t,
    decreases times.len(),
{
    if times.len() > 0 {
        let d = times.drop_last();
        assert forall|i: int| 0 <= i < d.len() implies d[i] <= t by {
            assert(d[i] == times[i]);
        }
        lemma_fold_bounded(stored, d, t);
    }
}

/// The key under which the settings a font was last built with are kept:
/// the font's key and `_json`.
pub fn settings_key(key: &str) -> (r: String)
    ensures
        r@ == key@ + "_json"@,
{
    proof { reveal_strlit(""); }
    let r = concat3(key, "_json", "");
    assert(r@ =~= key@ + "_json"@);
    r
}

/// Whether a font has to be built again: its file exists, and either no
/// settings are kept for it (`same` is `None`), the kept settings differ
/// from the current ones (`Some(false)`), no time is kept for it, or the
/// file is newer than the kept time.
pub open spec fn spec_settings_or_file_changed(file_exists: bool, same: Option<bool>, stored: Option<u64>, modified: u64) -> bool {
    file_exists && match same {
        None => true,
        Some(s) => !s || stored is None || modified > stored->0,
    }
}

/// Whether a font has to be built again (see
/// `spec_settings_or_file_changed`); when it does, the current settings and
/// the file's modification time (in seconds) are the ones to keep.
pub fn check_json_different_or_file_later(file_exists: bool, same: Option<bool>, stored: Option<u64>, modified: u64) -> (r: bool)
    ensures
        r == spec_settings_or_file_changed(file_exists, same, stored, modified),
{
    if !file_exists {
        return false;
    }
    match same {
        None => true,
        Some(false) => true,
        Some(true) => match stored {
            None => true,
            Some(t) => modified > t,
        },
    }
}

/// What is kept of a font's last build: its settings (as their JSON text)
/// and its file's modification time in seconds, each if recorded.
pub struct SettingsRecord {
    pub settings: Option<String>,
    pub time: Option<u64>,
}

/// The kept settings' text, if any.
pub open spec fn kept_settings(k: SettingsRecord) -> Option<Seq<char>> {
    match k.settings {
        Some(s) => Some(s@),
        None => None,
    }
}

/// The check of a font against what was kept of its last build: whether it
/// has to be built again (see `spec_settings_or_file_changed`, the kept and
/// current settings compared by their text), and what is kept afterwards:
/// the current settings and the file's time when it does, what was kept
/// before when it does not.
pub open spec fn spec_settings_check(file_exists: bool, kept: (Option<Seq<char>>, Option<u64>), current: Seq<char>, modified: u64)
    -> (bool, (Option<Seq<char>>, Option<u64>))
{
    let same = match kept.0 {
        Some(s) => Some(s == current),
        None => None,
    };
    let rebuild = spec_settings_or_file_changed(file_exists, same, kept.1, modified);
    (rebuild, if rebuild { (Some(current), Some(modified)) } else { kept })
}

/// Checks a font against what was kept of its last build and updates the
/// record (see `spec_settings_check`).
pub fn settings_check(file_exists: bool, kept: SettingsRecord, current: String, modified: u64) -> (r: (bool, SettingsRecord))
    ensures
        ({
            let want = spec_settings_check(file_exists, (kept_settings(kept), kept.time), current@, modified);
            &&& r.0 == want.0
            &&& (kept_settings(r.1), r.1.time) == want.1
        }),
{
    let same = match &kept.settings {
        Some(s) => Some(str_equals(s.as_str(), current.as_str())),
        None => None,
    };
    let rebuild = check_json_different_or_file_later(file_exists, same, kept.time, modified);
    if rebuild {
        (true, SettingsRecord { settings: Some(current), time: Some(modified) })
    } else {
        (false, kept)
    }
}

/// Checking a font a second time right after a check, with the same file,
/// time and settings, calls for no build: a check that calls for one keeps
/// the settings and time it saw.
pub proof fn lemma_settings_check_twice_is_quiet(file_exists: bool, kept: (Option<Seq<char>>, Option<u64>), current: Seq<char>, modified: u64)
    ensures
        !spec_settings_check(file_exists, spec_settings_check(file_exists, kept, current, modified).1, current, modified).0,
{
}

/// Once a font has been built and its settings and time kept, checking it
/// again with nothing changed calls for no build.
pub proof fn lemma_settings_check_is_quiet(modified: u64)
    ensures
        !spec_settings_or_file_changed(true, Some(true), Some(modified), modified),
{
}

/// What a package's cache file keeps: the newest modification time seen
/// per resource (in seconds) and the settings a font was last built with.
pub struct CacheData {
    pub times: Vec<(String, u64)>,
    pub settings: Vec<(String, Json)>,
}

/// The members of the cache file that are modification times: those whose
/// value is a whole number from 0 to `u64::MAX`, in order.
pub open spec fn cache_times(ms: Seq<(String, Json)>) -> Seq<(Seq<char>, u64)>
    decreases ms.len(),
{
    if ms.len() == 0 {
        Seq::empty()
    } else {
        cache_times(ms.drop_last()) + match ms.last().1 {
            Json::Number(Some(n)) => seq![(ms.last().0@, n)],
            _ => Seq::empty(),
        }
    }
}

/// The members of the cache file that are settings: those whose value is
/// an object, in order.
pub open spec fn cache_settings(ms: Seq<(String, Json)>) -> Seq<(Seq<char>, Json)>
    decreases ms.len(),
{
    if ms.len() == 0 {
        Seq::empty()
    } else {
        cache_settings(ms.drop_last()) + match ms.last().1 {
            Json::Object(_) => seq![(ms.last().0@, ms.last().1)],
            _ => Seq::empty(),
        }
    }
}

/// The names and times kept.
pub open spec fn times_view(v: Seq<(String, u64)>) -> Seq<(Seq<char>, u64)> {
    v.map_values(|p: (String, u64)| (p.0@, p.1))
}

/// The names and settings kept.
pub open spec fn settings_view(v: Seq<(String, Json)>) -> Seq<(Seq<char>, Json)> {
    v.map_values(|p: (String, Json)| (p.0@, p.1))
}

/// Splits the cache file's object into times and settings (see
/// `cache_times` and `cache_settings`); other members are dropped.
pub fn read_cache_data(json: Json) -> (c: CacheData)
    requires
        json is Object,
    ensures
        times_view(c.times@) == cache_times(json->Object_0@),
        settings_view(c.settings@) == cache_settings(json->Object_0@),
{
    let ms = match json {
        Json::Object(ms) => ms,
        _ => Vec::new(),
    };
    let ghost all = ms@;
    let mut rest = ms;
    let mut times: Vec<(String, u64)> = Vec::new();
    let mut settings: Vec<(String, Json)> = Vec::new();
    let ghost mut c: int = 0;
    while rest.len() > 0
        invariant
            0 <= c <= all.len(),
            rest@ == all.skip(c),
            times_view(times@) == cache_times(all.take(c)),
            settings_view(settings@) == cache_settings(all.take(c)),
        decreases rest.len(),
    {
        let (k, v) = rest.remove(0);
        proof {
            assert(all.take(c + 1).drop_last() =~= all.take(c));
            assert(all.take(c + 1).last() == (k, v));
        }
        let ghost tv = times@;
        let ghost sv = settings@;
        match v {
            Json::Number(Some(n)) => {
                times.push((k, n));
                proof { assert(times_view(times@) =~= times_view(tv).push((k@, n))); }
            },
            Json::Object(o) => {
                settings.push((k, Json::Object(o)));
                proof { assert(settings_view(settings@) =~= settings_view(sv).push((k@, v))); }
            },
            _ => {},
        }
        proof {
            c = c + 1;
            assert(rest@ =~= all.skip(c));
            assert(times_view(times@) =~= cache_times(all.take(c)));
            assert(settings_view(settings@) =~= cache_settings(all.take(c)));
        }
    }
    proof { assert(all.take(c) =~= all); }
    CacheData { times, settings }
}

/// The cache file's members for what is kept: each time as a number, then
/// each setting, in order.
pub open spec fn cache_members(times: Seq<(String, u64)>, settings: Seq<(String, Json)>) -> Seq<(String, Json)> {
    times.map_values(|p: (String, u64)| (p.0, Json::Number(Some(p.1)))) + settings
}

/// The cache file's object for what is kept (see `cache_members`).
pub fn cache_data_json(c: CacheData) -> (r: Json)
    ensures
        r matches Json::Object(ms) && ms@ == cache_members(c.times@, c.settings@),
{
    let ghost ts = c.times@;
    let ghost ss = c.settings@;
    let mut rest = c.times;
    let mut ms: Vec<(String, Json)> = Vec::new();
    let ghost mut i: int = 0;
    while rest.len() > 0
        invariant
            0 <= i <= ts.len(),
            rest@ == ts.skip(i),
            ms@ == ts.take(i).map_values(|p: (String, u64)| (p.0, Json::Number(Some(p.1)))),
        decreases rest.len(),
    {
        let (k, n) = rest.remove(0);
        proof {
            assert(ts.take(i + 1) =~= ts.take(i).push((k, n)));
        }
        ms.push((k, Json::Number(Some(n))));
        proof {
            i = i + 1;
            assert(rest@ =~= ts.skip(i));
            assert(ms@ =~= ts.take(i).map_values(|p: (String, u64)| (p.0, Json::Number(Some(p.1)))));
        }
    }
    proof { assert(ts.take(i) =~= ts); }
    let mut settings = c.settings;
    ms.append(&mut settings);
    proof { assert(ms@ =~= cache_members(ts, ss)); }
    Json::Object(ms)
}

proof fn lemma_times_concat(a: Seq<(String, Json)>, b: Seq<(String, Json)>)
    ensures
        cache_times(a + b) == cache_times(a) + cache_times(b),
        cache_settings(a + b) == cache_settings(a) + cache_settings(b),
    decreases b.len(),
{
    if b.len() == 0 {
        assert(a + b =~= a);
        assert(cache_times(a) + cache_times(b) =~= cache_times(a));
        assert(cache_settings(a) + cache_settings(b) =~= cache_settings(a));
    } else {
        lemma_times_concat(a, b.drop_last());
        assert((a + b).drop_last() =~= a + b.drop_last());
        assert((a + b).last() == b.last());
        assert(cache_times(a + b) =~= cache_times(a) + cache_times(b));
        assert(cache_settings(a + b) =~= cache_settings(a) + cache_settings(b));
    }
}

proof fn lemma_numbers_read_back(ts: Seq<(String, u64)>)
    ensures
        cache_times(ts.map_values(|p: (String, u64)| (p.0, Json::Number(Some(p.1))))) == times_view(ts),
        cache_settings(ts.map_values(|p: (String, u64)| (p.0, Json::Number(Some(p.1))))) == Seq::<(Seq<char>, Json)>::empty(),
    decreases ts.len(),
{
    let f = |p: (String, u64)| (p.0, Json::Number(Some(p.1)));
    if ts.len() > 0 {
        lemma_numbers_read_back(ts.drop_last());
        assert(ts.map_values(f).drop_last() =~= ts.drop_last().map_values(f));
        assert(times_view(ts) =~= times_view(ts.drop_last()).push((ts.last().0@, ts.last().1)));
        assert(cache_settings(ts.map_values(f)) =~= Seq::<(Seq<char>, Json)>::empty());
    } else {
        assert(ts.map_values(f) =~= Seq::<(String, Json)>::empty());
        assert(times_view(ts) =~= Seq::<(Seq<char>, u64)>::empty());
    }
}

proof fn lemma_objects_read_back(ss: Seq<(String, Json)>)
    requires
        forall|i: int| 0 <= i < ss.len() ==> (#[trigger] ss[i]).1 is Object,
    ensures
        cache_times(ss) == Seq::<(Seq<char>, u64)>::empty(),
        cache_settings(ss) == settings_view(ss),
    decreases ss.len(),
{
    if ss.len() > 0 {
        let d = ss.drop_last();
        assert forall|i: int| 0 <= i < d.len() implies (#[trigger] d[i]).1 is Object by {
            assert(d[i] == ss[i]);
        }
        lemma_objects_read_back(d);
        assert(ss[ss.len() - 1].1 is Object);
        assert(settings_view(ss) =~= settings_view(d).push((ss.last().0@, ss.last().1)));
        assert(cache_times(ss) =~= Seq::<(Seq<char>, u64)>::empty());
    } else {
        assert(settings_view(ss) =~= Seq::<(Seq<char>, Json)>::empty());
    }
}

/// Reading back a written cache file gives what was kept: the members that
/// `cache_data_json` writes split, as `read_cache_data` splits them, into
/// the same times and the same settings, when every kept setting is an
/// object (as the settings of a font are).
pub proof fn lemma_cache_data_round_trip(times: Seq<(String, u64)>, settings: Seq<(String, Json)>)
    requires
        forall|i: int| 0 <= i < settings.len() ==> (#[trigger] settings[i]).1 is Object,
    ensures
        cache_times(cache_members(times, settings)) == times_view(times),
        cache_settings(cache_members(times, settings)) == settings_view(settings),
{
    let nums = times.map_values(|p: (String, u64)| (p.0, Json::Number(Some(p.1))));
    lemma_times_concat(nums, settings);
    lemma_numbers_read_back(times);
    lemma_objects_read_back(settings);
    assert(times_view(times) + Seq::<(Seq<char>, u64)>::empty() =~= times_view(times));
    assert(Seq::<(Seq<char>, Json)>::empty() + settings_view(settings) =~= settings_view(settings));
}

/// Why a cache file could not be read.
#[derive(PartialEq, Eq, Structural, Clone, Copy, Debug)]
pub enum CacheFileError {
    /// The text is not JSON.
    NotJson,
    /// The JSON is not an object.
    NotObject,
}

/// What a cache file's text keeps (see `read_cache_data`).
pub fn cache_data_from_text(text: &str) -> (r: Result<CacheData, CacheFileError>)
    ensures
        match json_of(text@) {
            None => r == Err::<CacheData, CacheFileError>(CacheFileError::NotJson),
            Some(Json::Object(ms)) => r matches Ok(c) && times_view(c.times@) == cache_times(ms@)
                && settings_view(c.settings@) == cache_settings(ms@),
            Some(_) => r == Err::<CacheData, CacheFileError>(CacheFileError::NotObject),
        },
{
    match parse_json(text) {
        None => Err(CacheFileError::NotJson),
        Some(j) => {
            if let Json::Object(_) = &j {
                Ok(read_cache_data(j))
            } else {
                Err(CacheFileError::NotObject)
            }
        },
    }
}

/// The time kept for the resource `name`: that of the first entry with the
/// name, if any.
pub open spec fn kept_time(times: Seq<(Seq<char>, u64)>, name: Seq<char>) -> Option<u64>
    decreases times.len(),
{
    if times.len() == 0 {
        None
    } else if times[0].0 == name {
        Some(times[0].1)
    } else {
        kept_time(times.skip(1), name)
    }
}

proof fn lemma_kept_time_at(times: Seq<(Seq<char>, u64)>, name: Seq<char>, i: int)
    requires
        0 <= i < times.len(),
        times[i].0 == name,
        forall|j: int| 0 <= j < i ==> times[j].0 != name,
    ensures
        kept_time(times, name) == Some(times[i].1),
    decreases i,
{
    if i > 0 {
        let t = times.skip(1);
        assert forall|j: int| 0 <= j < i - 1 implies t[j].0 != name by {
            assert(t[j] == times[j + 1]);
        }
        lemma_kept_time_at(t, name, i - 1);
    }
}

proof fn lemma_kept_time_none(times: Seq<(Seq<char>, u64)>, name: Seq<char>)
    requires
        forall|j: int| 0 <= j < times.len() ==> times[j].0 != name,
    ensures
        kept_time(times, name) is None,
    decreases times.len(),
{
    if times.len() > 0 {
        let t = times.skip(1);
        assert forall|j: int| 0 <= j < t.len() implies t[j].0 != name by {
            assert(t[j] == times[j + 1]);
        }
        lemma_kept_time_none(t, name);
    }
}

/// Whether kept time `other` reads the same in two lists.
proof fn lemma_kept_time_same(a: Seq<(Seq<char>, u64)>, b: Seq<(Seq<char>, u64)>, other: Seq<char>)
    requires
        a.len() <= b.len(),
        forall|j: int| 0 <= j < a.len() ==> (#[trigger] a[j].0 == other) ==> b[j] == a[j],
        forall|j: int| 0 <= j < a.len() ==> (a[j].0 == other <==> #[trigger] b[j].0 == other),
        forall|j: int| a.len() <= j < b.len() ==> #[trigger] b[j].0 != other,
    ensures
        kept_time(b, other) == kept_time(a, other),
    decreases a.len(),
{
    if a.len() == 0 {
        lemma_kept_time_none(b, other);
    } else {
        let a1 = a.skip(1);
        let b1 = b.skip(1);
        assert forall|j: int| 0 <= j < a1.len() implies ((#[trigger] a1[j].0 == other) ==> b1[j] == a1[j]) by {
            assert(a1[j] == a[j + 1] && b1[j] == b[j + 1]);
            assert(a[j + 1].0 == other ==> b[j + 1] == a[j + 1]);
        }
        assert forall|j: int| 0 <= j < a1.len() implies (a1[j].0 == other <==> #[trigger] b1[j].0 == other) by {
            assert(a1[j] == a[j + 1] && b1[j] == b[j + 1]);
            assert(a[j + 1].0 == other <==> b[j + 1].0 == other);
        }
        assert forall|j: int| a1.len() <= j < b1.len() implies #[trigger] b1[j].0 != other by {
            assert(b1[j] == b[j + 1]);
        }
        assert(a[0].0 == other <==> b[0].0 == other);
        if a[0].0 == other {
            assert(b[0] == a[0]);
        }
        lemma_kept_time_same(a1, b1, other);
    }
}

/// Checks the files of the resource `name` against the time kept for it
/// (see `spec_later`), and keeps the new time: the resource's entry gets
/// it, or a new entry does when there was none; the other resources' times
/// stay as they were.
pub fn check_resource(times: &mut Vec<(String, u64)>, name: &String, file_times: &Vec<u64>) -> (rebuild: bool)
    ensures
        ({
            let (new_time, due) = spec_later(kept_time(times_view(old(times)@), name@), file_times@);
            &&& rebuild == due
            &&& kept_time(times_view(final(times)@), name@) == new_time
            &&& forall|other: Seq<char>| other != name@
                ==> #[trigger] kept_time(times_view(final(times)@), other) == kept_time(times_view(old(times)@), other)
        }),
{
    let ghost before = times_view(times@);
    let mut i: usize = 0;
    let mut found = false;
    while i < times.len() && !found
        invariant
            i <= times@.len(),
            times_view(times@) == before,
            found ==> i < times@.len() && times@[i as int].0@ == name@,
            forall|j: int| 0 <= j < i ==> times@[j].0@ != name@,
        decreases 2 * (times@.len() - i) + (if found { 0int } else { 1int }),
    {
        if str_equals(times[i].0.as_str(), name.as_str()) {
            found = true;
        } else {
            i = i + 1;
        }
    }
    if found {
        proof {
            assert(times_view(times@)[i as int].0 == name@);
            assert forall|j: int| 0 <= j < i implies #[trigger] times_view(times@)[j].0 != name@ by {
                assert(times@[j].0@ != name@);
            }
            lemma_kept_time_at(before, name@, i as int);
        }
        let stored = times[i].1;
        let (new_time, due) = are_any_of_these_later(Some(stored), file_times);
        let t = match new_time { Some(t) => t, None => stored };
        let entry = (times[i].0.clone(), t);
        times.set(i, entry);
        proof {
            let after = times_view(times@);
            assert(after =~= before.update(i as int, (name@, t)));
            assert forall|j: int| 0 <= j < i implies #[trigger] after[j].0 != name@ by {
                assert(after[j] == before[j]);
            }
            lemma_kept_time_at(after, name@, i as int);
            assert forall|other: Seq<char>| other != name@ implies #[trigger] kept_time(after, other) == kept_time(before, other) by {
                lemma_kept_time_same(before, after, other);
            }
        }
        due
    } else {
        proof {
            assert forall|j: int| 0 <= j < before.len() implies #[trigger] before[j].0 != name@ by {
                assert(times@[j].0@ != name@);
            }
            lemma_kept_time_none(before, name@);
        }
        let (new_time, due) = are_any_of_these_later(None, file_times);
        match new_time {
            Some(t) => {
                times.push((name.clone(), t));
                proof {
                    let after = times_view(times@);
                    assert(after =~= before.push((name@, t)));
                    assert forall|j: int| 0 <= j < before.len() implies #[trigger] after[j].0 != name@ by {
                        assert(after[j] == before[j]);
                    }
                    lemma_kept_time_at(after, name@, before.len() as int);
                    assert forall|other: Seq<char>| other != name@ implies #[trigger] kept_time(after, other) == kept_time(before, other) by {
                        lemma_kept_time_same(before, after, other);
                    }
                }
            },
            None => {},
        }
        due
    }
}

} // verus!
