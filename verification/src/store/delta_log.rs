//! Per-table Delta commit logs: key layout, version listing, and the
//! latest-version hint. A table's commit version is its object key, so a
//! conflict is a lost conditional put rather than a constraint check.

use crate::errors::{ErrorCode, UcError};
use crate::ids::{uuid_string, uuid_text};
use crate::store::action::{
    last_segment, last_segment_of, lemma_fixed_decimal_reads_back, lemma_last_segment_from,
    lemma_nested_key_is_not_a_commit, version_from_key_of,
};
use crate::store::log::{drained, string_views, wanted, PutResult};
use crate::text::{
    append_chars, chars_of, decimal_value, ends_with, fixed_decimal, is_digit, lemma_fixed_decimal_order,
    lemma_lex_common_prefix, lemma_lex_common_suffix, lex_lt, fixed_decimal_chars, has_suffix, parse_i64,
    parse_i64_of, signed_decimal_chars, signed_decimal_of, slice_to, starts_with, string_of,
};
use vstd::prelude::*;

verus! {

/// The key prefix of one table's commit log.
pub open spec fn partition_prefix_of(table_id: u128) -> Seq<char> {
    "_uc_log/tables/"@ + uuid_text(table_id) + "/"@
}

/// A version rendered as `{:020}`: twenty characters, a leading `-` for
/// negatives, zero-padded.
pub open spec fn padded_version(v: i64) -> Seq<char> {
    if v < 0 {
        seq!['-'] + fixed_decimal((0 - v) as nat, 19)
    } else {
        fixed_decimal(v as nat, 20)
    }
}

pub open spec fn delta_commit_key_of(table_id: u128, version: i64) -> Seq<char> {
    partition_prefix_of(table_id) + padded_version(version) + ".json"@
}

pub fn partition_prefix(table_id: u128) -> (p: String)
    ensures
        p@ == partition_prefix_of(table_id),
{
    let mut v = chars_of("_uc_log/tables/");
    append_chars(&mut v, chars_of(uuid_string(table_id).as_str()).as_slice());
    append_chars(&mut v, chars_of("/").as_slice());
    string_of(v.as_slice())
}

fn padded_version_chars(v: i64) -> (c: Vec<char>)
    ensures
        c@ == padded_version(v),
{
    if v < 0 {
        let mag: u64 = if v == i64::MIN { 0x8000_0000_0000_0000u64 } else { (0 - v) as u64 };
        let mut c = Vec::new();
        c.push('-');
        append_chars(&mut c, fixed_decimal_chars(mag, 19).as_slice());
        c
    } else {
        fixed_decimal_chars(v as u64, 20)
    }
}

/// The key of commit `version` of table `table_id`.
pub fn commit_key(table_id: u128, version: i64) -> (k: String)
    ensures
        k@ == delta_commit_key_of(table_id, version),
{
    let mut v = chars_of(partition_prefix(table_id).as_str());
    append_chars(&mut v, padded_version_chars(version).as_slice());
    append_chars(&mut v, chars_of(".json").as_slice());
    string_of(v.as_slice())
}

/// The version a key names: its last segment must be `<integer>.json`.
pub open spec fn delta_version_from_key_of(key: Seq<char>) -> Option<i64> {
    let name = last_segment(key);
    if ends_with(name, ".json"@) {
        parse_i64_of(name.subrange(0, name.len() - 5))
    } else {
        None
    }
}

pub fn version_from_key(key: &str) -> (r: Option<i64>)
    ensures
        r == delta_version_from_key_of(key@),
{
    let k = chars_of(key);
    let name = last_segment_of(k.as_slice());
    proof {
        reveal_strlit(".json");
    }
    if !has_suffix(name.as_slice(), chars_of(".json").as_slice()) {
        return None;
    }
    let stem = slice_to(name.as_slice(), name.len() - 5);
    parse_i64(stem.as_slice())
}

/// A Delta commit key reads back as its version, negative versions
/// included.
pub proof fn lemma_delta_commit_key_reads_back(table_id: u128, v: i64)
    ensures
        delta_version_from_key_of(delta_commit_key_of(table_id, v)) == Some(v),
{
    reveal_strlit("_uc_log/tables/");
    reveal_strlit("/");
    reveal_strlit(".json");
    let pv = padded_version(v);
    let p = partition_prefix_of(table_id);
    let k = delta_commit_key_of(table_id, v);
    assert(p.len() == 52);
    assert(p[51] == '/');
    assert(vstd::arithmetic::power::pow(10, 20) == 100000000000000000000int) by {
        reveal_with_fuel(vstd::arithmetic::power::pow, 21);
    }
    assert(vstd::arithmetic::power::pow(10, 19) == 10000000000000000000int) by {
        reveal_with_fuel(vstd::arithmetic::power::pow, 20);
    }
    if v < 0 {
        lemma_fixed_decimal_reads_back((0 - v) as nat, 19);
    } else {
        lemma_fixed_decimal_reads_back(v as nat, 20);
    }
    assert(pv.len() == 20);
    assert forall|j: int| 52 <= j < k.len() implies k[j] != '/' by {
        if j < 72 {
            assert(k[j] == pv[j - 52]);
            if v < 0 && j > 52 {
                assert(pv[j - 52] == fixed_decimal((0 - v) as nat, 19)[j - 53]);
            }
        } else {
            assert(k[j] == ".json"@[j - 72]);
        }
    }
    lemma_last_segment_from(k, 52);
    let name = k.subrange(52, k.len() as int);
    assert(name =~= pv + ".json"@);
    assert(name.subrange(20, 25) =~= ".json"@);
    assert(name.subrange(0, 20) =~= pv);
    if v < 0 {
        let d = fixed_decimal((0 - v) as nat, 19);
        assert(pv.drop_first() =~= d);
        vstd::arithmetic::div_mod::lemma_small_mod((0 - v) as nat, 10000000000000000000nat);
        assert(decimal_value(d) == 0 - v);
    } else {
        let d = fixed_decimal(v as nat, 20);
        assert(is_digit(d[0]));
        vstd::arithmetic::div_mod::lemma_small_mod(v as nat, 100000000000000000000nat);
        assert(decimal_value(d) == v);
    }
}

/// A Delta commit key, nested in its table's partition, is never taken for
/// a commit of the main log.
pub proof fn lemma_partition_key_is_not_a_commit(table_id: u128, v: i64)
    ensures
        version_from_key_of(delta_commit_key_of(table_id, v)) is None,
{
    reveal_strlit("_uc_log/tables/");
    let k = delta_commit_key_of(table_id, v);
    assert(k[14] == '/');
    lemma_nested_key_is_not_a_commit(k, 14);
}

/// Where a version listing starts: the listing is exclusive, so an inclusive
/// lower bound `v` starts after the key of `v - 1`; a bound at or below zero,
/// or none, starts at the partition itself.
pub open spec fn versions_start_after_of(table_id: u128, starting: Option<i64>) -> Seq<char> {
    match starting {
        Some(v) => if v <= 0 {
            partition_prefix_of(table_id)
        } else {
            delta_commit_key_of(table_id, (v - 1) as i64)
        },
        None => partition_prefix_of(table_id),
    }
}

pub fn versions_start_after(table_id: u128, starting: Option<i64>) -> (k: String)
    ensures
        k@ == versions_start_after_of(table_id, starting),
{
    match starting {
        Some(v) => {
            if v <= 0 {
                partition_prefix(table_id)
            } else {
                commit_key(table_id, v - 1)
            }
        },
        None => partition_prefix(table_id),
    }
}

/// Where a version listing bounded above by `ending` may stop paging: at the
/// key of a non-negative bound, inclusive. Negative versions render with a
/// leading `-` and sort in reverse among themselves, so a negative bound, or
/// none, lists to the end of the partition.
pub open spec fn versions_stop_at_of(table_id: u128, ending: Option<i64>) -> Option<Seq<char>> {
    match ending {
        Some(e) => if e >= 0 {
            Some(delta_commit_key_of(table_id, e))
        } else {
            None
        },
        None => None,
    }
}

pub fn versions_stop_at(table_id: u128, ending: Option<i64>) -> (r: Option<String>)
    ensures
        match r {
            Some(s) => versions_stop_at_of(table_id, ending) == Some(s@),
            None => versions_stop_at_of(table_id, ending) is None,
        },
{
    match ending {
        Some(e) => {
            if e >= 0 {
                Some(commit_key(table_id, e))
            } else {
                None
            }
        },
        None => None,
    }
}

/// Stopping at the bound loses no wanted version: the key of every version
/// at or below a non-negative bound sorts at or before the bound's key.
pub proof fn lemma_stop_keeps_wanted_versions(table_id: u128, v: i64, e: i64)
    requires
        0 <= e,
        v <= e,
    ensures
        !lex_lt(delta_commit_key_of(table_id, e), delta_commit_key_of(table_id, v)),
{
    let p = partition_prefix_of(table_id);
    let t = ".json"@;
    let ke = padded_version(e);
    let kv = padded_version(v);
    assert(delta_commit_key_of(table_id, e) =~= p + (ke + t));
    assert(delta_commit_key_of(table_id, v) =~= p + (kv + t));
    lemma_lex_common_prefix(p, ke + t, kv + t);
    lemma_fixed_decimal_reads_back(e as nat, 20);
    if v >= 0 {
        assert(vstd::arithmetic::power::pow(10, 20) == 100000000000000000000int) by {
            reveal_with_fuel(vstd::arithmetic::power::pow, 21);
        }
        lemma_fixed_decimal_order(e as nat, v as nat, 20);
        lemma_fixed_decimal_reads_back(v as nat, 20);
        lemma_lex_common_suffix(ke, kv, t);
    } else {
        assert(is_digit(ke[0]));
        assert((ke + t)[0] == ke[0]);
        assert((kv + t)[0] == '-');
        assert(!lex_lt(ke + t, kv + t));
    }
}

/// The versions the listed keys name, in listing order, keeping only those at
/// or below `ending` when it is given.
pub open spec fn listed_versions(keys: Seq<Seq<char>>, ending: Option<i64>) -> Seq<i64>
    decreases keys.len(),
{
    if keys.len() == 0 {
        Seq::empty()
    } else {
        let init = listed_versions(keys.drop_last(), ending);
        match delta_version_from_key_of(keys.last()) {
            Some(v) => if ending is None || v <= ending->0 {
                init.push(v)
            } else {
                init
            },
            None => init,
        }
    }
}

/// Ascending, duplicates allowed.
pub open spec fn ascending(s: Seq<i64>) -> bool {
    forall|i: int, j: int| 0 <= i < j < s.len() ==> s[i] <= s[j]
}

/// Sort ascending.
pub fn sort_versions(v: Vec<i64>) -> (r: Vec<i64>)
    ensures
        ascending(r@),
        r@.to_multiset() == v@.to_multiset(),
{
    broadcast use vstd::seq_lib::group_to_multiset_ensures;
    let mut out: Vec<i64> = Vec::new();
    let mut i: usize = 0;
    assert(v@.take(0) =~= Seq::<i64>::empty());
    while i < v.len()
        invariant
            i <= v@.len(),
            ascending(out@),
            out@.to_multiset() == v@.take(i as int).to_multiset(),
        decreases v@.len() - i,
    {
        let x = v[i];
        let mut j: usize = 0;
        while j < out.len() && out[j] <= x
            invariant
                j <= out@.len(),
                forall|k: int| 0 <= k < j ==> out@[k] <= x,
            decreases out@.len() - j,
        {
            j = j + 1;
        }
        let ghost o = out@;
        out.insert(j, x);
        proof {
            vstd::seq_lib::to_multiset_insert(o, j as int, x);
            assert(v@.take(i as int + 1) =~= v@.take(i as int).push(x));
            vstd::seq_lib::to_multiset_build(v@.take(i as int), x);
            assert forall|a: int, b: int| 0 <= a < b < out@.len() implies out@[a] <= out@[b] by {
                if b < j {
                } else if b == j {
                    assert(out@[a] == o[a]);
                } else if a < j {
                    assert(out@[b] == o[b - 1]);
                } else if a == j {
                    assert(out@[b] == o[b - 1]);
                    assert(o[j as int] > x);
                    if b - 1 > j {
                        assert(o[j as int] <= o[b - 1]);
                    }
                } else {
                    assert(out@[a] == o[a - 1]);
                    assert(out@[b] == o[b - 1]);
                }
            }
        }
        i = i + 1;
    }
    assert(v@.take(i as int) =~= v@);
    out
}

/// Where a listing for a table's latest version starts: just after the
/// hinted version, so the common case lists only what is new, or at the
/// start of the partition when there is no hint.
pub fn latest_start_after(table_id: u128, hint: Option<i64>) -> (k: String)
    ensures
        k@ == match hint {
            Some(v) => delta_commit_key_of(table_id, v),
            None => partition_prefix_of(table_id),
        },
{
    match hint {
        Some(v) => commit_key(table_id, v),
        None => partition_prefix(table_id),
    }
}

/// The versions named by a listing of a table's partition, up to `ending`,
/// ascending.
pub fn versions_in_listing(keys: &[String], ending: Option<i64>) -> (r: Vec<i64>)
    ensures
        ascending(r@),
        r@.to_multiset() == listed_versions(string_views(keys@), ending).to_multiset(),
{
    let ghost views = string_views(keys@);
    let mut found: Vec<i64> = Vec::new();
    let mut i: usize = 0;
    assert(views.take(0) =~= Seq::<Seq<char>>::empty());
    while i < keys.len()
        invariant
            views == string_views(keys@),
            i <= keys@.len(),
            found@ == listed_versions(views.take(i as int), ending),
        decreases keys@.len() - i,
    {
        proof {
            assert(views.take(i as int + 1).drop_last() =~= views.take(i as int));
            assert(views.take(i as int + 1).last() == keys@[i as int]@);
        }
        match version_from_key(keys[i].as_str()) {
            Some(v) => {
                let keep = match ending {
                    Some(e) => v <= e,
                    None => true,
                };
                if keep {
                    found.push(v);
                }
            },
            None => {},
        }
        i = i + 1;
    }
    assert(views.take(i as int) =~= views);
    sort_versions(found)
}

/// The highest of a sequence of versions.
pub open spec fn max_version(s: Seq<i64>) -> Option<i64>
    decreases s.len(),
{
    if s.len() == 0 {
        None
    } else {
        match max_version(s.drop_last()) {
            Some(m) => if s.last() > m {
                Some(s.last())
            } else {
                Some(m)
            },
            None => Some(s.last()),
        }
    }
}

/// The latest version of a table, from the hint and a listing forward of it:
/// a listed version wins, else the hint stands, else there is none.
pub open spec fn latest_of(hint: Option<i64>, listed: Seq<i64>) -> Option<i64> {
    match max_version(listed) {
        Some(v) => Some(v),
        None => hint,
    }
}

pub fn latest_from_listing(hint: Option<i64>, keys: &[String]) -> (r: Option<i64>)
    ensures
        r == latest_of(hint, listed_versions(string_views(keys@), None)),
{
    let ghost views = string_views(keys@);
    let mut best: Option<i64> = None;
    let mut i: usize = 0;
    assert(views.take(0) =~= Seq::<Seq<char>>::empty());
    while i < keys.len()
        invariant
            views == string_views(keys@),
            i <= keys@.len(),
            best == max_version(listed_versions(views.take(i as int), None)),
        decreases keys@.len() - i,
    {
        proof {
            assert(views.take(i as int + 1).drop_last() =~= views.take(i as int));
            assert(views.take(i as int + 1).last() == keys@[i as int]@);
        }
        let ghost before = listed_versions(views.take(i as int), None);
        match version_from_key(keys[i].as_str()) {
            Some(v) => {
                proof {
                    assert(listed_versions(views.take(i as int + 1), None) == before.push(v));
                    assert(before.push(v).drop_last() =~= before);
                }
                best = match best {
                    Some(m) => if v > m { Some(v) } else { Some(m) },
                    None => Some(v),
                };
            },
            None => {},
        }
        i = i + 1;
    }
    assert(views.take(i as int) =~= views);
    match best {
        Some(v) => Some(v),
        None => hint,
    }
}

/// The last version this replica knows of, per table. A hint only: appends
/// are conditional, so a stale hint costs a longer listing, never
/// correctness. It never moves backwards.
pub struct LatestHints {
    entries: Vec<(u128, i64)>,
}

impl LatestHints {
    pub closed spec fn hints(self) -> Map<u128, i64> {
        Map::new(
            |t: u128| exists|i: int| 0 <= i < self.entries@.len() && self.entries@[i].0 == t,
            |t: u128| self.entries@[choose|i: int| 0 <= i < self.entries@.len() && self.entries@[i].0 == t].1,
        )
    }

    pub closed spec fn wf(self) -> bool {
        forall|i: int, j: int| 0 <= i < j < self.entries@.len() ==> self.entries@[i].0 != self.entries@[j].0
    }

    pub fn new() -> (h: LatestHints)
        ensures
            h.wf(),
            h.hints() == Map::<u128, i64>::empty(),
    {
        let h = LatestHints { entries: Vec::new() };
        assert(h.hints() =~= Map::<u128, i64>::empty());
        h
    }

    fn position(&self, table_id: u128) -> (r: Option<usize>)
        requires
            self.wf(),
        ensures
            match r {
                Some(i) => i < self.entries@.len() && self.entries@[i as int].0 == table_id,
                None => forall|i: int| 0 <= i < self.entries@.len() ==> self.entries@[i].0 != table_id,
            },
    {
        let mut i: usize = 0;
        while i < self.entries.len()
            invariant
                i <= self.entries@.len(),
                forall|j: int| 0 <= j < i ==> self.entries@[j].0 != table_id,
            decreases self.entries@.len() - i,
        {
            if self.entries[i].0 == table_id {
                return Some(i);
            }
            i = i + 1;
        }
        None
    }

    /// The hinted latest version of a table.
    pub fn get(&self, table_id: u128) -> (r: Option<i64>)
        requires
            self.wf(),
        ensures
            match r {
                Some(v) => self.hints().contains_key(table_id) && self.hints()[table_id] == v,
                None => !self.hints().contains_key(table_id),
            },
    {
        match self.position(table_id) {
            Some(i) => {
                proof {
                    let j = choose|j: int| 0 <= j < self.entries@.len() && self.entries@[j].0 == table_id;
                    if j != i {
                        assert(self.entries@[j].0 != self.entries@[i as int].0);
                    }
                }
                Some(self.entries[i].1)
            },
            None => None,
        }
    }

    /// Raise a table's hint to `version`, never lowering it.
    pub fn record(&mut self, table_id: u128, version: i64)
        requires
            old(self).wf(),
        ensures
            final(self).wf(),
            final(self).hints() == old(self).hints().insert(
                table_id,
                if old(self).hints().contains_key(table_id) && old(self).hints()[table_id] > version {
                    old(self).hints()[table_id]
                } else {
                    version
                },
            ),
    {
        let ghost h0 = self.hints();
        match self.position(table_id) {
            Some(i) => {
                let cur = self.entries[i].1;
                proof {
                    let j = choose|j: int| 0 <= j < self.entries@.len() && self.entries@[j].0 == table_id;
                    if j != i {
                        assert(self.entries@[j].0 != self.entries@[i as int].0);
                    }
                    assert(h0[table_id] == cur);
                }
                let nv = if cur > version { cur } else { version };
                let ghost e0 = self.entries@;
                self.entries.set(i, (table_id, nv));
                proof {
                    let h1 = self.hints();
                    let want = h0.insert(table_id, nv);
                    assert forall|t: u128| h1.contains_key(t) <==> want.contains_key(t) by {
                        if want.contains_key(t) && t != table_id {
                            let j = choose|j: int| 0 <= j < e0.len() && e0[j].0 == t;
                            assert(self.entries@[j].0 == t);
                        }
                        if h1.contains_key(t) && t != table_id {
                            let j = choose|j: int| 0 <= j < self.entries@.len() && self.entries@[j].0 == t;
                            assert(j != i);
                            assert(e0[j].0 == t);
                        }
                        if t == table_id {
                            assert(self.entries@[i as int].0 == t);
                        }
                    }
                    assert forall|t: u128| #[trigger] h1.contains_key(t) implies h1[t] == want[t] by {
                        let j = choose|j: int| 0 <= j < self.entries@.len() && self.entries@[j].0 == t;
                        if t == table_id {
                            if j != i {
                                assert(self.entries@[j].0 != self.entries@[i as int].0);
                            }
                        } else {
                            let k = choose|k: int| 0 <= k < e0.len() && e0[k].0 == t;
                            assert(j != i);
                            if k != j {
                                assert(e0[k].0 != e0[j].0);
                            }
                        }
                    }
                    assert(h1 =~= want);
                }
            },
            None => {
                let ghost e0 = self.entries@;
                self.entries.push((table_id, version));
                proof {
                    let h1 = self.hints();
                    let want = h0.insert(table_id, version);
                    assert forall|t: u128| h1.contains_key(t) <==> want.contains_key(t) by {
                        if want.contains_key(t) && t != table_id {
                            let j = choose|j: int| 0 <= j < e0.len() && e0[j].0 == t;
                            assert(self.entries@[j].0 == t);
                        }
                        if t == table_id {
                            assert(self.entries@[e0.len() as int].0 == t);
                        }
                    }
                    assert forall|t: u128| #[trigger] h1.contains_key(t) implies h1[t] == want[t] by {
                        let j = choose|j: int| 0 <= j < self.entries@.len() && self.entries@[j].0 == t;
                        if t == table_id {
                            if j != e0.len() {
                                assert(e0[j].0 != table_id);
                            }
                        } else {
                            let k = choose|k: int| 0 <= k < e0.len() && e0[k].0 == t;
                            assert(j < e0.len());
                            if k != j {
                                assert(e0[k].0 != e0[j].0);
                            }
                        }
                    }
                    assert(h1 =~= want);
                }
            },
        }
    }
}

/// The error a lost conditional put of a Delta commit is reported as.
pub open spec fn commit_conflict_message(version: i64) -> Seq<char> {
    "Commit version "@ + signed_decimal_of(version as int) + " already exists for this table"@
}

/// The outcome of appending commit `version` to a table's log: a created
/// object raises the table's hint; an existing one is a version conflict and
/// leaves the hints alone.
pub fn append_outcome(hints: &mut LatestHints, table_id: u128, version: i64, put: PutResult) -> (r: Result<(), UcError>)
    requires
        old(hints).wf(),
    ensures
        final(hints).wf(),
        put == PutResult::Created ==> r is Ok && final(hints).hints() == old(hints).hints().insert(
            table_id,
            if old(hints).hints().contains_key(table_id) && old(hints).hints()[table_id] > version {
                old(hints).hints()[table_id]
            } else {
                version
            },
        ),
        put == PutResult::AlreadyExists ==> final(hints).hints() == old(hints).hints() && match r {
            Err(e) => e.code == ErrorCode::CommitVersionConflict && e.message@ == commit_conflict_message(version),
            Ok(_) => false,
        },
{
    match put {
        PutResult::Created => {
            hints.record(table_id, version);
            Ok(())
        },
        PutResult::AlreadyExists => {
            let mut m = chars_of("Commit version ");
            append_chars(&mut m, signed_decimal_chars(version).as_slice());
            append_chars(&mut m, chars_of(" already exists for this table").as_slice());
            Err(UcError::with_message(ErrorCode::CommitVersionConflict, string_of(m.as_slice())))
        },
    }
}

/// Non-negative versions' keys sort as the versions do.
pub proof fn lemma_delta_keys_order(table_id: u128, a: i64, b: i64)
    requires
        0 <= a,
        0 <= b,
    ensures
        lex_lt(delta_commit_key_of(table_id, a), delta_commit_key_of(table_id, b)) <==> a < b,
{
    let p = partition_prefix_of(table_id);
    let t = ".json"@;
    let ka = padded_version(a);
    let kb = padded_version(b);
    assert(delta_commit_key_of(table_id, a) =~= p + (ka + t));
    assert(delta_commit_key_of(table_id, b) =~= p + (kb + t));
    lemma_lex_common_prefix(p, ka + t, kb + t);
    assert(vstd::arithmetic::power::pow(10, 20) == 100000000000000000000int) by {
        reveal_with_fuel(vstd::arithmetic::power::pow, 21);
    }
    lemma_fixed_decimal_order(a as nat, b as nat, 20);
    lemma_fixed_decimal_reads_back(a as nat, 20);
    lemma_fixed_decimal_reads_back(b as nat, 20);
    lemma_lex_common_suffix(ka, kb, t);
}

/// A key of a table's partition sorts after the partition itself, and lies
/// under it.
proof fn lemma_partition_holds_key(table_id: u128, v: i64)
    ensures
        lex_lt(partition_prefix_of(table_id), delta_commit_key_of(table_id, v)),
        starts_with(delta_commit_key_of(table_id, v), partition_prefix_of(table_id)),
{
    let p = partition_prefix_of(table_id);
    let x = padded_version(v) + ".json"@;
    reveal_strlit(".json");
    assert(delta_commit_key_of(table_id, v) =~= p + x);
    assert(p + Seq::<char>::empty() =~= p);
    lemma_lex_common_prefix(p, Seq::<char>::empty(), x);
    assert((p + x).subrange(0, p.len() as int) =~= p);
}

/// A version is listed exactly when some listed key names it, within the end.
proof fn lemma_listed_versions_contains(keys: Seq<Seq<char>>, ending: Option<i64>, v: i64)
    ensures
        listed_versions(keys, ending).contains(v) <==> exists|i: int|
            0 <= i < keys.len() && delta_version_from_key_of(#[trigger] keys[i]) == Some(v) && (ending is None
                || v <= ending->0),
    decreases keys.len(),
{
    if keys.len() > 0 {
        let d = keys.drop_last();
        lemma_listed_versions_contains(d, ending, v);
        let init = listed_versions(d, ending);
        if exists|i: int|
            0 <= i < keys.len() && delta_version_from_key_of(#[trigger] keys[i]) == Some(v) && (ending is None
                || v <= ending->0) {
            let i = choose|i: int|
                0 <= i < keys.len() && delta_version_from_key_of(#[trigger] keys[i]) == Some(v) && (ending is None
                    || v <= ending->0);
            if i < keys.len() - 1 {
                assert(d[i] == keys[i]);
                let x = choose|x: int| 0 <= x < init.len() && init[x] == v;
                assert(init.push(v)[x] == v);
                match delta_version_from_key_of(keys.last()) {
                    Some(w) => {
                        assert(init.push(w)[x] == v);
                    },
                    None => {},
                }
            } else {
                assert(keys[keys.len() - 1] == keys.last());
                assert(init.push(v)[init.len() as int] == v);
            }
        }
        if listed_versions(keys, ending).contains(v) {
            let l = listed_versions(keys, ending);
            let x = choose|x: int| 0 <= x < l.len() && l[x] == v;
            if x < init.len() {
                assert(l[x] == init[x]);
                let i = choose|i: int|
                    0 <= i < d.len() && delta_version_from_key_of(#[trigger] d[i]) == Some(v) && (ending is None
                        || v <= ending->0);
                assert(keys[i] == d[i]);
            } else {
                assert(keys[keys.len() - 1] == keys.last());
            }
        }
    }
}

/// The Delta versions of a range: when a table's partition holds only commit
/// keys of non-negative versions, listing it from where the range starts to
/// where it may stop and reading the versions off gives exactly the committed
/// versions within both inclusive bounds, ascending.
pub proof fn lemma_version_range(
    objects: Map<Seq<char>, Seq<u8>>,
    table_id: u128,
    starting: Option<i64>,
    ending: Option<i64>,
    keys: Seq<Seq<char>>,
    r: Seq<i64>,
)
    requires
        forall|k: Seq<char>|
            #[trigger] objects.contains_key(k) && starts_with(k, partition_prefix_of(table_id)) ==> exists|v: i64|
                v >= 0 && k == delta_commit_key_of(table_id, v),
        drained(
            objects,
            partition_prefix_of(table_id),
            versions_start_after_of(table_id, starting),
            versions_stop_at_of(table_id, ending),
            keys,
        ),
        ascending(r),
        r.to_multiset() == listed_versions(keys, ending).to_multiset(),
    ensures
        forall|v: i64|
            #[trigger] r.contains(v) <==> {
                &&& v >= 0
                &&& objects.contains_key(delta_commit_key_of(table_id, v))
                &&& (starting is None || starting->0 <= v)
                &&& (ending is None || v <= ending->0)
            },
{
    let p = partition_prefix_of(table_id);
    let start = versions_start_after_of(table_id, starting);
    let bound = versions_stop_at_of(table_id, ending);
    assert forall|v: i64| #[trigger] r.contains(v) <==> {
        &&& v >= 0
        &&& objects.contains_key(delta_commit_key_of(table_id, v))
        &&& (starting is None || starting->0 <= v)
        &&& (ending is None || v <= ending->0)
    } by {
        vstd::seq_lib::to_multiset_contains(r, v);
        vstd::seq_lib::to_multiset_contains(listed_versions(keys, ending), v);
        lemma_listed_versions_contains(keys, ending, v);
        if r.contains(v) {
            let i = choose|i: int|
                0 <= i < keys.len() && delta_version_from_key_of(#[trigger] keys[i]) == Some(v) && (ending is None
                    || v <= ending->0);
            assert(keys.contains(keys[i]));
            assert(wanted(objects, p, start, bound, keys[i]));
            let w = choose|w: i64| w >= 0 && keys[i] == delta_commit_key_of(table_id, w);
            lemma_delta_commit_key_reads_back(table_id, w);
            assert(w == v);
            match starting {
                Some(s) => {
                    if s > 0 {
                        lemma_delta_keys_order(table_id, (s - 1) as i64, v);
                    }
                },
                None => {},
            }
        }
        if v >= 0 && objects.contains_key(delta_commit_key_of(table_id, v)) && (starting is None || starting->0 <= v)
            && (ending is None || v <= ending->0) {
            let k = delta_commit_key_of(table_id, v);
            lemma_partition_holds_key(table_id, v);
            match starting {
                Some(s) => {
                    if s > 0 {
                        lemma_delta_keys_order(table_id, (s - 1) as i64, v);
                    }
                },
                None => {},
            }
            match ending {
                Some(e) => {
                    lemma_delta_keys_order(table_id, v, e);
                    lemma_delta_keys_order(table_id, e, v);
                },
                None => {},
            }
            assert(wanted(objects, p, start, bound, k));
            assert(keys.contains(k));
            let i = choose|i: int| 0 <= i < keys.len() && keys[i] == k;
            lemma_delta_commit_key_reads_back(table_id, v);
            assert(delta_version_from_key_of(keys[i]) == Some(v));
        }
    }
}

proof fn lemma_count_no_dup(s: Seq<i64>, v: i64)
    requires
        forall|i: int, j: int| 0 <= i < j < s.len() ==> s[i] != s[j],
    ensures
        s.to_multiset().count(v) <= 1,
    decreases s.len(),
{
    broadcast use vstd::seq_lib::group_to_multiset_ensures;

    if s.len() > 0 {
        let d = s.drop_last();
        assert(s =~= d.push(s.last()));
        lemma_count_no_dup(d, v);
        if s.last() == v {
            vstd::seq_lib::to_multiset_contains(d, v);
            if d.contains(v) {
                let i = choose|i: int| 0 <= i < d.len() && d[i] == v;
                assert(s[i] == v && s[s.len() - 1] == v);
            }
        }
    }
}

proof fn lemma_count_two(s: Seq<i64>, i: int, j: int)
    requires
        0 <= i < j < s.len(),
        s[i] == s[j],
    ensures
        s.to_multiset().count(s[i]) >= 2,
    decreases s.len(),
{
    broadcast use vstd::seq_lib::group_to_multiset_ensures;

    let d = s.drop_last();
    assert(s =~= d.push(s.last()));
    if j < s.len() - 1 {
        assert(d[i] == s[i] && d[j] == s[j]);
        lemma_count_two(d, i, j);
    } else {
        assert(d[i] == s[i]);
        vstd::seq_lib::to_multiset_contains(d, s[i]);
    }
}

/// Listing keys that are distinct commit keys of one table lists each
/// version once.
proof fn lemma_listed_versions_distinct(table_id: u128, keys: Seq<Seq<char>>, ending: Option<i64>)
    requires
        forall|i: int, j: int| 0 <= i < j < keys.len() ==> keys[i] != keys[j],
        forall|i: int| 0 <= i < keys.len() ==> exists|w: i64| #[trigger] keys[i] == delta_commit_key_of(table_id, w),
    ensures
        forall|i: int, j: int|
            0 <= i < j < listed_versions(keys, ending).len() ==> listed_versions(keys, ending)[i] != listed_versions(
                keys,
                ending,
            )[j],
    decreases keys.len(),
{
    if keys.len() > 0 {
        let d = keys.drop_last();
        assert forall|i: int| 0 <= i < d.len() implies exists|w: i64| #[trigger] d[i] == delta_commit_key_of(table_id, w) by {
            assert(d[i] == keys[i]);
        }
        lemma_listed_versions_distinct(table_id, d, ending);
        let init = listed_versions(d, ending);
        let l = listed_versions(keys, ending);
        match delta_version_from_key_of(keys.last()) {
            Some(v) => {
                if ending is None || v <= ending->0 {
                    assert forall|i: int, j: int| 0 <= i < j < l.len() implies l[i] != l[j] by {
                        if j == init.len() && l[i] == l[j] {
                            lemma_listed_versions_contains(d, ending, v);
                            assert(init[i] == v);
                            let x = choose|x: int|
                                0 <= x < d.len() && delta_version_from_key_of(#[trigger] d[x]) == Some(v) && (ending is None
                                    || v <= ending->0);
                            assert(keys[x] == d[x]);
                            assert(keys[keys.len() - 1] == keys.last());
                            let w1 = choose|w: i64| #[trigger] keys[x] == delta_commit_key_of(table_id, w);
                            let w2 = choose|w: i64| #[trigger] keys[keys.len() - 1] == delta_commit_key_of(table_id, w);
                            lemma_delta_commit_key_reads_back(table_id, w1);
                            lemma_delta_commit_key_reads_back(table_id, w2);
                        }
                    }
                }
            },
            None => {},
        }
    }
}

/// Each version of a range is listed once: the versions read off come out
/// strictly ascending.
pub proof fn lemma_version_range_strict(
    objects: Map<Seq<char>, Seq<u8>>,
    table_id: u128,
    starting: Option<i64>,
    ending: Option<i64>,
    keys: Seq<Seq<char>>,
    r: Seq<i64>,
)
    requires
        forall|k: Seq<char>|
            #[trigger] objects.contains_key(k) && starts_with(k, partition_prefix_of(table_id)) ==> exists|v: i64|
                v >= 0 && k == delta_commit_key_of(table_id, v),
        drained(
            objects,
            partition_prefix_of(table_id),
            versions_start_after_of(table_id, starting),
            versions_stop_at_of(table_id, ending),
            keys,
        ),
        ascending(r),
        r.to_multiset() == listed_versions(keys, ending).to_multiset(),
    ensures
        forall|i: int, j: int| 0 <= i < j < r.len() ==> r[i] < r[j],
{
    let p = partition_prefix_of(table_id);
    assert forall|i: int, j: int| 0 <= i < j < keys.len() implies keys[i] != keys[j] by {
        assert(lex_lt(keys[i], keys[j]));
        crate::text::lemma_lex_irreflexive(keys[i]);
    }
    assert forall|i: int| 0 <= i < keys.len() implies exists|w: i64| #[trigger] keys[i] == delta_commit_key_of(table_id, w) by {
        assert(keys.contains(keys[i]));
        assert(objects.contains_key(keys[i]) && starts_with(keys[i], p));
    }
    lemma_listed_versions_distinct(table_id, keys, ending);
    assert forall|i: int, j: int| 0 <= i < j < r.len() implies r[i] < r[j] by {
        if r[i] == r[j] {
            lemma_count_two(r, i, j);
            lemma_count_no_dup(listed_versions(keys, ending), r[i]);
        }
    }
}

proof fn lemma_max_version(s: Seq<i64>)
    ensures
        match max_version(s) {
            Some(m) => s.contains(m) && forall|x: int| 0 <= x < s.len() ==> #[trigger] s[x] <= m,
            None => s.len() == 0,
        },
    decreases s.len(),
{
    if s.len() > 0 {
        let d = s.drop_last();
        lemma_max_version(d);
        match max_version(d) {
            Some(m) => {
                let j = choose|j: int| 0 <= j < d.len() && d[j] == m;
                assert(s[j] == m);
                assert forall|x: int| 0 <= x < s.len() implies #[trigger] s[x] <= max_version(s)->0 by {
                    if x < d.len() {
                        assert(s[x] == d[x]);
                    }
                }
            },
            None => {
                assert(s[s.len() - 1] == s.last());
            },
        }
    }
}

/// The latest version is read correctly: when a table's partition holds only
/// commit keys of non-negative versions, and the hint, if any, is a committed
/// version (hints are only ever raised to versions that were written, and no
/// commit is deleted), the version decided from a drained listing forward of
/// the hint is the highest committed version, or none when nothing was
/// committed. A stale hint is corrected by what the listing finds.
pub proof fn lemma_latest_version(
    objects: Map<Seq<char>, Seq<u8>>,
    table_id: u128,
    hint: Option<i64>,
    keys: Seq<Seq<char>>,
)
    requires
        forall|k: Seq<char>|
            #[trigger] objects.contains_key(k) && starts_with(k, partition_prefix_of(table_id)) ==> exists|v: i64|
                v >= 0 && k == delta_commit_key_of(table_id, v),
        hint matches Some(h) ==> h >= 0 && objects.contains_key(delta_commit_key_of(table_id, h)),
        drained(
            objects,
            partition_prefix_of(table_id),
            match hint {
                Some(h) => delta_commit_key_of(table_id, h),
                None => partition_prefix_of(table_id),
            },
            None,
            keys,
        ),
    ensures
        match latest_of(hint, listed_versions(keys, None)) {
            Some(m) => {
                &&& m >= 0
                &&& objects.contains_key(delta_commit_key_of(table_id, m))
                &&& forall|v: i64|
                    v >= 0 && #[trigger] objects.contains_key(delta_commit_key_of(table_id, v)) ==> v <= m
            },
            None => forall|v: i64| v >= 0 ==> !#[trigger] objects.contains_key(delta_commit_key_of(table_id, v)),
        },
{
    let p = partition_prefix_of(table_id);
    let start = match hint {
        Some(h) => delta_commit_key_of(table_id, h),
        None => p,
    };
    let l = listed_versions(keys, None);
    // What the listing read off: exactly the committed versions after the hint.
    assert forall|v: i64| #[trigger] l.contains(v) <==> {
        &&& v >= 0
        &&& objects.contains_key(delta_commit_key_of(table_id, v))
        &&& (hint is None || hint->0 < v)
    } by {
        lemma_listed_versions_contains(keys, None, v);
        if l.contains(v) {
            let i = choose|i: int| 0 <= i < keys.len() && delta_version_from_key_of(#[trigger] keys[i]) == Some(v);
            assert(keys.contains(keys[i]));
            assert(wanted(objects, p, start, None, keys[i]));
            let w = choose|w: i64| w >= 0 && keys[i] == delta_commit_key_of(table_id, w);
            lemma_delta_commit_key_reads_back(table_id, w);
            if hint is Some {
                lemma_delta_keys_order(table_id, hint->0, v);
            }
        }
        if v >= 0 && objects.contains_key(delta_commit_key_of(table_id, v)) && (hint is None || hint->0 < v) {
            let k = delta_commit_key_of(table_id, v);
            lemma_partition_holds_key(table_id, v);
            if hint is Some {
                lemma_delta_keys_order(table_id, hint->0, v);
            }
            assert(wanted(objects, p, start, None, k));
            assert(keys.contains(k));
            let i = choose|i: int| 0 <= i < keys.len() && keys[i] == k;
            lemma_delta_commit_key_reads_back(table_id, v);
            assert(delta_version_from_key_of(keys[i]) == Some(v));
        }
    }
    lemma_max_version(l);
    match max_version(l) {
        Some(m) => {
            assert(l.contains(m));
            assert forall|v: i64| v >= 0 && #[trigger] objects.contains_key(delta_commit_key_of(table_id, v)) implies v
                <= m by {
                if hint is None || hint->0 < v {
                    assert(l.contains(v));
                    let x = choose|x: int| 0 <= x < l.len() && l[x] == v;
                    assert(l[x] <= m);
                }
            }
        },
        None => {
            if hint is None {
                assert forall|v: i64| v >= 0 implies !#[trigger] objects.contains_key(delta_commit_key_of(table_id, v)) by {
                    if objects.contains_key(delta_commit_key_of(table_id, v)) {
                        assert(l.contains(v));
                    }
                }
            }
            match hint {
                Some(h) => {
                    assert forall|v: i64| v >= 0 && #[trigger] objects.contains_key(delta_commit_key_of(table_id, v))
                        implies v <= h by {
                        if h < v {
                            assert(l.contains(v));
                        }
                    }
                },
                None => {},
            }
        },
    }
}

} // verus!
