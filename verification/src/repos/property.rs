//! Entity properties, unique by `(entity_id, entity_type, key)`.

use crate::errors::UcError;
use crate::ids::new_v7_id;
use crate::models::property::PropertyRow;
use crate::repos::{
    all_typed, child_prefix, child_prefix_string, commits, fails_typed, remove_all, removals,
    rows_of_ids, single, typed_all, typed_outcome, typed_seq, Stored,
};
use crate::store::action::{Action, EntityKind};
use crate::ids::uuid_text;
use crate::store::row::{natural_key_of, sep, Row};
use crate::store::{apply_all_index, apply_all_rows, rows_for, select_ids, Snapshot};
use crate::text::{
    append_chars, chars_of, starts_with, lemma_lex_asymmetric, lemma_lex_irreflexive, lemma_lex_total,
    lemma_lex_transitive, lex_compare, lex_lt, string_of, KeyOrder,
};
use vstd::prelude::*;

verus! {

/// `{entity_id}\0{entity_type}\0`: the prefix of an entity's properties.
pub open spec fn property_prefix(entity_id: u128, entity_type: Seq<char>) -> Seq<char> {
    child_prefix(entity_id) + entity_type + sep()
}

fn prefix_string(entity_id: u128, entity_type: &str) -> (s: String)
    ensures
        s@ == property_prefix(entity_id, entity_type@),
{
    let mut v = chars_of(child_prefix_string(entity_id).as_str());
    append_chars(&mut v, chars_of(entity_type).as_slice());
    v.push('\u{0}');
    let s = string_of(v.as_slice());
    assert(s@ =~= property_prefix(entity_id, entity_type@));
    s
}

fn key_string(entity_id: u128, entity_type: &str, key: &str) -> (s: String)
    ensures
        s@ == property_prefix(entity_id, entity_type@) + key@,
{
    let mut v = chars_of(prefix_string(entity_id, entity_type).as_str());
    append_chars(&mut v, chars_of(key).as_slice());
    let s = string_of(v.as_slice());
    assert(s@ =~= property_prefix(entity_id, entity_type@) + key@);
    s
}

/// The ids of an entity's properties, in key order.
pub open spec fn property_ids(snap: Snapshot, entity_id: u128, entity_type: Seq<char>) -> Seq<u128> {
    select_ids(snap.index_entries(), EntityKind::Property, property_prefix(entity_id, entity_type), None)
}

/// The stored rows of an entity's properties, in key order.
pub open spec fn property_rows(snap: Snapshot, entity_id: u128, entity_type: Seq<char>) -> Seq<Row> {
    rows_for(snap.rows(), EntityKind::Property, property_ids(snap, entity_id, entity_type))
}

/// The key and value of each property.
pub open spec fn key_values(s: Seq<PropertyRow>) -> Seq<(Seq<char>, Seq<char>)> {
    s.map_values(|p: PropertyRow| (p.property_key@, p.property_value@))
}

/// An entity's properties as key and value pairs, in key order.
pub fn get_for_entity(snap: &Snapshot, entity_id: u128, entity_type: &str) -> (r: Result<Vec<(String, String)>, UcError>)
    requires
        snap.wf(),
    ensures
        match r {
            Ok(pairs) => {
                let rows = property_rows(*snap, entity_id, entity_type@);
                &&& all_typed::<PropertyRow>(rows)
                &&& pairs@.map_values(|p: (String, String)| (p.0@, p.1@)) == key_values(typed_seq::<PropertyRow>(rows))
            },
            Err(e) => typed_outcome::<PropertyRow>(property_rows(*snap, entity_id, entity_type@), Err(e)),
        },
{
    let prefix = prefix_string(entity_id, entity_type);
    let ids = snap.ids_under_prefix(EntityKind::Property, prefix.as_str());
    let rows = rows_of_ids(snap, EntityKind::Property, ids.as_slice());
    let props = match typed_all::<PropertyRow>(rows.as_slice()) {
        Ok(v) => v,
        Err(e) => return Err(e),
    };
    let mut out: Vec<(String, String)> = Vec::new();
    let mut i: usize = 0;
    while i < props.len()
        invariant
            i <= props@.len(),
            out@.map_values(|p: (String, String)| (p.0@, p.1@)) == key_values(props@.take(i as int)),
        decreases props@.len() - i,
    {
        let ghost before = out@;
        let k = props[i].property_key.clone();
        let v = props[i].property_value.clone();
        out.push((k, v));
        proof {
            let lhs = out@.map_values(|p: (String, String)| (p.0@, p.1@));
            let rhs = key_values(props@.take(i as int + 1));
            assert(before.map_values(|p: (String, String)| (p.0@, p.1@)) == key_values(props@.take(i as int)));
            assert forall|j: int| 0 <= j < i + 1 implies lhs[j] == rhs[j] by {
                if j < i {
                    assert(out@[j] == before[j]);
                    assert(lhs[j] == before.map_values(|p: (String, String)| (p.0@, p.1@))[j]);
                    assert(rhs[j] == key_values(props@.take(i as int))[j]);
                }
            }
            assert(lhs =~= rhs);
        }
        i = i + 1;
    }
    assert(props@.take(i as int) =~= props@);
    Ok(out)
}

/// Keys in order, duplicates allowed.
pub open spec fn keys_ordered(s: Seq<(String, String)>) -> bool {
    forall|i: int, j: int| 0 <= i < j < s.len() ==> !lex_lt(s[j].0@, s[i].0@)
}

/// `a` is the upsert of the property `pair` of the given entity, under the
/// action's own id.
pub open spec fn property_upsert(a: Action, entity_id: u128, entity_type: Seq<char>, pair: (String, String)) -> bool {
    match a {
        Action::Upsert { kind, id, body } => {
            &&& kind == EntityKind::Property
            &&& match body {
                Row::Property(p) => {
                    &&& p.id == id
                    &&& p.entity_id == entity_id
                    &&& p.entity_type@ == entity_type
                    &&& p.property_key@ == pair.0@
                    &&& p.property_value@ == pair.1@
                },
                _ => false,
            }
        },
        _ => false,
    }
}

/// Whether `x` does not sort before `y`.
fn not_before(x: &str, y: &str) -> (r: bool)
    ensures
        r == !lex_lt(x@, y@),
{
    let a = chars_of(x);
    let b = chars_of(y);
    match lex_compare(a.as_slice(), b.as_slice()) {
        KeyOrder::Less => false,
        _ => true,
    }
}

/// Sort pairs by key, keeping the given order among equal keys.
fn sort_by_key(props: &[(String, String)]) -> (r: Vec<(String, String)>)
    requires
        distinct_keys(props@),
    ensures
        keys_ordered(r@),
        r@.to_multiset() == props@.to_multiset(),
        distinct_keys(r@),
{
    broadcast use vstd::seq_lib::group_to_multiset_ensures;

    let mut out: Vec<(String, String)> = Vec::new();
    let mut i: usize = 0;
    assert(props@.take(0) =~= Seq::<(String, String)>::empty());
    while i < props.len()
        invariant
            i <= props@.len(),
            keys_ordered(out@),
            out@.to_multiset() == props@.take(i as int).to_multiset(),
            distinct_keys(props@),
            distinct_keys(out@),
        decreases props@.len() - i,
    {
        let x = (props[i].0.clone(), props[i].1.clone());
        assert(x == props@[i as int]);
        let mut j: usize = 0;
        while j < out.len() && not_before(x.0.as_str(), out[j].0.as_str())
            invariant
                j <= out@.len(),
                forall|k: int| 0 <= k < j ==> !lex_lt(x.0@, #[trigger] out@[k].0@),
            decreases out@.len() - j,
        {
            j = j + 1;
        }
        let ghost o = out@;
        out.insert(j, x);
        proof {
            vstd::seq_lib::to_multiset_insert(o, j as int, x);
            assert forall|y: (String, String)| o.contains(y) implies y.0@ != x.0@ by {
                vstd::seq_lib::to_multiset_contains(o, y);
                vstd::seq_lib::to_multiset_contains(props@.take(i as int), y);
                assert(props@.take(i as int).contains(y));
                let m = choose|m: int| 0 <= m < i && props@.take(i as int)[m] == y;
                assert(props@[m] == y);
            }
            assert forall|a: int, b: int| 0 <= a < b < out@.len() implies out@[a].0@ != out@[b].0@ by {
                if a == j {
                    assert(o.contains(out@[b]) && out@[b] == o[b - 1]);
                } else if b == j {
                    assert(o.contains(out@[a]) && out@[a] == o[a]);
                } else if b < j {
                    assert(out@[a] == o[a] && out@[b] == o[b]);
                } else if a < j {
                    assert(out@[a] == o[a] && out@[b] == o[b - 1]);
                } else {
                    assert(out@[a] == o[a - 1] && out@[b] == o[b - 1]);
                }
            }
            assert(props@.take(i as int + 1) =~= props@.take(i as int).push(x));
            vstd::seq_lib::to_multiset_build(props@.take(i as int), x);
            assert forall|a: int, b: int| 0 <= a < b < out@.len() implies !lex_lt(out@[b].0@, out@[a].0@) by {
                if b < j {
                } else if b == j {
                    assert(out@[a] == o[a]);
                } else if a < j {
                    assert(out@[b] == o[b - 1]);
                } else if a == j {
                    assert(out@[b] == o[b - 1]);
                    if b - 1 > j {
                        assert(!lex_lt(o[b - 1].0@, o[j as int].0@));
                        if lex_lt(o[b - 1].0@, x.0@) {
                            lemma_lex_total(o[b - 1].0@, o[j as int].0@);
                            if o[b - 1].0@ == o[j as int].0@ {
                                lemma_lex_asymmetric(x.0@, o[j as int].0@);
                            } else {
                                lemma_lex_transitive(o[j as int].0@, o[b - 1].0@, x.0@);
                                lemma_lex_asymmetric(x.0@, o[j as int].0@);
                            }
                        }
                    } else {
                        lemma_lex_asymmetric(x.0@, o[j as int].0@);
                    }
                } else {
                    assert(out@[a] == o[a - 1]);
                    assert(out@[b] == o[b - 1]);
                }
            }
        }
        i = i + 1;
    }
    assert(props@.take(i as int) =~= props@);
    out
}

/// No key occurs twice: a property set is a map from key to value.
pub open spec fn distinct_keys(props: Seq<(String, String)>) -> bool {
    forall|i: int, j: int| 0 <= i < j < props.len() ==> props[i].0@ != props[j].0@
}

/// Replace an entity's whole property set in one commit: every existing
/// property goes and each given pair comes in, in key order so replicas
/// write the same commit, each under a fresh id.
pub fn replace(snap: &Snapshot, entity_id: u128, entity_type: &str, properties: &[(String, String)]) -> (r: Result<(Vec<Action>, ()), UcError>)
    requires
        snap.wf(),
        distinct_keys(properties@),
    ensures
        match r {
            Ok((acts, _)) => {
                exists|sorted: Seq<(String, String)>|
                    {
                        &&& keys_ordered(sorted)
                        &&& sorted.to_multiset() == properties@.to_multiset()
                        &&& distinct_keys(sorted)
                        &&& replace_plan(*snap, entity_id, entity_type@, sorted, acts@)
                    }
            },
            Err(_) => false,
        },
{
    let prefix = prefix_string(entity_id, entity_type);
    let ids = snap.ids_under_prefix(EntityKind::Property, prefix.as_str());
    let mut acts = remove_all(EntityKind::Property, ids.as_slice());
    let ghost gone = acts@;
    let sorted = sort_by_key(properties);
    let mut i: usize = 0;
    while i < sorted.len()
        invariant
            i <= sorted@.len(),
            acts@.len() == gone.len() + i,
            acts@.take(gone.len() as int) == gone,
            forall|k: int| 0 <= k < i ==> property_upsert(#[trigger] acts@[gone.len() + k], entity_id, entity_type@, sorted@[k]),
        decreases sorted@.len() - i,
    {
        let id = new_v7_id();
        let row = PropertyRow {
            id,
            entity_id,
            entity_type: entity_type.to_string(),
            property_key: sorted[i].0.clone(),
            property_value: sorted[i].1.clone(),
        };
        let ghost before = acts@;
        acts.push(Action::Upsert { kind: EntityKind::Property, id, body: Row::Property(row) });
        proof {
            assert(acts@.take(gone.len() as int) =~= before.take(gone.len() as int));
            assert forall|k: int| 0 <= k < i + 1 implies property_upsert(#[trigger] acts@[gone.len() + k], entity_id, entity_type@, sorted@[k]) by {
                if k < i {
                    assert(acts@[gone.len() + k] == before[gone.len() + k]);
                }
            }
        }
        i = i + 1;
    }
    assert(replace_plan(*snap, entity_id, entity_type@, sorted@, acts@));
    Ok((acts, ()))
}

/// Drop all of an entity's properties in one commit.
pub fn delete_for_entity(snap: &Snapshot, entity_id: u128, entity_type: &str) -> (r: Result<(Vec<Action>, ()), UcError>)
    requires
        snap.wf(),
    ensures
        commits(r, removals(EntityKind::Property, property_ids(*snap, entity_id, entity_type@)), ()),
{
    let prefix = prefix_string(entity_id, entity_type);
    let ids = snap.ids_under_prefix(EntityKind::Property, prefix.as_str());
    Ok((remove_all(EntityKind::Property, ids.as_slice()), ()))
}

/// Set one property, keeping the id of the row it replaces (a new key gets
/// a fresh id), so the log shows a value change rather than a delete and an
/// insert.
pub fn set(snap: &Snapshot, entity_id: u128, entity_type: &str, key: &str, value: &str) -> (r: Result<(Vec<Action>, ()), UcError>)
    requires
        snap.wf(),
    ensures
        ({
            let k = (EntityKind::Property, property_prefix(entity_id, entity_type@) + key@);
            let pair_ok = |a: Action|
                match a {
                    Action::Upsert { kind, id, body } => kind == EntityKind::Property && match body {
                        Row::Property(p) => p.id == id && p.entity_id == entity_id && p.entity_type@ == entity_type@
                            && p.property_key@ == key@ && p.property_value@ == value@,
                        _ => false,
                    },
                    _ => false,
                };
            if snap.index().contains_key(k) {
                let row = snap.rows()[(EntityKind::Property, snap.index()[k])];
                match PropertyRow::of_row(row) {
                    None => fails_typed::<PropertyRow, _>(r, row),
                    Some(cur) => match r {
                        Ok((acts, _)) => acts@.len() == 1 && pair_ok(acts@[0]) && acts@[0]->Upsert_id == cur.id,
                        Err(_) => false,
                    },
                }
            } else {
                match r {
                    Ok((acts, _)) => acts@.len() == 1 && pair_ok(acts@[0]),
                    Err(_) => false,
                }
            }
        }),
{
    let natural = key_string(entity_id, entity_type, key);
    let id = match snap.get_by_natural_key(EntityKind::Property, natural.as_str()) {
        Some(existing) => match PropertyRow::from_row(existing) {
            Ok(p) => p.id,
            Err(e) => return Err(e),
        },
        None => new_v7_id(),
    };
    let row = PropertyRow {
        id,
        entity_id,
        entity_type: entity_type.to_string(),
        property_key: key.to_string(),
        property_value: value.to_string(),
    };
    Ok((single(Action::Upsert { kind: EntityKind::Property, id, body: Row::Property(row) }), ()))
}

/// Drop one property by key. An absent key is no error and commits nothing.
pub fn delete_key(snap: &Snapshot, entity_id: u128, entity_type: &str, key: &str) -> (r: Result<(Vec<Action>, ()), UcError>)
    requires
        snap.wf(),
    ensures
        ({
            let k = (EntityKind::Property, property_prefix(entity_id, entity_type@) + key@);
            if snap.index().contains_key(k) {
                let row = snap.rows()[(EntityKind::Property, snap.index()[k])];
                match PropertyRow::of_row(row) {
                    None => fails_typed::<PropertyRow, _>(r, row),
                    Some(cur) => commits(r, seq![Action::Remove { kind: EntityKind::Property, id: cur.id }], ()),
                }
            } else {
                commits(r, Seq::empty(), ())
            }
        }),
{
    let natural = key_string(entity_id, entity_type, key);
    match snap.get_by_natural_key(EntityKind::Property, natural.as_str()) {
        None => Ok((Vec::new(), ())),
        Some(existing) => match PropertyRow::from_row(existing) {
            Ok(p) => Ok((single(Action::Remove { kind: EntityKind::Property, id: p.id }), ())),
            Err(e) => Err(e),
        },
    }
}

/// The actions `replace` plans: removal of the entity's current properties,
/// then an upsert per given pair, in the given order.
pub open spec fn replace_plan(
    snap: Snapshot,
    entity_id: u128,
    entity_type: Seq<char>,
    sorted: Seq<(String, String)>,
    acts: Seq<Action>,
) -> bool {
    let gone = removals(EntityKind::Property, property_ids(snap, entity_id, entity_type));
    &&& acts.len() == gone.len() + sorted.len()
    &&& acts.take(gone.len() as int) == gone
    &&& forall|k: int| 0 <= k < sorted.len() ==> property_upsert(#[trigger] acts[gone.len() + k], entity_id, entity_type, sorted[k])
}

/// The id the `k`-th upsert of a replace plan writes under.
pub open spec fn plan_id(snap: Snapshot, entity_id: u128, entity_type: Seq<char>, acts: Seq<Action>, k: int) -> u128 {
    acts[property_ids(snap, entity_id, entity_type).len() + k]->Upsert_id
}

/// Replacing a property set leaves exactly the given set: once the plan is
/// applied, the entity's keys are exactly the given keys, each naming the row
/// written for it, while every other natural key, and every row of another
/// kind, is as it was. This holds when the new rows' ids are fresh (not
/// already in use and not repeated), which time-ordered ids are meant to be.
pub proof fn lemma_replace_sets_exactly(
    snap: Snapshot,
    entity_id: u128,
    entity_type: Seq<char>,
    sorted: Seq<(String, String)>,
    acts: Seq<Action>,
)
    requires
        snap.wf(),
        distinct_keys(sorted),
        replace_plan(snap, entity_id, entity_type, sorted, acts),
        forall|k: int|
            0 <= k < sorted.len() ==> !snap.rows().contains_key(
                (EntityKind::Property, #[trigger] plan_id(snap, entity_id, entity_type, acts, k)),
            ),
        forall|k: int, l: int|
            0 <= k < l < sorted.len() ==> #[trigger] plan_id(snap, entity_id, entity_type, acts, k) != #[trigger] plan_id(
                snap,
                entity_id,
                entity_type,
                acts,
                l,
            ),
    ensures
        ({
            let p = property_prefix(entity_id, entity_type);
            let rows2 = apply_all_rows(snap.rows(), acts);
            let idx2 = apply_all_index(snap.rows(), snap.index(), acts);
            &&& forall|kk: (EntityKind, Seq<char>)|
                kk.0 == EntityKind::Property && starts_with(kk.1, p) ==> (#[trigger] idx2.contains_key(kk) <==> exists|k: int|
                    0 <= k < sorted.len() && kk.1 == p + sorted[k].0@)
            &&& forall|k: int|
                0 <= k < sorted.len() ==> idx2[(EntityKind::Property, p + (#[trigger] sorted[k]).0@)] == plan_id(
                    snap,
                    entity_id,
                    entity_type,
                    acts,
                    k,
                ) && rows2[(EntityKind::Property, plan_id(snap, entity_id, entity_type, acts, k))]
                    == acts[property_ids(snap, entity_id, entity_type).len() + k]->Upsert_body
            &&& forall|kk: (EntityKind, Seq<char>)|
                !(kk.0 == EntityKind::Property && starts_with(kk.1, p)) ==> (#[trigger] idx2.contains_key(kk)
                    <==> snap.index().contains_key(kk)) && (snap.index().contains_key(kk) ==> idx2[kk] == snap.index()[kk])
            &&& forall|key: (EntityKind, u128)|
                key.0 != EntityKind::Property ==> (#[trigger] rows2.contains_key(key) <==> snap.rows().contains_key(key))
                    && (snap.rows().contains_key(key) ==> rows2[key] == snap.rows()[key])
        }),
{
    let p = property_prefix(entity_id, entity_type);
    let rows = snap.rows();
    let index = snap.index();
    let entries = snap.index_entries();
    let ids = property_ids(snap, entity_id, entity_type);
    let g = ids.len() as int;
    snap.lemma_entries_describe_index();
    snap.lemma_index_entries_sorted();
    snap.lemma_index_sound();
    // The removed ids are present rows whose natural keys lie under the prefix.
    assert forall|j: int| 0 <= j < ids.len() implies rows.contains_key((EntityKind::Property, #[trigger] ids[j]))
        && (natural_key_of(rows[(EntityKind::Property, ids[j])]) matches Some(k) && starts_with(k, p)) by {
        crate::store::lemma_select_ids_from_entries(entries, EntityKind::Property, p, None, j);
        let i = choose|i: int|
            0 <= i < entries.len() && entries[i].0 == EntityKind::Property && entries[i].2 == ids[j] && crate::store::entry_matches(
                entries[i],
                EntityKind::Property,
                p,
                None,
            );
        let kk = (entries[i].0, entries[i].1);
        assert(index.contains_key(kk) && index[kk] == ids[j]);
    }
    // They are distinct.
    assert forall|i: int, j: int|
        0 <= i < j < entries.len() && crate::store::entry_matches(#[trigger] entries[i], EntityKind::Property, p, None)
            && crate::store::entry_matches(#[trigger] entries[j], EntityKind::Property, p, None) implies entries[i].2
        != entries[j].2 by {
        let ki = (entries[i].0, entries[i].1);
        let kj = (entries[j].0, entries[j].1);
        assert(index.contains_key(ki) && index[ki] == entries[i].2);
        assert(index.contains_key(kj) && index[kj] == entries[j].2);
        if entries[i].2 == entries[j].2 {
            assert(natural_key_of(rows[(EntityKind::Property, entries[i].2)]) == Some(ki.1));
            assert(natural_key_of(rows[(EntityKind::Property, entries[j].2)]) == Some(kj.1));
            assert(crate::store::key_lt(ki, kj));
            lemma_lex_irreflexive(ki.1);
        }
    }
    crate::store::lemma_select_ids_distinct(entries, EntityKind::Property, p, None);
    // Every key under the prefix names one of them.
    assert forall|kk: (EntityKind, Seq<char>)|
        #[trigger] index.contains_key(kk) && kk.0 == EntityKind::Property && starts_with(kk.1, p) implies ids.contains(
        index[kk],
    ) by {
        let i = choose|i: int| 0 <= i < entries.len() && entries[i].0 == kk.0 && entries[i].1 == kk.1;
        assert(index[(entries[i].0, entries[i].1)] == entries[i].2);
        crate::store::lemma_select_ids_complete(entries, EntityKind::Property, p, None, i);
    }
    // Removal.
    let gone = removals(EntityKind::Property, ids);
    crate::store::lemma_remove_all_effect(rows, index, EntityKind::Property, ids);
    let rows1 = apply_all_rows(rows, gone);
    let idx1 = apply_all_index(rows, index, gone);
    assert forall|kk: (EntityKind, Seq<char>)| kk.0 == EntityKind::Property && starts_with(kk.1, p) implies !#[trigger] idx1.contains_key(
        kk,
    ) by {
        if index.contains_key(kk) {
            let j = choose|j: int| 0 <= j < ids.len() && ids[j] == index[kk];
            assert(natural_key_of(rows[(EntityKind::Property, ids[j])]) == Some(kk.1));
            assert(crate::store::dropped_by(rows, EntityKind::Property, ids, kk));
        }
    }
    assert forall|kk: (EntityKind, Seq<char>)| !(kk.0 == EntityKind::Property && starts_with(kk.1, p)) implies (
    #[trigger] idx1.contains_key(kk) <==> index.contains_key(kk)) && (index.contains_key(kk) ==> idx1[kk] == index[kk]) by {
        if crate::store::dropped_by(rows, EntityKind::Property, ids, kk) {
            let j = choose|j: int| 0 <= j < ids.len() && natural_key_of(rows[(EntityKind::Property, ids[j])]) == Some(kk.1);
            assert(rows.contains_key((EntityKind::Property, ids[j])) && (natural_key_of(
                rows[(EntityKind::Property, ids[j])],
            ) matches Some(k) && starts_with(k, p)));
            assert(starts_with(kk.1, p));
        }
        if index.contains_key(kk) && !crate::store::dropped_by(rows, EntityKind::Property, ids, kk) {
            assert(idx1.contains_key(kk));
        }
    }
    // Upserts.
    let ups = acts.skip(g);
    let uids = Seq::new(sorted.len(), |k: int| acts[g + k]->Upsert_id);
    let bodies = Seq::new(sorted.len(), |k: int| acts[g + k]->Upsert_body);
    let keys = Seq::new(sorted.len(), |k: int| p + sorted[k].0@);
    assert forall|k: int| 0 <= k < sorted.len() implies natural_key_of(#[trigger] bodies[k]) == Some(keys[k]) by {
        assert(property_upsert(acts[g + k], entity_id, entity_type, sorted[k]));
        match bodies[k] {
            Row::Property(r) => {
                assert(uuid_text(r.entity_id) + sep() + r.entity_type@ + sep() + r.property_key@ =~= p + sorted[k].0@);
            },
            _ => {},
        }
    }
    assert(ups =~= crate::store::upserts_at(EntityKind::Property, uids, bodies)) by {
        assert forall|k: int| 0 <= k < ups.len() implies ups[k] == crate::store::upserts_at(EntityKind::Property, uids, bodies)[k] by {
            assert(property_upsert(acts[g + k], entity_id, entity_type, sorted[k]));
        }
    }
    assert forall|k: int, l: int| 0 <= k < l < keys.len() implies keys[k] != keys[l] by {
        if keys[k] == keys[l] {
            assert(keys[k].subrange(p.len() as int, keys[k].len() as int) =~= sorted[k].0@);
            assert(keys[l].subrange(p.len() as int, keys[l].len() as int) =~= sorted[l].0@);
        }
    }
    assert forall|k: int, l: int| 0 <= k < l < uids.len() implies uids[k] != uids[l] by {
        assert(uids[k] == plan_id(snap, entity_id, entity_type, acts, k));
        assert(uids[l] == plan_id(snap, entity_id, entity_type, acts, l));
    }
    assert forall|k: int| 0 <= k < uids.len() implies !rows1.contains_key((EntityKind::Property, #[trigger] uids[k])) by {
        assert(uids[k] == plan_id(snap, entity_id, entity_type, acts, k));
    }
    crate::store::lemma_upsert_fresh_effect(rows1, idx1, EntityKind::Property, uids, bodies, keys);
    assert(acts =~= gone + ups);
    crate::store::lemma_apply_all_concat(rows, index, gone, ups);
    let rows2 = apply_all_rows(snap.rows(), acts);
    let idx2 = apply_all_index(snap.rows(), snap.index(), acts);
    assert forall|k: int| 0 <= k < keys.len() implies starts_with(#[trigger] keys[k], p) by {
        assert(keys[k].subrange(0, p.len() as int) =~= p);
    }
    assert forall|kk: (EntityKind, Seq<char>)| kk.0 == EntityKind::Property && starts_with(kk.1, p) implies (#[trigger] idx2.contains_key(
        kk,
    ) <==> exists|k: int| 0 <= k < sorted.len() && kk.1 == p + sorted[k].0@) by {
        if exists|k: int| 0 <= k < sorted.len() && kk.1 == p + sorted[k].0@ {
            let k = choose|k: int| 0 <= k < sorted.len() && kk.1 == p + sorted[k].0@;
            assert(keys[k] == kk.1);
        }
        if keys.contains(kk.1) {
            let k = choose|k: int| 0 <= k < keys.len() && keys[k] == kk.1;
            assert(kk.1 == p + sorted[k].0@);
        }
    }
    assert forall|k: int| 0 <= k < sorted.len() implies idx2[(EntityKind::Property, p + (#[trigger] sorted[k]).0@)]
        == plan_id(snap, entity_id, entity_type, acts, k) && rows2[(EntityKind::Property, plan_id(snap, entity_id, entity_type, acts, k))]
        == acts[g + k]->Upsert_body by {
        assert(keys[k] == p + sorted[k].0@);
        assert(uids[k] == plan_id(snap, entity_id, entity_type, acts, k));
    }
    assert forall|kk: (EntityKind, Seq<char>)| !(kk.0 == EntityKind::Property && starts_with(kk.1, p)) implies (
    #[trigger] idx2.contains_key(kk) <==> snap.index().contains_key(kk)) && (snap.index().contains_key(kk) ==> idx2[kk]
        == snap.index()[kk]) by {
        if kk.0 == EntityKind::Property && keys.contains(kk.1) {
            let k = choose|k: int| 0 <= k < keys.len() && keys[k] == kk.1;
        }
    }
    assert forall|key: (EntityKind, u128)| key.0 != EntityKind::Property implies (#[trigger] rows2.contains_key(key)
        <==> snap.rows().contains_key(key)) && (snap.rows().contains_key(key) ==> rows2[key] == snap.rows()[key]) by {
    }
}

} // verus!
