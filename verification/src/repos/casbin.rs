//! Authorization policy rules, unique by the whole rule.

use crate::errors::UcError;
use crate::ids::new_v7_id;
use crate::models::casbin::CasbinRule;
use crate::repos::{commits, remove_all, removals, single, typed_all, typed_outcome};
use crate::store::action::{Action, EntityKind};
use crate::store::row::{natural_key_chars, natural_key_of, Row};
use crate::store::{rows_for, Snapshot};
use crate::text::{chars_eq, string_of};
use vstd::prelude::*;

verus! {

/// The natural key of a rule: its type and six values joined by NUL.
pub open spec fn rule_key(rule: CasbinRule) -> Seq<char> {
    natural_key_of(Row::CasbinRule(rule))->0
}

fn rule_key_chars(rule: &CasbinRule) -> (k: Vec<char>)
    ensures
        k@ == rule_key(*rule),
{
    match natural_key_chars(&Row::CasbinRule(rule.clone())) {
        Some(k) => k,
        None => {
            assert(false);
            Vec::new()
        },
    }
}

/// The stored rules, in id order, which for time-ordered ids is insertion
/// order.
pub open spec fn all_rules(snap: Snapshot) -> Seq<Row> {
    rows_for(snap.rows(), EntityKind::CasbinRule, snap.kind_ids(EntityKind::CasbinRule))
}

/// Every rule, in insertion order.
pub fn load_all(snap: &Snapshot) -> (r: Result<Vec<CasbinRule>, UcError>)
    requires
        snap.wf(),
    ensures
        typed_outcome::<CasbinRule>(all_rules(*snap), r),
{
    let rows = snap.iter(EntityKind::CasbinRule);
    typed_all::<CasbinRule>(rows.as_slice())
}

/// Whether a write produced exactly one upsert of a rule holding `rule`.
pub open spec fn adds_rule(acts: Seq<Action>, rule: CasbinRule) -> bool {
    acts.len() == 1 && match acts[0] {
        Action::Upsert { kind, body, .. } => kind == EntityKind::CasbinRule && body == Row::CasbinRule(rule),
        _ => false,
    }
}

/// Add a rule under a fresh id; an existing rule is left alone and nothing
/// is committed. Returns whether the rule was added.
pub fn insert(snap: &Snapshot, rule: &CasbinRule) -> (r: Result<(Vec<Action>, bool), UcError>)
    requires
        snap.wf(),
    ensures
        match r {
            Ok((acts, added)) => {
                &&& added == !snap.index().contains_key((EntityKind::CasbinRule, rule_key(*rule)))
                &&& added ==> adds_rule(acts@, *rule)
                &&& !added ==> acts@.len() == 0
            },
            Err(_) => false,
        },
{
    let key = string_of(rule_key_chars(rule).as_slice());
    if snap.id_by_natural_key(EntityKind::CasbinRule, key.as_str()).is_some() {
        return Ok((Vec::new(), false));
    }
    Ok((single(Action::Upsert { kind: EntityKind::CasbinRule, id: new_v7_id(), body: Row::CasbinRule(rule.clone()) }), true))
}

/// Remove a rule. Returns whether it existed.
pub fn delete(snap: &Snapshot, rule: &CasbinRule) -> (r: Result<(Vec<Action>, bool), UcError>)
    requires
        snap.wf(),
    ensures
        ({
            let k = (EntityKind::CasbinRule, rule_key(*rule));
            if snap.index().contains_key(k) {
                commits(r, seq![Action::Remove { kind: EntityKind::CasbinRule, id: snap.index()[k] }], true)
            } else {
                commits(r, Seq::empty(), false)
            }
        }),
{
    let key = string_of(rule_key_chars(rule).as_slice());
    match snap.id_by_natural_key(EntityKind::CasbinRule, key.as_str()) {
        Some(id) => Ok((single(Action::Remove { kind: EntityKind::CasbinRule, id }), true)),
        None => Ok((Vec::new(), false)),
    }
}

/// The removals of those of `rules` that are stored, in order.
pub open spec fn stored_removals(snap: Snapshot, rules: Seq<CasbinRule>) -> Seq<Action>
    decreases rules.len(),
{
    if rules.len() == 0 {
        Seq::empty()
    } else {
        let init = stored_removals(snap, rules.drop_last());
        let k = (EntityKind::CasbinRule, rule_key(rules.last()));
        if snap.index().contains_key(k) {
            init.push(Action::Remove { kind: EntityKind::CasbinRule, id: snap.index()[k] })
        } else {
            init
        }
    }
}

/// Remove a batch of rules in one commit, so a filtered removal is all or
/// nothing. Returns whether any was removed.
pub fn delete_many(snap: &Snapshot, rules: &[CasbinRule]) -> (r: Result<(Vec<Action>, bool), UcError>)
    requires
        snap.wf(),
    ensures
        commits(r, stored_removals(*snap, rules@), stored_removals(*snap, rules@).len() > 0),
{
    let mut acts: Vec<Action> = Vec::new();
    let mut i: usize = 0;
    while i < rules.len()
        invariant
            snap.wf(),
            i <= rules@.len(),
            acts@ == stored_removals(*snap, rules@.take(i as int)),
        decreases rules@.len() - i,
    {
        proof {
            assert(rules@.take(i as int + 1).drop_last() =~= rules@.take(i as int));
            assert(rules@.take(i as int + 1).last() == rules@[i as int]);
        }
        let key = string_of(rule_key_chars(&rules[i]).as_slice());
        match snap.id_by_natural_key(EntityKind::CasbinRule, key.as_str()) {
            Some(id) => {
                acts.push(Action::Remove { kind: EntityKind::CasbinRule, id });
            },
            None => {},
        }
        i = i + 1;
    }
    assert(rules@.take(i as int) =~= rules@);
    let any = acts.len() > 0;
    Ok((acts, any))
}

/// The rules among `rules` whose key no earlier rule has, in order.
pub open spec fn distinct_rules(rules: Seq<CasbinRule>) -> Seq<CasbinRule>
    decreases rules.len(),
{
    if rules.len() == 0 {
        Seq::empty()
    } else {
        let init = distinct_rules(rules.drop_last());
        if exists|j: int| 0 <= j < rules.len() - 1 && rule_key(#[trigger] rules[j]) == rule_key(rules.last()) {
            init
        } else {
            init.push(rules.last())
        }
    }
}

/// The ids of the stored rules, in id order.
fn rule_ids(snap: &Snapshot) -> (r: Vec<u128>)
    requires
        snap.wf(),
    ensures
        r@ == snap.kind_ids(EntityKind::CasbinRule),
{
    let pairs = snap.iter_by_id(EntityKind::CasbinRule);
    let mut out: Vec<u128> = Vec::new();
    let mut i: usize = 0;
    while i < pairs.len()
        invariant
            i <= pairs@.len(),
            out@ == pairs@.take(i as int).map_values(|p: (u128, &Row)| p.0),
        decreases pairs@.len() - i,
    {
        out.push(pairs[i].0);
        proof {
            assert(out@ =~= pairs@.take(i as int + 1).map_values(|p: (u128, &Row)| p.0));
        }
        i = i + 1;
    }
    assert(pairs@.take(i as int) =~= pairs@);
    out
}

/// Replace the whole policy in one commit, so no reader sees a moment with
/// no policy: every stored rule goes, then each given rule comes in under a
/// fresh id, a rule repeated in the input only once.
pub fn replace_all(snap: &Snapshot, rules: &[CasbinRule]) -> (r: Result<(Vec<Action>, ()), UcError>)
    requires
        snap.wf(),
    ensures
        match r {
            Ok((acts, _)) => {
                let gone = removals(EntityKind::CasbinRule, snap.kind_ids(EntityKind::CasbinRule));
                let kept = distinct_rules(rules@);
                &&& acts@.len() == gone.len() + kept.len()
                &&& acts@.take(gone.len() as int) == gone
                &&& forall|k: int| 0 <= k < kept.len() ==> adds_rule(seq![#[trigger] acts@[gone.len() + k]], kept[k])
            },
            Err(_) => false,
        },
{
    let ids = rule_ids(snap);
    let mut acts = remove_all(EntityKind::CasbinRule, ids.as_slice());
    let ghost gone = acts@;
    let mut seen: Vec<Vec<char>> = Vec::new();
    let mut i: usize = 0;
    assert(rules@.take(0) =~= Seq::<CasbinRule>::empty());
    while i < rules.len()
        invariant
            i <= rules@.len(),
            acts@.len() == gone.len() + distinct_rules(rules@.take(i as int)).len(),
            acts@.take(gone.len() as int) == gone,
            forall|k: int| 0 <= k < distinct_rules(rules@.take(i as int)).len() ==> adds_rule(
                seq![#[trigger] acts@[gone.len() + k]],
                distinct_rules(rules@.take(i as int))[k],
            ),
            seen@.len() == i,
            forall|j: int| 0 <= j < i ==> (#[trigger] seen@[j])@ == rule_key(rules@[j]),
        decreases rules@.len() - i,
    {
        let key = rule_key_chars(&rules[i]);
        let mut dup = false;
        let mut j: usize = 0;
        while j < seen.len()
            invariant
                j <= seen@.len(),
                seen@.len() == i,
                i < rules@.len(),
                key@ == rule_key(rules@[i as int]),
                forall|m: int| 0 <= m < i ==> (#[trigger] seen@[m])@ == rule_key(rules@[m]),
                dup == exists|m: int| 0 <= m < j && rule_key(#[trigger] rules@[m]) == rule_key(rules@[i as int]),
            decreases seen@.len() - j,
        {
            let eq = chars_eq(seen[j].as_slice(), key.as_slice());
            if eq {
                dup = true;
            }
            proof {
                if eq {
                    assert(rule_key(rules@[j as int]) == rule_key(rules@[i as int]));
                } else {
                    assert(rule_key(rules@[j as int]) != rule_key(rules@[i as int]));
                }
            }
            j = j + 1;
        }
        let ghost take1 = rules@.take(i as int + 1);
        proof {
            assert(take1.drop_last() =~= rules@.take(i as int));
            assert(take1.last() == rules@[i as int]);
            assert((exists|m: int| 0 <= m < take1.len() - 1 && rule_key(#[trigger] take1[m]) == rule_key(take1.last())) == dup) by {
                if dup {
                    let m = choose|m: int| 0 <= m < i && rule_key(#[trigger] rules@[m]) == rule_key(rules@[i as int]);
                    assert(take1[m] == rules@[m]);
                }
                if exists|m: int| 0 <= m < take1.len() - 1 && rule_key(#[trigger] take1[m]) == rule_key(take1.last()) {
                    let m = choose|m: int| 0 <= m < take1.len() - 1 && rule_key(#[trigger] take1[m]) == rule_key(take1.last());
                    assert(take1[m] == rules@[m]);
                }
            }
        }
        if !dup {
            let ghost before = acts@;
            acts.push(Action::Upsert { kind: EntityKind::CasbinRule, id: new_v7_id(), body: Row::CasbinRule(rules[i].clone()) });
            proof {
                let d = distinct_rules(take1);
                assert(d == distinct_rules(rules@.take(i as int)).push(rules@[i as int]));
                assert(acts@.take(gone.len() as int) =~= before.take(gone.len() as int));
                assert forall|k: int| 0 <= k < d.len() implies adds_rule(seq![#[trigger] acts@[gone.len() + k]], d[k]) by {
                    if k < d.len() - 1 {
                        assert(acts@[gone.len() + k] == before[gone.len() + k]);
                    }
                }
            }
        }
        seen.push(key);
        i = i + 1;
    }
    assert(rules@.take(i as int) =~= rules@);
    Ok((acts, ()))
}

/// Remove every rule in one commit.
pub fn clear(snap: &Snapshot) -> (r: Result<(Vec<Action>, ()), UcError>)
    requires
        snap.wf(),
    ensures
        commits(r, removals(EntityKind::CasbinRule, snap.kind_ids(EntityKind::CasbinRule)), ()),
{
    let ids = rule_ids(snap);
    Ok((remove_all(EntityKind::CasbinRule, ids.as_slice()), ()))
}

} // verus!
