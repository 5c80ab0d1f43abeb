//! Registered models, unique by `(schema_id, name)`, and their versions,
//! which carry no uniqueness and are found by scanning.

use crate::errors::{ErrorCode, UcError};
use crate::models::model::{ModelVersionRow, RegisteredModelRow};
use crate::pagination::over_fetch;
use crate::repos::{
    all_typed, child_key, child_key_string, child_prefix, child_prefix_string, coalesced, commits,
    fails_typed, fails_with, fetched, listing, named_error, own_opt, page_typed, remove_all,
    removals, single, str_opt, string_opt, typed_all, typed_by_key, typed_one, typed_outcome,
    typed_seq, upserted_row, upserts_once, Stored,
};
use crate::store::action::{Action, EntityKind};
use crate::store::row::Row;
use crate::store::{rows_for, Snapshot};
use crate::text::{append_chars, chars_of, signed_decimal_chars, signed_decimal_of, str_eq, string_of};
use vstd::prelude::*;

verus! {

/// Create a registered model; its `(schema_id, name)` must be free.
pub fn create_model(snap: &Snapshot, row: &RegisteredModelRow) -> (r: Result<(Vec<Action>, RegisteredModelRow), UcError>)
    requires
        snap.wf(),
    ensures
        snap.index().contains_key((EntityKind::RegisteredModel, child_key(row.schema_id, row.name@)))
            ==> fails_with(r, ErrorCode::ResourceAlreadyExists, "Model"@, row.name@, "already exists"@),
        !snap.index().contains_key((EntityKind::RegisteredModel, child_key(row.schema_id, row.name@)))
            ==> commits(
            r,
            seq![Action::Upsert { kind: EntityKind::RegisteredModel, id: row.id, body: Row::RegisteredModel(*row) }],
            *row,
        ),
{
    let key = child_key_string(row.schema_id, row.name.as_str());
    if snap.id_by_natural_key(EntityKind::RegisteredModel, key.as_str()).is_some() {
        return Err(named_error(ErrorCode::ResourceAlreadyExists, "Model", row.name.as_str(), "already exists"));
    }
    Ok((
        single(Action::Upsert { kind: EntityKind::RegisteredModel, id: row.id, body: Row::RegisteredModel(row.clone()) }),
        row.clone(),
    ))
}

pub fn get_model_by_schema_and_name(snap: &Snapshot, schema_id: u128, name: &str) -> (r: Result<RegisteredModelRow, UcError>)
    requires
        snap.wf(),
    ensures
        ({
            let k = (EntityKind::RegisteredModel, child_key(schema_id, name@));
            &&& snap.index().contains_key(k) ==> typed_one::<RegisteredModelRow>(
                snap.rows()[(EntityKind::RegisteredModel, snap.index()[k])],
                r,
            )
            &&& !snap.index().contains_key(k) ==> fails_with(r, ErrorCode::NotFound, "Model"@, name@, "not found"@)
        }),
{
    let key = child_key_string(schema_id, name);
    typed_by_key::<RegisteredModelRow>(snap, EntityKind::RegisteredModel, key.as_str(), ErrorCode::NotFound, "Model", name)
}

/// One page of a schema's models in name order, after `page_token`.
pub fn list_models(snap: &Snapshot, schema_id: u128, page_token: Option<&str>, max_results: i64) -> (r: Result<(Vec<RegisteredModelRow>, Option<String>), UcError>)
    requires
        snap.wf(),
    ensures
        listing::<RegisteredModelRow>(
            fetched(*snap, EntityKind::RegisteredModel, child_prefix(schema_id), str_opt(page_token), max_results),
            max_results,
            r,
        ),
{
    let prefix = child_prefix_string(schema_id);
    let found = snap.scan_prefix(EntityKind::RegisteredModel, prefix.as_str(), page_token, over_fetch(max_results));
    page_typed::<RegisteredModelRow>(found, max_results)
}

/// Record a model version. Versions carry no uniqueness, so nothing is
/// checked.
pub fn create_version(row: &ModelVersionRow) -> (r: Result<(Vec<Action>, ModelVersionRow), UcError>)
    ensures
        commits(r, seq![Action::Upsert { kind: EntityKind::ModelVersion, id: row.id, body: Row::ModelVersion(*row) }], *row),
{
    Ok((single(Action::Upsert { kind: EntityKind::ModelVersion, id: row.id, body: Row::ModelVersion(row.clone()) }), row.clone()))
}

/// `a` sorts before `b`: a missing version first, then by version.
pub open spec fn version_lt(a: Option<i32>, b: Option<i32>) -> bool {
    match (a, b) {
        (None, Some(_)) => true,
        (Some(x), Some(y)) => x < y,
        _ => false,
    }
}

/// Version order: by version number, then by id.
pub open spec fn version_le(a: ModelVersionRow, b: ModelVersionRow) -> bool {
    version_lt(a.version, b.version) || (a.version == b.version && a.id <= b.id)
}

fn version_le_exec(a: &ModelVersionRow, b: &ModelVersionRow) -> (r: bool)
    ensures
        r == version_le(*a, *b),
{
    let lt = match (a.version, b.version) {
        (None, Some(_)) => true,
        (Some(x), Some(y)) => x < y,
        _ => false,
    };
    lt || (a.version == b.version && a.id <= b.id)
}

/// The versions among `s` that belong to model `model_id`, in order.
pub open spec fn versions_for(s: Seq<ModelVersionRow>, model_id: u128) -> Seq<ModelVersionRow>
    decreases s.len(),
{
    if s.len() == 0 {
        Seq::empty()
    } else {
        let init = versions_for(s.drop_last(), model_id);
        if s.last().registered_model_id == model_id {
            init.push(s.last())
        } else {
            init
        }
    }
}

/// In version order.
pub open spec fn versions_sorted(s: Seq<ModelVersionRow>) -> bool {
    forall|i: int, j: int| 0 <= i < j < s.len() ==> version_le(s[i], s[j])
}

/// The stored model versions, in id order.
pub open spec fn all_versions(snap: Snapshot) -> Seq<Row> {
    rows_for(snap.rows(), EntityKind::ModelVersion, snap.kind_ids(EntityKind::ModelVersion))
}

/// How gathering a model's versions turns out: all of them, in version
/// order.
pub open spec fn versions_outcome(snap: Snapshot, model_id: u128, r: Result<Vec<ModelVersionRow>, UcError>) -> bool {
    match r {
        Ok(v) => {
            &&& all_typed::<ModelVersionRow>(all_versions(snap))
            &&& versions_sorted(v@)
            &&& v@.to_multiset() == versions_for(typed_seq::<ModelVersionRow>(all_versions(snap)), model_id).to_multiset()
        },
        Err(e) => typed_outcome::<ModelVersionRow>(all_versions(snap), Err(e)),
    }
}

/// The versions of model `model_id`, ordered by version and then id.
pub fn list_versions(snap: &Snapshot, model_id: u128) -> (r: Result<Vec<ModelVersionRow>, UcError>)
    requires
        snap.wf(),
    ensures
        versions_outcome(*snap, model_id, r),
{
    broadcast use vstd::seq_lib::group_to_multiset_ensures;

    let rows = snap.iter(EntityKind::ModelVersion);
    let all = match typed_all::<ModelVersionRow>(rows.as_slice()) {
        Ok(v) => v,
        Err(e) => return Err(e),
    };
    let mut out: Vec<ModelVersionRow> = Vec::new();
    let mut i: usize = 0;
    assert(all@.take(0) =~= Seq::<ModelVersionRow>::empty());
    while i < all.len()
        invariant
            i <= all@.len(),
            versions_sorted(out@),
            out@.to_multiset() == versions_for(all@.take(i as int), model_id).to_multiset(),
        decreases all@.len() - i,
    {
        proof {
            assert(all@.take(i as int + 1).drop_last() =~= all@.take(i as int));
            assert(all@.take(i as int + 1).last() == all@[i as int]);
        }
        if all[i].registered_model_id == model_id {
            let x = all[i].clone();
            let mut j: usize = 0;
            while j < out.len() && version_le_exec(&out[j], &x)
                invariant
                    j <= out@.len(),
                    forall|k: int| 0 <= k < j ==> version_le(out@[k], x),
                decreases out@.len() - j,
            {
                j = j + 1;
            }
            let ghost o = out@;
            out.insert(j, x);
            proof {
                vstd::seq_lib::to_multiset_insert(o, j as int, x);
                vstd::seq_lib::to_multiset_build(versions_for(all@.take(i as int), model_id), x);
                assert forall|a: int, b: int| 0 <= a < b < out@.len() implies version_le(out@[a], out@[b]) by {
                    if b < j {
                    } else if b == j {
                        assert(out@[a] == o[a]);
                    } else if a < j {
                        assert(out@[b] == o[b - 1]);
                        assert(version_le(o[a], o[b - 1]));
                    } else if a == j {
                        assert(out@[b] == o[b - 1]);
                        assert(!version_le(o[j as int], x));
                        if b - 1 > j {
                            assert(version_le(o[j as int], o[b - 1]));
                        }
                    } else {
                        assert(out@[a] == o[a - 1]);
                        assert(out@[b] == o[b - 1]);
                    }
                }
            }
        }
        i = i + 1;
    }
    assert(all@.take(i as int) =~= all@);
    Ok(out)
}

/// The message for a missing model version.
pub open spec fn version_missing_message(version: i32) -> Seq<char> {
    "Model version "@ + signed_decimal_of(version as int) + " not found"@
}

/// The version numbered `version` of model `model_id`: the first in version
/// order.
pub fn get_version(snap: &Snapshot, model_id: u128, version: i32) -> (r: Result<ModelVersionRow, UcError>)
    requires
        snap.wf(),
    ensures
        ({
            let all = typed_seq::<ModelVersionRow>(all_versions(*snap));
            let mine = versions_for(all, model_id);
            match r {
                Ok(v) => {
                    &&& all_typed::<ModelVersionRow>(all_versions(*snap))
                    &&& mine.contains(v)
                    &&& v.version == Some(version)
                    &&& forall|j: int| 0 <= j < mine.len() && (#[trigger] mine[j]).version == Some(version) ==> version_le(v, mine[j])
                },
                Err(e) => {
                    ||| typed_outcome::<ModelVersionRow>(all_versions(*snap), Err(e))
                    ||| {
                        &&& all_typed::<ModelVersionRow>(all_versions(*snap))
                        &&& forall|j: int| 0 <= j < mine.len() ==> (#[trigger] mine[j]).version != Some(version)
                        &&& e.code == ErrorCode::NotFound
                        &&& e.message@ == version_missing_message(version)
                    }
                },
            }
        }),
{
    broadcast use vstd::seq_lib::group_to_multiset_ensures;

    let vs = match list_versions(snap, model_id) {
        Ok(v) => v,
        Err(e) => return Err(e),
    };
    let ghost mine = versions_for(typed_seq::<ModelVersionRow>(all_versions(*snap)), model_id);
    let mut i: usize = 0;
    while i < vs.len()
        invariant
            i <= vs@.len(),
            forall|k: int| 0 <= k < i ==> (#[trigger] vs@[k]).version != Some(version),
            versions_sorted(vs@),
            vs@.to_multiset() == mine.to_multiset(),
            mine == versions_for(typed_seq::<ModelVersionRow>(all_versions(*snap)), model_id),
            all_typed::<ModelVersionRow>(all_versions(*snap)),
        decreases vs@.len() - i,
    {
        if vs[i].version == Some(version) {
            let v = vs[i].clone();
            proof {
                assert(vs@[i as int] == v);
                assert(vs@.contains(v));
                vstd::seq_lib::to_multiset_contains(vs@, v);
                vstd::seq_lib::to_multiset_contains(mine, v);
                assert(mine.contains(v));
                assert forall|j: int| 0 <= j < mine.len() && (#[trigger] mine[j]).version == Some(version) implies version_le(v, mine[j]) by {
                    assert(mine.contains(mine[j]));
                    vstd::seq_lib::to_multiset_contains(vs@, mine[j]);
                    vstd::seq_lib::to_multiset_contains(mine, mine[j]);
                    assert(vs@.contains(mine[j]));
                    let k = choose|k: int| 0 <= k < vs@.len() && vs@[k] == mine[j];
                    if k < i {
                        assert(vs@[k].version != Some(version));
                    } else if k > i {
                        assert(version_le(vs@[i as int], vs@[k]));
                    }
                }
            }
            return Ok(v);
        }
        i = i + 1;
    }
    let mut m = chars_of("Model version ");
    append_chars(&mut m, signed_decimal_chars(version as i64).as_slice());
    append_chars(&mut m, chars_of(" not found").as_slice());
    let e = UcError::with_message(ErrorCode::NotFound, string_of(m.as_slice()));
    proof {
        assert(e.message@ =~= version_missing_message(version));
        assert forall|j: int| 0 <= j < mine.len() implies (#[trigger] mine[j]).version != Some(version) by {
            assert(mine.contains(mine[j]));
            vstd::seq_lib::to_multiset_contains(vs@, mine[j]);
            vstd::seq_lib::to_multiset_contains(mine, mine[j]);
            assert(vs@.contains(mine[j]));
        }
    }
    Err(e)
}

/// The ids of a sequence of versions.
pub open spec fn version_ids(s: Seq<ModelVersionRow>) -> Seq<u128> {
    s.map_values(|v: ModelVersionRow| v.id)
}

fn ids_of(vs: &[ModelVersionRow]) -> (r: Vec<u128>)
    ensures
        r@ == version_ids(vs@),
{
    let mut out: Vec<u128> = Vec::new();
    let mut i: usize = 0;
    while i < vs.len()
        invariant
            i <= vs@.len(),
            out@ == version_ids(vs@.take(i as int)),
        decreases vs@.len() - i,
    {
        out.push(vs[i].id);
        proof {
            assert(out@ =~= version_ids(vs@.take(i as int + 1)));
        }
        i = i + 1;
    }
    assert(vs@.take(i as int) =~= vs@);
    out
}

/// Drop a model and all its versions in one commit. A missing model is no
/// error: its versions, if any, still go.
pub fn delete_model(snap: &Snapshot, id: u128) -> (r: Result<(Vec<Action>, ()), UcError>)
    requires
        snap.wf(),
    ensures
        match r {
            Ok((acts, _)) => exists|vs: Vec<ModelVersionRow>|
                {
                    &&& versions_outcome(*snap, id, Ok(vs))
                    &&& acts@ == removals(EntityKind::ModelVersion, version_ids(vs@)) + if snap.rows().contains_key(
                        (EntityKind::RegisteredModel, id),
                    ) {
                        seq![Action::Remove { kind: EntityKind::RegisteredModel, id }]
                    } else {
                        Seq::empty()
                    }
                },
            Err(e) => versions_outcome(*snap, id, Err(e)),
        },
{
    let vs = match list_versions(snap, id) {
        Ok(v) => v,
        Err(e) => return Err(e),
    };
    let ids = ids_of(vs.as_slice());
    let mut acts = remove_all(EntityKind::ModelVersion, ids.as_slice());
    let ghost before = acts@;
    if snap.get(EntityKind::RegisteredModel, id).is_some() {
        acts.push(Action::Remove { kind: EntityKind::RegisteredModel, id });
        assert(acts@ =~= before + seq![Action::Remove { kind: EntityKind::RegisteredModel, id }]);
    } else {
        assert(acts@ =~= before + Seq::<Action>::empty());
    }
    Ok((acts, ()))
}

/// The versions among `s` numbered `version`, in order.
pub open spec fn numbered(s: Seq<ModelVersionRow>, version: i32) -> Seq<ModelVersionRow>
    decreases s.len(),
{
    if s.len() == 0 {
        Seq::empty()
    } else {
        let init = numbered(s.drop_last(), version);
        if s.last().version == Some(version) {
            init.push(s.last())
        } else {
            init
        }
    }
}

/// Drop the versions of model `model_id` numbered `version`. None is no
/// error.
pub fn delete_version(snap: &Snapshot, model_id: u128, version: i32) -> (r: Result<(Vec<Action>, ()), UcError>)
    requires
        snap.wf(),
    ensures
        match r {
            Ok((acts, _)) => exists|vs: Vec<ModelVersionRow>|
                {
                    &&& versions_outcome(*snap, model_id, Ok(vs))
                    &&& acts@ == removals(EntityKind::ModelVersion, version_ids(numbered(vs@, version)))
                },
            Err(e) => versions_outcome(*snap, model_id, Err(e)),
        },
{
    let vs = match list_versions(snap, model_id) {
        Ok(v) => v,
        Err(e) => return Err(e),
    };
    let mut acts: Vec<Action> = Vec::new();
    let mut i: usize = 0;
    while i < vs.len()
        invariant
            i <= vs@.len(),
            acts@ == removals(EntityKind::ModelVersion, version_ids(numbered(vs@.take(i as int), version))),
        decreases vs@.len() - i,
    {
        proof {
            assert(vs@.take(i as int + 1).drop_last() =~= vs@.take(i as int));
            assert(vs@.take(i as int + 1).last() == vs@[i as int]);
        }
        if vs[i].version == Some(version) {
            acts.push(Action::Remove { kind: EntityKind::ModelVersion, id: vs[i].id });
            proof {
                assert(acts@ =~= removals(
                    EntityKind::ModelVersion,
                    version_ids(numbered(vs@.take(i as int + 1), version)),
                ));
            }
        }
        i = i + 1;
    }
    assert(vs@.take(i as int) =~= vs@);
    Ok((acts, ()))
}

/// `new` is `old` after an update: a rename, COALESCE on comment and owner,
/// and the update stamp.
pub open spec fn model_updated(
    old: RegisteredModelRow,
    new: RegisteredModelRow,
    new_name: Option<&str>,
    comment: Option<&str>,
    owner: Option<&str>,
    updated_at: i64,
    updated_by: Option<&str>,
) -> bool {
    &&& new.id == old.id
    &&& new.schema_id == old.schema_id
    &&& match new_name {
        Some(t) => new.name@ == t@,
        None => new.name == old.name,
    }
    &&& coalesced(new.owner, owner, old.owner)
    &&& new.created_at == old.created_at
    &&& new.created_by == old.created_by
    &&& new.updated_at == Some(updated_at)
    &&& string_opt(new.updated_by) == str_opt(updated_by)
    &&& coalesced(new.comment, comment, old.comment)
    &&& new.url == old.url
    &&& new.max_version_number == old.max_version_number
}

/// How an update of model `id` turns out: nothing to commit for a missing
/// model, the error for a stored row of another type or a rename onto a taken
/// name, or the single upsert of the updated row.
pub open spec fn update_model_outcome(
    snap: Snapshot,
    id: u128,
    new_name: Option<&str>,
    comment: Option<&str>,
    owner: Option<&str>,
    updated_at: i64,
    updated_by: Option<&str>,
    r: Result<(Vec<Action>, ()), UcError>,
) -> bool {
    &&& !snap.rows().contains_key((EntityKind::RegisteredModel, id)) ==> commits(r, Seq::empty(), ())
    &&& snap.rows().contains_key((EntityKind::RegisteredModel, id)) ==> {
        let row = snap.rows()[(EntityKind::RegisteredModel, id)];
        match RegisteredModelRow::of_row(row) {
            None => fails_typed::<RegisteredModelRow, _>(r, row),
            Some(cur) => if new_name is Some && new_name->0@ != cur.name@ && snap.index().contains_key(
                (EntityKind::RegisteredModel, child_key(cur.schema_id, new_name->0@)),
            ) {
                fails_with(r, ErrorCode::ResourceAlreadyExists, "Model"@, new_name->0@, "already exists"@)
            } else {
                upserts_once(r, EntityKind::RegisteredModel, id) && match upserted_row(r) {
                    Row::RegisteredModel(new) => model_updated(
                        cur,
                        new,
                        new_name,
                        comment,
                        owner,
                        updated_at,
                        updated_by,
                    ),
                    _ => false,
                }
            },
        }
    }
}

/// Update model `id`; a rename must land on a free name in its schema. A
/// missing model is no error and commits nothing.
pub fn update_model(
    snap: &Snapshot,
    id: u128,
    new_name: Option<&str>,
    comment: Option<&str>,
    owner: Option<&str>,
    updated_at: i64,
    updated_by: Option<&str>,
) -> (r: Result<(Vec<Action>, ()), UcError>)
    requires
        snap.wf(),
    ensures
        update_model_outcome(*snap, id, new_name, comment, owner, updated_at, updated_by, r),
{
    let current = match snap.get(EntityKind::RegisteredModel, id) {
        Some(c) => c,
        None => return Ok((Vec::new(), ())),
    };
    let mut row = match RegisteredModelRow::from_row(current) {
        Ok(v) => v,
        Err(e) => return Err(e),
    };
    if let Some(target) = new_name {
        if !str_eq(target, row.name.as_str()) {
            let key = child_key_string(row.schema_id, target);
            if snap.id_by_natural_key(EntityKind::RegisteredModel, key.as_str()).is_some() {
                return Err(named_error(ErrorCode::ResourceAlreadyExists, "Model", target, "already exists"));
            }
        }
        row.name = target.to_string();
    }
    if let Some(c) = comment {
        row.comment = Some(c.to_string());
    }
    if let Some(o) = owner {
        row.owner = Some(o.to_string());
    }
    row.updated_at = Some(updated_at);
    row.updated_by = own_opt(updated_by);
    Ok((single(Action::Upsert { kind: EntityKind::RegisteredModel, id, body: Row::RegisteredModel(row) }), ()))
}

/// Record the highest version number issued for model `id`. A missing
/// model is no error and commits nothing.
pub fn set_max_version(snap: &Snapshot, id: u128, next: i32) -> (r: Result<(Vec<Action>, ()), UcError>)
    requires
        snap.wf(),
    ensures
        !snap.rows().contains_key((EntityKind::RegisteredModel, id)) ==> commits(r, Seq::empty(), ()),
        snap.rows().contains_key((EntityKind::RegisteredModel, id)) ==> {
            let row = snap.rows()[(EntityKind::RegisteredModel, id)];
            match RegisteredModelRow::of_row(row) {
                None => fails_typed::<RegisteredModelRow, _>(r, row),
                Some(cur) => commits(
                    r,
                    seq![Action::Upsert {
                        kind: EntityKind::RegisteredModel,
                        id,
                        body: Row::RegisteredModel(RegisteredModelRow { max_version_number: Some(next), ..cur }),
                    }],
                    (),
                ),
            }
        },
{
    let current = match snap.get(EntityKind::RegisteredModel, id) {
        Some(c) => c,
        None => return Ok((Vec::new(), ())),
    };
    let mut row = match RegisteredModelRow::from_row(current) {
        Ok(v) => v,
        Err(e) => return Err(e),
    };
    row.max_version_number = Some(next);
    Ok((single(Action::Upsert { kind: EntityKind::RegisteredModel, id, body: Row::RegisteredModel(row) }), ()))
}

/// How an update of model version `id` turns out: nothing to commit for a
/// missing version, the error for a stored row of another type, or the single
/// upsert of the version with its new comment and stamp.
pub open spec fn update_version_outcome(
    snap: Snapshot,
    id: u128,
    comment: Option<&str>,
    updated_at: i64,
    updated_by: Option<&str>,
    r: Result<(Vec<Action>, ()), UcError>,
) -> bool {
    &&& !snap.rows().contains_key((EntityKind::ModelVersion, id)) ==> commits(r, Seq::empty(), ())
    &&& snap.rows().contains_key((EntityKind::ModelVersion, id)) ==> {
        let row = snap.rows()[(EntityKind::ModelVersion, id)];
        match ModelVersionRow::of_row(row) {
            None => fails_typed::<ModelVersionRow, _>(r, row),
            Some(cur) => upserts_once(r, EntityKind::ModelVersion, id) && match upserted_row(r) {
                Row::ModelVersion(new) => {
                    &&& coalesced(new.comment, comment, cur.comment)
                    &&& new.updated_at == Some(updated_at)
                    &&& string_opt(new.updated_by) == str_opt(updated_by)
                    &&& new.id == cur.id
                    &&& new.registered_model_id == cur.registered_model_id
                    &&& new.version == cur.version
                    &&& new.source == cur.source
                    &&& new.run_id == cur.run_id
                    &&& new.status == cur.status
                    &&& new.owner == cur.owner
                    &&& new.created_at == cur.created_at
                    &&& new.created_by == cur.created_by
                    &&& new.url == cur.url
                },
                _ => false,
            },
        }
    }
}

/// Update version `id`'s comment and stamp. A missing version is no error
/// and commits nothing.
pub fn update_version(
    snap: &Snapshot,
    id: u128,
    comment: Option<&str>,
    updated_at: i64,
    updated_by: Option<&str>,
) -> (r: Result<(Vec<Action>, ()), UcError>)
    requires
        snap.wf(),
    ensures
        update_version_outcome(*snap, id, comment, updated_at, updated_by, r),
{
    let current = match snap.get(EntityKind::ModelVersion, id) {
        Some(c) => c,
        None => return Ok((Vec::new(), ())),
    };
    let mut row = match ModelVersionRow::from_row(current) {
        Ok(v) => v,
        Err(e) => return Err(e),
    };
    if let Some(c) = comment {
        row.comment = Some(c.to_string());
    }
    row.updated_at = Some(updated_at);
    row.updated_by = own_opt(updated_by);
    Ok((single(Action::Upsert { kind: EntityKind::ModelVersion, id, body: Row::ModelVersion(row) }), ()))
}

/// Set version `id`'s status. A missing version is no error and commits
/// nothing.
pub fn set_version_status(snap: &Snapshot, id: u128, status: &str) -> (r: Result<(Vec<Action>, ()), UcError>)
    requires
        snap.wf(),
    ensures
        !snap.rows().contains_key((EntityKind::ModelVersion, id)) ==> commits(r, Seq::empty(), ()),
        snap.rows().contains_key((EntityKind::ModelVersion, id)) ==> {
            let row = snap.rows()[(EntityKind::ModelVersion, id)];
            match ModelVersionRow::of_row(row) {
                None => fails_typed::<ModelVersionRow, _>(r, row),
                Some(cur) => upserts_once(r, EntityKind::ModelVersion, id) && match upserted_row(r) {
                    Row::ModelVersion(new) => {
                        &&& string_opt(new.status) == Some(status@)
                        &&& new == (ModelVersionRow { status: new.status, ..cur })
                    },
                    _ => false,
                },
            }
        },
{
    let current = match snap.get(EntityKind::ModelVersion, id) {
        Some(c) => c,
        None => return Ok((Vec::new(), ())),
    };
    let mut row = match ModelVersionRow::from_row(current) {
        Ok(v) => v,
        Err(e) => return Err(e),
    };
    row.status = Some(status.to_string());
    Ok((single(Action::Upsert { kind: EntityKind::ModelVersion, id, body: Row::ModelVersion(row) }), ()))
}

/// A successful update of a stored model writes it back changed only where
/// asked: a given owner or comment replaces the stored one, an absent one
/// leaves it as it was; the name moves only on a rename; the model keeps its
/// id, schema and version counter; and the update stamp is the one given.
pub proof fn lemma_update_model_changes_only_what_is_given(
    snap: Snapshot,
    id: u128,
    new_name: Option<&str>,
    comment: Option<&str>,
    owner: Option<&str>,
    updated_at: i64,
    updated_by: Option<&str>,
    r: Result<(Vec<Action>, ()), UcError>,
)
    requires
        snap.wf(),
        update_model_outcome(snap, id, new_name, comment, owner, updated_at, updated_by, r),
        snap.rows().contains_key((EntityKind::RegisteredModel, id)),
        r is Ok,
    ensures
        RegisteredModelRow::of_row(snap.rows()[(EntityKind::RegisteredModel, id)]) is Some,
        upserts_once(r, EntityKind::RegisteredModel, id),
        ({
            let old = RegisteredModelRow::of_row(snap.rows()[(EntityKind::RegisteredModel, id)])->0;
            upserted_row(r) matches Row::RegisteredModel(new) && {
                &&& (owner matches Some(o) ==> new.owner matches Some(x) && x@ == o@)
                &&& (owner is None ==> new.owner == old.owner)
                &&& (comment matches Some(c) ==> new.comment matches Some(x) && x@ == c@)
                &&& (comment is None ==> new.comment == old.comment)
                &&& (new_name matches Some(t) ==> new.name@ == t@)
                &&& (new_name is None ==> new.name == old.name)
                &&& new.id == old.id && new.schema_id == old.schema_id
                &&& new.max_version_number == old.max_version_number
                &&& new.updated_at == Some(updated_at)
            }
        }),
{
    match RegisteredModelRow::of_row(snap.rows()[(EntityKind::RegisteredModel, id)]) {
        None => {
            assert(r is Err);
        },
        Some(cur) => {
        },
    }
}

/// A successful update of a stored model version changes only its comment,
/// and that only when one is given, and its update stamp: an absent comment
/// leaves the stored one, and the version keeps its number, model, source and
/// status.
pub proof fn lemma_update_version_changes_only_what_is_given(
    snap: Snapshot,
    id: u128,
    comment: Option<&str>,
    updated_at: i64,
    updated_by: Option<&str>,
    r: Result<(Vec<Action>, ()), UcError>,
)
    requires
        snap.wf(),
        update_version_outcome(snap, id, comment, updated_at, updated_by, r),
        snap.rows().contains_key((EntityKind::ModelVersion, id)),
        r is Ok,
    ensures
        ModelVersionRow::of_row(snap.rows()[(EntityKind::ModelVersion, id)]) is Some,
        upserts_once(r, EntityKind::ModelVersion, id),
        ({
            let old = ModelVersionRow::of_row(snap.rows()[(EntityKind::ModelVersion, id)])->0;
            upserted_row(r) matches Row::ModelVersion(new) && {
                &&& (comment matches Some(c) ==> new.comment matches Some(x) && x@ == c@)
                &&& (comment is None ==> new.comment == old.comment)
                &&& new.id == old.id && new.registered_model_id == old.registered_model_id
                &&& new.version == old.version && new.source == old.source && new.status == old.status
                &&& new.updated_at == Some(updated_at)
            }
        }),
{
    match ModelVersionRow::of_row(snap.rows()[(EntityKind::ModelVersion, id)]) {
        None => {
            assert(r is Err);
        },
        Some(cur) => {
        },
    }
}

/// Listing a schema's registered models resumes where the last page stopped: when a listing
/// returns a token, its page holds the first models the scan selects, the
/// token is the name of the page's last model, and a listing after that token
/// selects exactly the models that follow the page, so paging neither repeats
/// nor skips one.
pub proof fn lemma_list_models_resumes_after_token(
    snap: Snapshot,
    schema_id: u128,
    page_token: Option<Seq<char>>,
    max_results: i64,
    r: Result<(Vec<RegisteredModelRow>, Option<String>), UcError>,
)
    requires
        snap.wf(),
        listing::<RegisteredModelRow>(fetched(snap, EntityKind::RegisteredModel, child_prefix(schema_id), page_token, max_results), max_results, r),
        r matches Ok((_, t)) && t is Some,
    ensures
        ({
            let ids = crate::store::select_ids(snap.index_entries(), EntityKind::RegisteredModel, child_prefix(schema_id), page_token);
            let (page, token) = r->Ok_0;
            let n = crate::pagination::page_limit(max_results);
            &&& 0 < n < ids.len()
            &&& page@ == crate::repos::typed_seq::<RegisteredModelRow>(crate::store::rows_for(snap.rows(), EntityKind::RegisteredModel, ids.take(n)))
            &&& token->0@ == page@[n - 1].name@
            &&& crate::store::select_ids(snap.index_entries(), EntityKind::RegisteredModel, child_prefix(schema_id), Some(token->0@)) == ids.skip(n)
        }),
{
    let prefix = child_prefix(schema_id);
    crate::repos::lemma_listing_resumes::<RegisteredModelRow>(snap, EntityKind::RegisteredModel, prefix, page_token, max_results, r);
    let ids = crate::store::select_ids(snap.index_entries(), EntityKind::RegisteredModel, prefix, page_token);
    let n = crate::pagination::page_limit(max_results);
    let x = r->Ok_0.0@[n - 1];
    let key = crate::store::row_key(snap, EntityKind::RegisteredModel, ids[n - 1]);
    assert(key == crate::ids::uuid_text(x.schema_id) + crate::store::row::sep() + x.name@);
    assert(crate::store::key_rest(key, prefix) =~= x.name@);
}

} // verus!
