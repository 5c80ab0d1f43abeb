//! Volumes, unique by `(schema_id, name)`.

use crate::errors::{ErrorCode, UcError};
use crate::ids::uuid_text;
use crate::models::volume::VolumeRow;
use crate::pagination::over_fetch;
use crate::repos::{
    child_key, child_key_string, child_prefix, child_prefix_string, coalesced, commits,
    fails_typed, fails_with, fetched, id_error, listing, named_error, own_opt, page_typed,
    str_opt, string_opt, typed_by_id, typed_by_key, typed_one, writes_row, written, Stored,
};
use crate::store::action::{Action, EntityKind};
use crate::store::row::Row;
use crate::store::Snapshot;
use crate::text::str_eq;
use vstd::prelude::*;

verus! {

/// The volume repository.
pub struct VolumeRepo;

/// `new` is `old` after an update: a rename, COALESCE on comment and owner,
/// and the update stamp.
pub open spec fn volume_updated(
    old: VolumeRow,
    new: VolumeRow,
    new_name: Option<&str>,
    comment: Option<&str>,
    owner: Option<&str>,
    updated_at: i64,
    updated_by: Option<&str>,
) -> bool {
    &&& new.id == old.id
    &&& new.schema_id == old.schema_id
    &&& match new_name {
        Some(t) => new.name@ == t@,
        None => new.name == old.name,
    }
    &&& coalesced(new.comment, comment, old.comment)
    &&& coalesced(new.owner, owner, old.owner)
    &&& new.storage_location == old.storage_location
    &&& new.created_at == old.created_at
    &&& new.created_by == old.created_by
    &&& new.updated_at == Some(updated_at)
    &&& string_opt(new.updated_by) == str_opt(updated_by)
    &&& new.volume_type == old.volume_type
}

/// How an update of volume `id` turns out: not found, a stored row of another
/// type, a rename onto a taken name, or the single upsert of the updated row.
pub open spec fn update_outcome(
    snap: Snapshot,
    id: u128,
    new_name: Option<&str>,
    comment: Option<&str>,
    owner: Option<&str>,
    updated_at: i64,
    updated_by: Option<&str>,
    r: Result<(Vec<Action>, VolumeRow), UcError>,
) -> bool {
    &&& !snap.rows().contains_key((EntityKind::Volume, id)) ==> fails_with(r, ErrorCode::NotFound, "Volume"@, uuid_text(id), "not found"@)
    &&& snap.rows().contains_key((EntityKind::Volume, id)) ==> {
        let row = snap.rows()[(EntityKind::Volume, id)];
        match VolumeRow::of_row(row) {
            None => fails_typed::<VolumeRow, _>(r, row),
            Some(cur) => {
                if new_name is Some && new_name->0@ != cur.name@ && snap.index().contains_key(
                    (EntityKind::Volume, child_key(cur.schema_id, new_name->0@)),
                ) {
                    fails_with(r, ErrorCode::ResourceAlreadyExists, "Volume"@, new_name->0@, "already exists"@)
                } else {
                    writes_row(r, EntityKind::Volume, id) && volume_updated(
                        cur,
                        written(r),
                        new_name,
                        comment,
                        owner,
                        updated_at,
                        updated_by,
                    )
                }
            },
        }
    }
}

impl VolumeRepo {
    /// Create a volume; its `(schema_id, name)` must be free.
    pub fn create(snap: &Snapshot, row: &VolumeRow) -> (r: Result<(Vec<Action>, VolumeRow), UcError>)
        requires
            snap.wf(),
        ensures
            snap.index().contains_key((EntityKind::Volume, child_key(row.schema_id, row.name@)))
                ==> fails_with(r, ErrorCode::ResourceAlreadyExists, "Volume"@, row.name@, "already exists"@),
            !snap.index().contains_key((EntityKind::Volume, child_key(row.schema_id, row.name@)))
                ==> commits(
                r,
                seq![Action::Upsert { kind: EntityKind::Volume, id: row.id, body: Row::Volume(*row) }],
                *row,
            ),
    {
        let key = child_key_string(row.schema_id, row.name.as_str());
        if snap.id_by_natural_key(EntityKind::Volume, key.as_str()).is_some() {
            return Err(named_error(ErrorCode::ResourceAlreadyExists, "Volume", row.name.as_str(), "already exists"));
        }
        let mut acts: Vec<Action> = Vec::new();
        acts.push(Action::Upsert { kind: EntityKind::Volume, id: row.id, body: Row::Volume(row.clone()) });
        assert(acts@ =~= seq![Action::Upsert { kind: EntityKind::Volume, id: row.id, body: Row::Volume(*row) }]);
        Ok((acts, row.clone()))
    }

    pub fn get_by_id(snap: &Snapshot, id: u128) -> (r: Result<VolumeRow, UcError>)
        requires
            snap.wf(),
        ensures
            snap.rows().contains_key((EntityKind::Volume, id)) ==> typed_one::<VolumeRow>(snap.rows()[(EntityKind::Volume, id)], r),
            !snap.rows().contains_key((EntityKind::Volume, id)) ==> fails_with(r, ErrorCode::NotFound, "Volume"@, uuid_text(id), "not found"@),
    {
        typed_by_id::<VolumeRow>(snap, EntityKind::Volume, id, ErrorCode::NotFound, "Volume")
    }

    pub fn get_by_schema_and_name(snap: &Snapshot, schema_id: u128, name: &str) -> (r: Result<VolumeRow, UcError>)
        requires
            snap.wf(),
        ensures
            ({
                let k = (EntityKind::Volume, child_key(schema_id, name@));
                &&& snap.index().contains_key(k) ==> typed_one::<VolumeRow>(snap.rows()[(EntityKind::Volume, snap.index()[k])], r)
                &&& !snap.index().contains_key(k) ==> fails_with(r, ErrorCode::NotFound, "Volume"@, name@, "not found"@)
            }),
    {
        let key = child_key_string(schema_id, name);
        typed_by_key::<VolumeRow>(snap, EntityKind::Volume, key.as_str(), ErrorCode::NotFound, "Volume", name)
    }

    /// One page of a schema's volumes in name order, after `page_token`.
    pub fn list(snap: &Snapshot, schema_id: u128, page_token: Option<&str>, max_results: i64) -> (r: Result<(Vec<VolumeRow>, Option<String>), UcError>)
        requires
            snap.wf(),
        ensures
            listing::<VolumeRow>(fetched(*snap, EntityKind::Volume, child_prefix(schema_id), str_opt(page_token), max_results), max_results, r),
    {
        let prefix = child_prefix_string(schema_id);
        let found = snap.scan_prefix(EntityKind::Volume, prefix.as_str(), page_token, over_fetch(max_results));
        page_typed::<VolumeRow>(found, max_results)
    }

    /// Update a volume in place; a rename must land on a free name.
    pub fn update(
        snap: &Snapshot,
        id: u128,
        new_name: Option<&str>,
        comment: Option<&str>,
        owner: Option<&str>,
        updated_at: i64,
        updated_by: Option<&str>,
    ) -> (r: Result<(Vec<Action>, VolumeRow), UcError>)
        requires
            snap.wf(),
        ensures
            update_outcome(*snap, id, new_name, comment, owner, updated_at, updated_by, r),
    {
        let current = match snap.get(EntityKind::Volume, id) {
            Some(c) => c,
            None => return Err(id_error(ErrorCode::NotFound, "Volume", id, "not found")),
        };
        let mut row = match VolumeRow::from_row(current) {
            Ok(v) => v,
            Err(e) => return Err(e),
        };
        proof {
            row.lemma_round_trip();
        }
        if let Some(target) = new_name {
            if !str_eq(target, row.name.as_str()) {
                let key = child_key_string(row.schema_id, target);
                if snap.id_by_natural_key(EntityKind::Volume, key.as_str()).is_some() {
                    return Err(named_error(ErrorCode::ResourceAlreadyExists, "Volume", target, "already exists"));
                }
            }
            row.name = target.to_string();
        }
        if let Some(c) = comment {
            row.comment = Some(c.to_string());
        }
        if let Some(o) = owner {
            row.owner = Some(o.to_string());
        }
        row.updated_at = Some(updated_at);
        row.updated_by = own_opt(updated_by);
        let mut acts: Vec<Action> = Vec::new();
        acts.push(Action::Upsert { kind: EntityKind::Volume, id, body: Row::Volume(row.clone()) });
        assert(acts@ =~= seq![Action::Upsert { kind: EntityKind::Volume, id, body: row.to_row() }]);
        Ok((acts, row))
    }

    /// A successful update of volume `id` writes back the volume it found,
    /// changed only where asked: a given owner or comment becomes the volume's, an
    /// absent one leaves the stored value as it was; the name moves only on a
    /// rename; the volume keeps its id and parent; and the update stamp is the one
    /// given.
    pub proof fn lemma_update_changes_only_what_is_given(
        snap: Snapshot,
        id: u128,
        new_name: Option<&str>,
        comment: Option<&str>,
        owner: Option<&str>,
        updated_at: i64,
        updated_by: Option<&str>,
        r: Result<(Vec<Action>, VolumeRow), UcError>,
    )
        requires
            snap.wf(),
            update_outcome(snap, id, new_name, comment, owner, updated_at, updated_by, r),
            r is Ok,
        ensures
            snap.rows().contains_key((EntityKind::Volume, id)),
            VolumeRow::of_row(snap.rows()[(EntityKind::Volume, id)]) is Some,
            ({
                let old = VolumeRow::of_row(snap.rows()[(EntityKind::Volume, id)])->0;
                let new = written(r);
                &&& (owner matches Some(o) ==> new.owner matches Some(x) && x@ == o@)
                &&& (owner is None ==> new.owner == old.owner)
                &&& (comment matches Some(c) ==> new.comment matches Some(x) && x@ == c@)
                &&& (comment is None ==> new.comment == old.comment)
                &&& (new_name matches Some(t) ==> new.name@ == t@)
                &&& (new_name is None ==> new.name == old.name)
                &&& new.id == old.id && new.schema_id == old.schema_id
                &&& new.updated_at == Some(updated_at)
                &&& new.storage_location == old.storage_location && new.volume_type == old.volume_type
            }),
    {
        if snap.rows().contains_key((EntityKind::Volume, id)) {
            match VolumeRow::of_row(snap.rows()[(EntityKind::Volume, id)]) {
                None => {
                    assert(r is Err);
                },
                Some(cur) => {
                },
            }
        } else {
            assert(r is Err);
        }
    }

    /// Drop a volume.
    pub fn delete(snap: &Snapshot, id: u128) -> (r: Result<(Vec<Action>, ()), UcError>)
        requires
            snap.wf(),
        ensures
            snap.rows().contains_key((EntityKind::Volume, id)) ==> commits(r, seq![Action::Remove { kind: EntityKind::Volume, id }], ()),
            !snap.rows().contains_key((EntityKind::Volume, id)) ==> fails_with(r, ErrorCode::NotFound, "Volume"@, uuid_text(id), "not found"@),
    {
        if snap.get(EntityKind::Volume, id).is_none() {
            return Err(id_error(ErrorCode::NotFound, "Volume", id, "not found"));
        }
        let mut acts: Vec<Action> = Vec::new();
        acts.push(Action::Remove { kind: EntityKind::Volume, id });
        assert(acts@ =~= seq![Action::Remove { kind: EntityKind::Volume, id }]);
        Ok((acts, ()))
    }
}

/// Listing a schema's volumes resumes where the last page stopped: when a listing
/// returns a token, its page holds the first volumes the scan selects, the
/// token is the name of the page's last volume, and a listing after that token
/// selects exactly the volumes that follow the page, so paging neither repeats
/// nor skips one.
pub proof fn lemma_list_resumes_after_token(
    snap: Snapshot,
    schema_id: u128,
    page_token: Option<Seq<char>>,
    max_results: i64,
    r: Result<(Vec<VolumeRow>, Option<String>), UcError>,
)
    requires
        snap.wf(),
        listing::<VolumeRow>(fetched(snap, EntityKind::Volume, child_prefix(schema_id), page_token, max_results), max_results, r),
        r matches Ok((_, t)) && t is Some,
    ensures
        ({
            let ids = crate::store::select_ids(snap.index_entries(), EntityKind::Volume, child_prefix(schema_id), page_token);
            let (page, token) = r->Ok_0;
            let n = crate::pagination::page_limit(max_results);
            &&& 0 < n < ids.len()
            &&& page@ == crate::repos::typed_seq::<VolumeRow>(crate::store::rows_for(snap.rows(), EntityKind::Volume, ids.take(n)))
            &&& token->0@ == page@[n - 1].name@
            &&& crate::store::select_ids(snap.index_entries(), EntityKind::Volume, child_prefix(schema_id), Some(token->0@)) == ids.skip(n)
        }),
{
    let prefix = child_prefix(schema_id);
    crate::repos::lemma_listing_resumes::<VolumeRow>(snap, EntityKind::Volume, prefix, page_token, max_results, r);
    let ids = crate::store::select_ids(snap.index_entries(), EntityKind::Volume, prefix, page_token);
    let n = crate::pagination::page_limit(max_results);
    let x = r->Ok_0.0@[n - 1];
    let key = crate::store::row_key(snap, EntityKind::Volume, ids[n - 1]);
    assert(key == crate::ids::uuid_text(x.schema_id) + crate::store::row::sep() + x.name@);
    assert(crate::store::key_rest(key, prefix) =~= x.name@);
}

} // verus!
