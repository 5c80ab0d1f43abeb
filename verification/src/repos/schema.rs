//! Schemas, unique by `(catalog_id, name)`.

use crate::errors::{quoted_message, ErrorCode, UcError};
use crate::ids::uuid_text;
use crate::models::catalog::CatalogRow;
use crate::models::schema::SchemaRow;
use crate::pagination::over_fetch;
use crate::repos::{
    child_key, child_key_string, child_prefix, child_prefix_string, coalesced, commits,
    fails_typed, fails_with, fetched, id_error, is_named_error, listing, named_error, own_opt,
    page_typed, single, str_opt, string_opt, typed_by_id, typed_by_key, typed_one, writes_row,
    written, Stored,
};
use crate::store::action::{Action, EntityKind};
use crate::store::row::Row;
use crate::store::Snapshot;
use crate::text::{append_chars, chars_of, str_eq, string_of};
use vstd::prelude::*;

verus! {

/// The row a new schema starts as.
pub open spec fn new_schema(
    row: SchemaRow,
    id: u128,
    catalog_id: u128,
    name: &str,
    comment: Option<&str>,
    owner: Option<&str>,
    created_by: Option<&str>,
    storage_root: Option<&str>,
    created_at: i64,
) -> bool {
    &&& row.id == id
    &&& row.catalog_id == catalog_id
    &&& row.name@ == name@
    &&& string_opt(row.comment) == str_opt(comment)
    &&& string_opt(row.owner) == str_opt(owner)
    &&& row.created_at == created_at
    &&& string_opt(row.created_by) == str_opt(created_by)
    &&& row.updated_at is None
    &&& row.updated_by is None
    &&& string_opt(row.storage_root) == str_opt(storage_root)
    &&& row.storage_location is None
}

/// `new` is `old` after an update: a rename, COALESCE on comment and owner,
/// and the update stamp.
pub open spec fn schema_updated(
    old: SchemaRow,
    new: SchemaRow,
    new_name: Option<&str>,
    comment: Option<&str>,
    owner: Option<&str>,
    updated_by: Option<&str>,
    updated_at: i64,
) -> bool {
    &&& new.id == old.id
    &&& new.catalog_id == old.catalog_id
    &&& match new_name {
        Some(t) => new.name@ == t@,
        None => new.name == old.name,
    }
    &&& coalesced(new.comment, comment, old.comment)
    &&& coalesced(new.owner, owner, old.owner)
    &&& new.created_at == old.created_at
    &&& new.created_by == old.created_by
    &&& new.updated_at == Some(updated_at)
    &&& string_opt(new.updated_by) == str_opt(updated_by)
    &&& new.storage_root == old.storage_root
    &&& new.storage_location == old.storage_location
}

/// How creating schema `name` in catalog `catalog_id` turns out: the error
/// for a taken name, or the single upsert of the new row.
pub open spec fn create_outcome(
    snap: Snapshot,
    id: u128,
    catalog_id: u128,
    name: &str,
    comment: Option<&str>,
    owner: Option<&str>,
    created_by: Option<&str>,
    storage_root: Option<&str>,
    created_at: i64,
    r: Result<(Vec<Action>, SchemaRow), UcError>,
) -> bool {
    &&& snap.index().contains_key((EntityKind::Schema, child_key(catalog_id, name@))) ==> fails_with(
        r,
        ErrorCode::SchemaAlreadyExists,
        "Schema"@,
        name@,
        "already exists"@,
    )
    &&& !snap.index().contains_key((EntityKind::Schema, child_key(catalog_id, name@))) ==> {
        &&& writes_row(r, EntityKind::Schema, id)
        &&& new_schema(written(r), id, catalog_id, name, comment, owner, created_by, storage_root, created_at)
    }
}

/// Create a schema; its `(catalog_id, name)` must be free.
pub fn create(
    snap: &Snapshot,
    id: u128,
    catalog_id: u128,
    name: &str,
    comment: Option<&str>,
    owner: Option<&str>,
    created_by: Option<&str>,
    storage_root: Option<&str>,
    created_at: i64,
) -> (r: Result<(Vec<Action>, SchemaRow), UcError>)
    requires
        snap.wf(),
    ensures
        create_outcome(*snap, id, catalog_id, name, comment, owner, created_by, storage_root, created_at, r),
{
    let key = child_key_string(catalog_id, name);
    if snap.id_by_natural_key(EntityKind::Schema, key.as_str()).is_some() {
        return Err(named_error(ErrorCode::SchemaAlreadyExists, "Schema", name, "already exists"));
    }
    let row = SchemaRow {
        id,
        catalog_id,
        name: name.to_string(),
        comment: own_opt(comment),
        owner: own_opt(owner),
        created_at,
        created_by: own_opt(created_by),
        updated_at: None,
        updated_by: None,
        storage_root: own_opt(storage_root),
        storage_location: None,
    };
    Ok((single(Action::Upsert { kind: EntityKind::Schema, id, body: Row::Schema(row.clone()) }), row))
}

/// A schema is created only under a name free in its catalog, and it is
/// stored as given: its id, catalog and name, the owner, comment and storage
/// root given (none where none is given), the creation stamp, and no update
/// stamp yet.
pub proof fn lemma_create_stores_what_is_given(
    snap: Snapshot,
    id: u128,
    catalog_id: u128,
    name: &str,
    comment: Option<&str>,
    owner: Option<&str>,
    created_by: Option<&str>,
    storage_root: Option<&str>,
    created_at: i64,
    r: Result<(Vec<Action>, SchemaRow), UcError>,
)
    requires
        snap.wf(),
        create_outcome(snap, id, catalog_id, name, comment, owner, created_by, storage_root, created_at, r),
        r is Ok,
    ensures
        !snap.index().contains_key((EntityKind::Schema, child_key(catalog_id, name@))),
        writes_row(r, EntityKind::Schema, id),
        ({
            let row = written(r);
            &&& row.id == id && row.catalog_id == catalog_id && row.name@ == name@
            &&& (owner matches Some(o) ==> row.owner matches Some(x) && x@ == o@)
            &&& (owner is None ==> row.owner is None)
            &&& (comment matches Some(c) ==> row.comment matches Some(x) && x@ == c@)
            &&& (comment is None ==> row.comment is None)
            &&& (storage_root matches Some(s) ==> row.storage_root matches Some(x) && x@ == s@)
            &&& (storage_root is None ==> row.storage_root is None)
            &&& row.created_at == created_at
            &&& row.updated_at is None && row.updated_by is None
        }),
{
}

/// The name a schema is reported under: `catalog.schema`.
pub open spec fn full_name(catalog_name: Seq<char>, schema_name: Seq<char>) -> Seq<char> {
    catalog_name + "."@ + schema_name
}

/// Resolve `catalog.schema`: the catalog by name, then the schema by
/// `(catalog_id, name)`. A missing catalog is reported as a missing schema.
pub fn get_by_full_name(snap: &Snapshot, catalog_name: &str, schema_name: &str) -> (r: Result<SchemaRow, UcError>)
    requires
        snap.wf(),
    ensures
        !snap.index().contains_key((EntityKind::Catalog, catalog_name@)) ==> fails_with(
            r,
            ErrorCode::SchemaNotFound,
            "Schema"@,
            full_name(catalog_name@, schema_name@),
            "not found"@,
        ),
        snap.index().contains_key((EntityKind::Catalog, catalog_name@)) ==> {
            let crow = snap.rows()[(EntityKind::Catalog, snap.index()[(EntityKind::Catalog, catalog_name@)])];
            match CatalogRow::of_row(crow) {
                None => fails_typed::<CatalogRow, _>(r, crow),
                Some(c) => {
                    let k = (EntityKind::Schema, child_key(c.id, schema_name@));
                    &&& snap.index().contains_key(k) ==> typed_one::<SchemaRow>(
                        snap.rows()[(EntityKind::Schema, snap.index()[k])],
                        r,
                    )
                    &&& !snap.index().contains_key(k) ==> fails_with(
                        r,
                        ErrorCode::SchemaNotFound,
                        "Schema"@,
                        full_name(catalog_name@, schema_name@),
                        "not found"@,
                    )
                },
            }
        },
{
    let mut shown = chars_of(catalog_name);
    shown.push('.');
    append_chars(&mut shown, chars_of(schema_name).as_slice());
    let shown = string_of(shown.as_slice());
    proof {
        reveal_strlit(".");
    }
    assert(shown@ =~= full_name(catalog_name@, schema_name@));
    let catalog = match typed_by_key::<CatalogRow>(
        snap,
        EntityKind::Catalog,
        catalog_name,
        ErrorCode::SchemaNotFound,
        "Schema",
        shown.as_str(),
    ) {
        Ok(c) => c,
        Err(e) => return Err(e),
    };
    let key = child_key_string(catalog.id, schema_name);
    typed_by_key::<SchemaRow>(snap, EntityKind::Schema, key.as_str(), ErrorCode::SchemaNotFound, "Schema", shown.as_str())
}

pub fn get_by_id(snap: &Snapshot, id: u128) -> (r: Result<SchemaRow, UcError>)
    requires
        snap.wf(),
    ensures
        snap.rows().contains_key((EntityKind::Schema, id)) ==> typed_one::<SchemaRow>(
            snap.rows()[(EntityKind::Schema, id)],
            r,
        ),
        !snap.rows().contains_key((EntityKind::Schema, id)) ==> fails_with(
            r,
            ErrorCode::SchemaNotFound,
            "Schema"@,
            uuid_text(id),
            "not found"@,
        ),
{
    typed_by_id::<SchemaRow>(snap, EntityKind::Schema, id, ErrorCode::SchemaNotFound, "Schema")
}

/// One page of a catalog's schemas in name order, after `page_token`.
pub fn list(snap: &Snapshot, catalog_id: u128, page_token: Option<&str>, max_results: i64) -> (r: Result<(Vec<SchemaRow>, Option<String>), UcError>)
    requires
        snap.wf(),
    ensures
        listing::<SchemaRow>(
            fetched(*snap, EntityKind::Schema, child_prefix(catalog_id), str_opt(page_token), max_results),
            max_results,
            r,
        ),
{
    let prefix = child_prefix_string(catalog_id);
    let found = snap.scan_prefix(EntityKind::Schema, prefix.as_str(), page_token, over_fetch(max_results));
    page_typed::<SchemaRow>(found, max_results)
}

/// How an update of schema `id` turns out: not found, a stored row of another
/// type, a rename onto a taken name, or the single upsert of the updated row.
pub open spec fn update_outcome(
    snap: Snapshot,
    id: u128,
    new_name: Option<&str>,
    comment: Option<&str>,
    owner: Option<&str>,
    updated_by: Option<&str>,
    updated_at: i64,
    r: Result<(Vec<Action>, SchemaRow), UcError>,
) -> bool {
    &&& !snap.rows().contains_key((EntityKind::Schema, id)) ==> fails_with(
        r,
        ErrorCode::SchemaNotFound,
        "Schema"@,
        uuid_text(id),
        "not found"@,
    )
    &&& snap.rows().contains_key((EntityKind::Schema, id)) ==> {
        let row = snap.rows()[(EntityKind::Schema, id)];
        match SchemaRow::of_row(row) {
            None => fails_typed::<SchemaRow, _>(r, row),
            Some(cur) => {
                if new_name is Some && new_name->0@ != cur.name@ && snap.index().contains_key(
                    (EntityKind::Schema, child_key(cur.catalog_id, new_name->0@)),
                ) {
                    fails_with(r, ErrorCode::SchemaAlreadyExists, "Schema"@, new_name->0@, "already exists"@)
                } else {
                    writes_row(r, EntityKind::Schema, id) && schema_updated(
                        cur,
                        written(r),
                        new_name,
                        comment,
                        owner,
                        updated_by,
                        updated_at,
                    )
                }
            },
        }
    }
}

/// Update schema `id`; a rename must land on a free name in its catalog.
pub fn update(
    snap: &Snapshot,
    id: u128,
    new_name: Option<&str>,
    comment: Option<&str>,
    owner: Option<&str>,
    updated_by: Option<&str>,
    updated_at: i64,
) -> (r: Result<(Vec<Action>, SchemaRow), UcError>)
    requires
        snap.wf(),
    ensures
        update_outcome(*snap, id, new_name, comment, owner, updated_by, updated_at, r),
{
    let current = match snap.get(EntityKind::Schema, id) {
        Some(c) => c,
        None => return Err(id_error(ErrorCode::SchemaNotFound, "Schema", id, "not found")),
    };
    let mut row = match SchemaRow::from_row(current) {
        Ok(v) => v,
        Err(e) => return Err(e),
    };
    if let Some(target) = new_name {
        if !str_eq(target, row.name.as_str()) {
            let key = child_key_string(row.catalog_id, target);
            if snap.id_by_natural_key(EntityKind::Schema, key.as_str()).is_some() {
                return Err(named_error(ErrorCode::SchemaAlreadyExists, "Schema", target, "already exists"));
            }
        }
        row.name = target.to_string();
    }
    if let Some(c) = comment {
        row.comment = Some(c.to_string());
    }
    if let Some(o) = owner {
        row.owner = Some(o.to_string());
    }
    row.updated_at = Some(updated_at);
    row.updated_by = own_opt(updated_by);
    Ok((single(Action::Upsert { kind: EntityKind::Schema, id, body: Row::Schema(row.clone()) }), row))
}

/// A successful update of schema `id` writes back the schema it found,
/// changed only where asked: a given owner or comment becomes the schema's, an
/// absent one leaves the stored value as it was; the name moves only on a
/// rename; the schema keeps its id and parent; and the update stamp is the one
/// given.
pub proof fn lemma_update_changes_only_what_is_given(
    snap: Snapshot,
    id: u128,
    new_name: Option<&str>,
    comment: Option<&str>,
    owner: Option<&str>,
    updated_by: Option<&str>,
    updated_at: i64,
    r: Result<(Vec<Action>, SchemaRow), UcError>,
)
    requires
        snap.wf(),
        update_outcome(snap, id, new_name, comment, owner, updated_by, updated_at, r),
        r is Ok,
    ensures
        snap.rows().contains_key((EntityKind::Schema, id)),
        SchemaRow::of_row(snap.rows()[(EntityKind::Schema, id)]) is Some,
        ({
            let old = SchemaRow::of_row(snap.rows()[(EntityKind::Schema, id)])->0;
            let new = written(r);
            &&& (owner matches Some(o) ==> new.owner matches Some(x) && x@ == o@)
            &&& (owner is None ==> new.owner == old.owner)
            &&& (comment matches Some(c) ==> new.comment matches Some(x) && x@ == c@)
            &&& (comment is None ==> new.comment == old.comment)
            &&& (new_name matches Some(t) ==> new.name@ == t@)
            &&& (new_name is None ==> new.name == old.name)
            &&& new.id == old.id && new.catalog_id == old.catalog_id
            &&& new.updated_at == Some(updated_at)
            &&& new.created_at == old.created_at && new.created_by == old.created_by
        }),
{
    if snap.rows().contains_key((EntityKind::Schema, id)) {
        match SchemaRow::of_row(snap.rows()[(EntityKind::Schema, id)]) {
            None => {
                assert(r is Err);
            },
            Some(cur) => {
            },
        }
    } else {
        assert(r is Err);
    }
}

/// Drop schema `id`. Nothing cascades to its children.
pub fn delete(snap: &Snapshot, id: u128) -> (r: Result<(Vec<Action>, ()), UcError>)
    requires
        snap.wf(),
    ensures
        snap.rows().contains_key((EntityKind::Schema, id)) ==> commits(r, seq![Action::Remove { kind: EntityKind::Schema, id }], ()),
        !snap.rows().contains_key((EntityKind::Schema, id)) ==> fails_with(
            r,
            ErrorCode::SchemaNotFound,
            "Schema"@,
            uuid_text(id),
            "not found"@,
        ),
{
    if snap.get(EntityKind::Schema, id).is_none() {
        return Err(id_error(ErrorCode::SchemaNotFound, "Schema", id, "not found"));
    }
    Ok((single(Action::Remove { kind: EntityKind::Schema, id }), ()))
}

/// Listing a catalog's schemas resumes where the last page stopped: when a listing
/// returns a token, its page holds the first schemas the scan selects, the
/// token is the name of the page's last schema, and a listing after that token
/// selects exactly the schemas that follow the page, so paging neither repeats
/// nor skips one.
pub proof fn lemma_list_resumes_after_token(
    snap: Snapshot,
    catalog_id: u128,
    page_token: Option<Seq<char>>,
    max_results: i64,
    r: Result<(Vec<SchemaRow>, Option<String>), UcError>,
)
    requires
        snap.wf(),
        listing::<SchemaRow>(fetched(snap, EntityKind::Schema, child_prefix(catalog_id), page_token, max_results), max_results, r),
        r matches Ok((_, t)) && t is Some,
    ensures
        ({
            let ids = crate::store::select_ids(snap.index_entries(), EntityKind::Schema, child_prefix(catalog_id), page_token);
            let (page, token) = r->Ok_0;
            let n = crate::pagination::page_limit(max_results);
            &&& 0 < n < ids.len()
            &&& page@ == crate::repos::typed_seq::<SchemaRow>(crate::store::rows_for(snap.rows(), EntityKind::Schema, ids.take(n)))
            &&& token->0@ == page@[n - 1].name@
            &&& crate::store::select_ids(snap.index_entries(), EntityKind::Schema, child_prefix(catalog_id), Some(token->0@)) == ids.skip(n)
        }),
{
    let prefix = child_prefix(catalog_id);
    crate::repos::lemma_listing_resumes::<SchemaRow>(snap, EntityKind::Schema, prefix, page_token, max_results, r);
    let ids = crate::store::select_ids(snap.index_entries(), EntityKind::Schema, prefix, page_token);
    let n = crate::pagination::page_limit(max_results);
    let x = r->Ok_0.0@[n - 1];
    let key = crate::store::row_key(snap, EntityKind::Schema, ids[n - 1]);
    assert(key == crate::ids::uuid_text(x.catalog_id) + crate::store::row::sep() + x.name@);
    assert(crate::store::key_rest(key, prefix) =~= x.name@);
}

} // verus!
