//! Catalogs, unique by name.

use crate::errors::{ErrorCode, UcError};
use crate::ids::uuid_text;
use crate::models::catalog::CatalogRow;
use crate::pagination::over_fetch;
use crate::repos::{
    coalesced, commits, fails_typed, fails_with, fetched, listing, named_error, own_opt,
    page_typed, single, str_opt, string_opt, typed_by_id, typed_by_key, typed_one, writes_row,
    written, Stored,
};
use crate::store::action::{Action, EntityKind};
use crate::store::row::{natural_key_of, Row};
use crate::store::Snapshot;
use crate::text::str_eq;
use vstd::prelude::*;

verus! {

/// The row a new catalog starts as.
pub open spec fn new_catalog(
    row: CatalogRow,
    id: u128,
    name: &str,
    comment: Option<&str>,
    owner: Option<&str>,
    created_by: Option<&str>,
    storage_root: Option<&str>,
    created_at: i64,
) -> bool {
    &&& row.id == id
    &&& row.name@ == name@
    &&& string_opt(row.comment) == str_opt(comment)
    &&& string_opt(row.owner) == str_opt(owner)
    &&& row.created_at == created_at
    &&& string_opt(row.created_by) == str_opt(created_by)
    &&& row.updated_at is None
    &&& row.updated_by is None
    &&& string_opt(row.storage_root) == str_opt(storage_root)
    &&& row.storage_location is None
}

/// `new` is `old` after an update: a rename, COALESCE on comment and owner,
/// and the update stamp.
pub open spec fn catalog_updated(
    old: CatalogRow,
    new: CatalogRow,
    new_name: Option<&str>,
    comment: Option<&str>,
    owner: Option<&str>,
    updated_by: Option<&str>,
    updated_at: i64,
) -> bool {
    &&& new.id == old.id
    &&& match new_name {
        Some(t) => new.name@ == t@,
        None => new.name == old.name,
    }
    &&& coalesced(new.comment, comment, old.comment)
    &&& coalesced(new.owner, owner, old.owner)
    &&& new.created_at == old.created_at
    &&& new.created_by == old.created_by
    &&& new.updated_at == Some(updated_at)
    &&& string_opt(new.updated_by) == str_opt(updated_by)
    &&& new.storage_root == old.storage_root
    &&& new.storage_location == old.storage_location
}

/// How creating catalog `name` turns out: the error for a taken name, or the
/// single upsert of the new row.
pub open spec fn create_outcome(
    snap: Snapshot,
    id: u128,
    name: &str,
    comment: Option<&str>,
    owner: Option<&str>,
    created_by: Option<&str>,
    storage_root: Option<&str>,
    created_at: i64,
    r: Result<(Vec<Action>, CatalogRow), UcError>,
) -> bool {
    &&& snap.index().contains_key((EntityKind::Catalog, name@)) ==> fails_with(
        r,
        ErrorCode::CatalogAlreadyExists,
        "Catalog"@,
        name@,
        "already exists"@,
    )
    &&& !snap.index().contains_key((EntityKind::Catalog, name@)) ==> {
        &&& writes_row(r, EntityKind::Catalog, id)
        &&& new_catalog(written(r), id, name, comment, owner, created_by, storage_root, created_at)
    }
}

/// Create a catalog; its name must be free.
pub fn create(
    snap: &Snapshot,
    id: u128,
    name: &str,
    comment: Option<&str>,
    owner: Option<&str>,
    created_by: Option<&str>,
    storage_root: Option<&str>,
    created_at: i64,
) -> (r: Result<(Vec<Action>, CatalogRow), UcError>)
    requires
        snap.wf(),
    ensures
        create_outcome(*snap, id, name, comment, owner, created_by, storage_root, created_at, r),
{
    if snap.id_by_natural_key(EntityKind::Catalog, name).is_some() {
        return Err(named_error(ErrorCode::CatalogAlreadyExists, "Catalog", name, "already exists"));
    }
    let row = CatalogRow {
        id,
        name: name.to_string(),
        comment: own_opt(comment),
        owner: own_opt(owner),
        created_at,
        created_by: own_opt(created_by),
        updated_at: None,
        updated_by: None,
        storage_root: own_opt(storage_root),
        storage_location: None,
    };
    Ok((single(Action::Upsert { kind: EntityKind::Catalog, id, body: Row::Catalog(row.clone()) }), row))
}

/// A catalog is created only under a free name, and it is stored as given: its
/// id and name, the owner, comment and storage root given (none where none is
/// given), the creation stamp, and no update stamp yet.
pub proof fn lemma_create_stores_what_is_given(
    snap: Snapshot,
    id: u128,
    name: &str,
    comment: Option<&str>,
    owner: Option<&str>,
    created_by: Option<&str>,
    storage_root: Option<&str>,
    created_at: i64,
    r: Result<(Vec<Action>, CatalogRow), UcError>,
)
    requires
        snap.wf(),
        create_outcome(snap, id, name, comment, owner, created_by, storage_root, created_at, r),
        r is Ok,
    ensures
        !snap.index().contains_key((EntityKind::Catalog, name@)),
        writes_row(r, EntityKind::Catalog, id),
        ({
            let row = written(r);
            &&& row.id == id && row.name@ == name@
            &&& (owner matches Some(o) ==> row.owner matches Some(x) && x@ == o@)
            &&& (owner is None ==> row.owner is None)
            &&& (comment matches Some(c) ==> row.comment matches Some(x) && x@ == c@)
            &&& (comment is None ==> row.comment is None)
            &&& (storage_root matches Some(s) ==> row.storage_root matches Some(x) && x@ == s@)
            &&& (storage_root is None ==> row.storage_root is None)
            &&& row.created_at == created_at
            &&& row.updated_at is None && row.updated_by is None
        }),
{
}

pub fn get_by_name(snap: &Snapshot, name: &str) -> (r: Result<CatalogRow, UcError>)
    requires
        snap.wf(),
    ensures
        snap.index().contains_key((EntityKind::Catalog, name@)) ==> typed_one::<CatalogRow>(
            snap.rows()[(EntityKind::Catalog, snap.index()[(EntityKind::Catalog, name@)])],
            r,
        ),
        !snap.index().contains_key((EntityKind::Catalog, name@)) ==> fails_with(
            r,
            ErrorCode::CatalogNotFound,
            "Catalog"@,
            name@,
            "not found"@,
        ),
{
    typed_by_key::<CatalogRow>(snap, EntityKind::Catalog, name, ErrorCode::CatalogNotFound, "Catalog", name)
}

pub fn get_by_id(snap: &Snapshot, id: u128) -> (r: Result<CatalogRow, UcError>)
    requires
        snap.wf(),
    ensures
        snap.rows().contains_key((EntityKind::Catalog, id)) ==> typed_one::<CatalogRow>(
            snap.rows()[(EntityKind::Catalog, id)],
            r,
        ),
        !snap.rows().contains_key((EntityKind::Catalog, id)) ==> fails_with(
            r,
            ErrorCode::CatalogNotFound,
            "Catalog"@,
            uuid_text(id),
            "not found"@,
        ),
{
    typed_by_id::<CatalogRow>(snap, EntityKind::Catalog, id, ErrorCode::CatalogNotFound, "Catalog")
}

/// One page of catalogs in name order, after `page_token`.
pub fn list(snap: &Snapshot, page_token: Option<&str>, max_results: i64) -> (r: Result<(Vec<CatalogRow>, Option<String>), UcError>)
    requires
        snap.wf(),
    ensures
        listing::<CatalogRow>(
            fetched(*snap, EntityKind::Catalog, Seq::empty(), str_opt(page_token), max_results),
            max_results,
            r,
        ),
{
    let found = snap.scan(EntityKind::Catalog, page_token, over_fetch(max_results));
    page_typed::<CatalogRow>(found, max_results)
}

/// How an update of the catalog named `name` turns out: not found, a stored
/// row of another type, a rename onto a taken name, or the single upsert of
/// the updated row.
pub open spec fn update_outcome(
    snap: Snapshot,
    name: &str,
    new_name: Option<&str>,
    comment: Option<&str>,
    owner: Option<&str>,
    updated_by: Option<&str>,
    updated_at: i64,
    r: Result<(Vec<Action>, CatalogRow), UcError>,
) -> bool {
    &&& !snap.index().contains_key((EntityKind::Catalog, name@)) ==> fails_with(
        r,
        ErrorCode::CatalogNotFound,
        "Catalog"@,
        name@,
        "not found"@,
    )
    &&& snap.index().contains_key((EntityKind::Catalog, name@)) ==> {
        let id = snap.index()[(EntityKind::Catalog, name@)];
        let row = snap.rows()[(EntityKind::Catalog, id)];
        match CatalogRow::of_row(row) {
            None => fails_typed::<CatalogRow, _>(r, row),
            Some(cur) => {
                if new_name is Some && new_name->0@ != name@ && snap.index().contains_key(
                    (EntityKind::Catalog, new_name->0@),
                ) {
                    fails_with(r, ErrorCode::CatalogAlreadyExists, "Catalog"@, new_name->0@, "already exists"@)
                } else {
                    writes_row(r, EntityKind::Catalog, cur.id) && catalog_updated(
                        cur,
                        written(r),
                        new_name,
                        comment,
                        owner,
                        updated_by,
                        updated_at,
                    )
                }
            },
        }
    }
}

/// Update the catalog named `name`; a rename must land on a free name.
pub fn update(
    snap: &Snapshot,
    name: &str,
    new_name: Option<&str>,
    comment: Option<&str>,
    owner: Option<&str>,
    updated_by: Option<&str>,
    updated_at: i64,
) -> (r: Result<(Vec<Action>, CatalogRow), UcError>)
    requires
        snap.wf(),
    ensures
        update_outcome(*snap, name, new_name, comment, owner, updated_by, updated_at, r),
{
    let current = match snap.get_by_natural_key(EntityKind::Catalog, name) {
        Some(c) => c,
        None => return Err(named_error(ErrorCode::CatalogNotFound, "Catalog", name, "not found")),
    };
    let mut row = match CatalogRow::from_row(current) {
        Ok(v) => v,
        Err(e) => return Err(e),
    };
    if let Some(target) = new_name {
        if !str_eq(target, name) && snap.id_by_natural_key(EntityKind::Catalog, target).is_some() {
            return Err(named_error(ErrorCode::CatalogAlreadyExists, "Catalog", target, "already exists"));
        }
        row.name = target.to_string();
    }
    if let Some(c) = comment {
        row.comment = Some(c.to_string());
    }
    if let Some(o) = owner {
        row.owner = Some(o.to_string());
    }
    row.updated_at = Some(updated_at);
    row.updated_by = own_opt(updated_by);
    let id = row.id;
    Ok((single(Action::Upsert { kind: EntityKind::Catalog, id, body: Row::Catalog(row.clone()) }), row))
}

/// A successful update writes back the catalog it found, changed only where
/// asked: a given owner or comment becomes the catalog's, an absent one leaves
/// the stored value as it was; the name moves only on a rename; the id,
/// creation stamp and storage stay; and the update stamp is the one given.
pub proof fn lemma_update_changes_only_what_is_given(
    snap: Snapshot,
    name: &str,
    new_name: Option<&str>,
    comment: Option<&str>,
    owner: Option<&str>,
    updated_by: Option<&str>,
    updated_at: i64,
    r: Result<(Vec<Action>, CatalogRow), UcError>,
)
    requires
        snap.wf(),
        update_outcome(snap, name, new_name, comment, owner, updated_by, updated_at, r),
        r is Ok,
    ensures
        snap.index().contains_key((EntityKind::Catalog, name@)),
        ({
            let id = snap.index()[(EntityKind::Catalog, name@)];
            let old = CatalogRow::of_row(snap.rows()[(EntityKind::Catalog, id)])->0;
            let new = written(r);
            &&& CatalogRow::of_row(snap.rows()[(EntityKind::Catalog, id)]) is Some
            &&& old.name@ == name@
            &&& new.id == old.id
            &&& (owner matches Some(o) ==> new.owner matches Some(x) && x@ == o@)
            &&& (owner is None ==> new.owner == old.owner)
            &&& (comment matches Some(c) ==> new.comment matches Some(x) && x@ == c@)
            &&& (comment is None ==> new.comment == old.comment)
            &&& (new_name matches Some(t) ==> new.name@ == t@)
            &&& (new_name is None ==> new.name@ == name@)
            &&& new.created_at == old.created_at && new.created_by == old.created_by
            &&& new.storage_root == old.storage_root && new.storage_location == old.storage_location
            &&& new.updated_at == Some(updated_at)
        }),
{
    let key = (EntityKind::Catalog, name@);
    if !snap.index().contains_key(key) {
        assert(r is Err);
    }
    snap.lemma_index_sound();
    snap.lemma_kinds_agree();
    let id = snap.index()[key];
    let row = snap.rows()[(EntityKind::Catalog, id)];
    assert(snap.rows().contains_key((EntityKind::Catalog, id)));
    assert(natural_key_of(row) == Some(name@));
    match CatalogRow::of_row(row) {
        None => {
            assert(r is Err);
        },
        Some(cur) => {
            assert(row == Row::Catalog(cur));
            if new_name is Some && new_name->0@ != name@ && snap.index().contains_key((EntityKind::Catalog, new_name->0@)) {
                assert(r is Err);
            }
            assert(writes_row(r, EntityKind::Catalog, cur.id));
        },
    }
}

/// Drop the catalog named `name`. Nothing cascades to its schemas.
pub fn delete(snap: &Snapshot, name: &str) -> (r: Result<(Vec<Action>, ()), UcError>)
    requires
        snap.wf(),
    ensures
        !snap.index().contains_key((EntityKind::Catalog, name@)) ==> fails_with(
            r,
            ErrorCode::CatalogNotFound,
            "Catalog"@,
            name@,
            "not found"@,
        ),
        snap.index().contains_key((EntityKind::Catalog, name@)) ==> {
            let row = snap.rows()[(EntityKind::Catalog, snap.index()[(EntityKind::Catalog, name@)])];
            match CatalogRow::of_row(row) {
                None => fails_typed::<CatalogRow, _>(r, row),
                Some(cur) => commits(r, seq![Action::Remove { kind: EntityKind::Catalog, id: cur.id }], ()),
            }
        },
{
    let row = match typed_by_key::<CatalogRow>(snap, EntityKind::Catalog, name, ErrorCode::CatalogNotFound, "Catalog", name) {
        Ok(v) => v,
        Err(e) => return Err(e),
    };
    Ok((single(Action::Remove { kind: EntityKind::Catalog, id: row.id }), ()))
}

/// Listing catalogs resumes where the last page stopped: when a listing
/// returns a token, its page holds the first catalogs in name order after the
/// cursor, the token is the name of the page's last catalog, and a listing after
/// that token selects exactly the catalogs that follow the page, so paging
/// neither repeats nor skips one.
pub proof fn lemma_list_resumes_after_token(
    snap: Snapshot,
    page_token: Option<Seq<char>>,
    max_results: i64,
    r: Result<(Vec<CatalogRow>, Option<String>), UcError>,
)
    requires
        snap.wf(),
        listing::<CatalogRow>(fetched(snap, EntityKind::Catalog, Seq::empty(), page_token, max_results), max_results, r),
        r matches Ok((_, t)) && t is Some,
    ensures
        ({
            let ids = crate::store::select_ids(snap.index_entries(), EntityKind::Catalog, Seq::empty(), page_token);
            let (page, token) = r->Ok_0;
            let n = crate::pagination::page_limit(max_results);
            &&& 0 < n < ids.len()
            &&& page@ == crate::repos::typed_seq::<CatalogRow>(crate::store::rows_for(snap.rows(), EntityKind::Catalog, ids.take(n)))
            &&& token->0@ == page@[n - 1].name@
            &&& crate::store::select_ids(snap.index_entries(), EntityKind::Catalog, Seq::empty(), Some(token->0@)) == ids.skip(n)
        }),
{
    crate::repos::lemma_listing_resumes::<CatalogRow>(snap, EntityKind::Catalog, Seq::empty(), page_token, max_results, r);
    let ids = crate::store::select_ids(snap.index_entries(), EntityKind::Catalog, Seq::empty(), page_token);
    let n = crate::pagination::page_limit(max_results);
    let x = r->Ok_0.0@[n - 1];
    let key = crate::store::row_key(snap, EntityKind::Catalog, ids[n - 1]);
    assert(key == x.name@);
    assert(crate::store::key_rest(key, Seq::empty()) =~= x.name@);
}

} // verus!
