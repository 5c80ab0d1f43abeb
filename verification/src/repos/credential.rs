//! Storage credentials, unique by name.

use crate::errors::{ErrorCode, UcError};
use crate::ids::uuid_text;
use crate::models::credential::CredentialRow;
use crate::pagination::over_fetch;
use crate::repos::{
    coalesced, commits, fails_typed, fails_with, fetched, listing, named_error, own_opt,
    page_typed, single, str_opt, string_opt, typed_by_id, typed_by_key, typed_one, upserted_row,
    upserts_once, Stored,
};
use crate::store::action::{Action, EntityKind};
use crate::store::row::Row;
use crate::store::Snapshot;
use crate::text::str_eq;
use vstd::prelude::*;

verus! {

/// Create a credential; its name must be free.
pub fn create(snap: &Snapshot, row: &CredentialRow) -> (r: Result<(Vec<Action>, CredentialRow), UcError>)
    requires
        snap.wf(),
    ensures
        snap.index().contains_key((EntityKind::Credential, row.name@)) ==> fails_with(
            r,
            ErrorCode::StorageCredentialAlreadyExists,
            "Credential"@,
            row.name@,
            "already exists"@,
        ),
        !snap.index().contains_key((EntityKind::Credential, row.name@)) ==> commits(
            r,
            seq![Action::Upsert { kind: EntityKind::Credential, id: row.id, body: Row::Credential(*row) }],
            *row,
        ),
{
    if snap.id_by_natural_key(EntityKind::Credential, row.name.as_str()).is_some() {
        return Err(named_error(ErrorCode::StorageCredentialAlreadyExists, "Credential", row.name.as_str(), "already exists"));
    }
    Ok((single(Action::Upsert { kind: EntityKind::Credential, id: row.id, body: Row::Credential(row.clone()) }), row.clone()))
}

pub fn get_by_name(snap: &Snapshot, name: &str) -> (r: Result<CredentialRow, UcError>)
    requires
        snap.wf(),
    ensures
        snap.index().contains_key((EntityKind::Credential, name@)) ==> typed_one::<CredentialRow>(
            snap.rows()[(EntityKind::Credential, snap.index()[(EntityKind::Credential, name@)])],
            r,
        ),
        !snap.index().contains_key((EntityKind::Credential, name@)) ==> fails_with(r, ErrorCode::NotFound, "Credential"@, name@, "not found"@),
{
    typed_by_key::<CredentialRow>(snap, EntityKind::Credential, name, ErrorCode::NotFound, "Credential", name)
}

pub fn get_by_id(snap: &Snapshot, id: u128) -> (r: Result<CredentialRow, UcError>)
    requires
        snap.wf(),
    ensures
        snap.rows().contains_key((EntityKind::Credential, id)) ==> typed_one::<CredentialRow>(snap.rows()[(EntityKind::Credential, id)], r),
        !snap.rows().contains_key((EntityKind::Credential, id)) ==> fails_with(r, ErrorCode::NotFound, "Credential"@, uuid_text(id), "not found"@),
{
    typed_by_id::<CredentialRow>(snap, EntityKind::Credential, id, ErrorCode::NotFound, "Credential")
}

/// One page of credentials in name order, after `page_token`.
pub fn list(snap: &Snapshot, page_token: Option<&str>, max_results: i64) -> (r: Result<(Vec<CredentialRow>, Option<String>), UcError>)
    requires
        snap.wf(),
    ensures
        listing::<CredentialRow>(fetched(*snap, EntityKind::Credential, Seq::empty(), str_opt(page_token), max_results), max_results, r),
{
    let found = snap.scan(EntityKind::Credential, page_token, over_fetch(max_results));
    page_typed::<CredentialRow>(found, max_results)
}

/// Drop the credential named `name`.
pub fn delete(snap: &Snapshot, name: &str) -> (r: Result<(Vec<Action>, ()), UcError>)
    requires
        snap.wf(),
    ensures
        !snap.index().contains_key((EntityKind::Credential, name@)) ==> fails_with(r, ErrorCode::NotFound, "Credential"@, name@, "not found"@),
        snap.index().contains_key((EntityKind::Credential, name@)) ==> {
            let row = snap.rows()[(EntityKind::Credential, snap.index()[(EntityKind::Credential, name@)])];
            match CredentialRow::of_row(row) {
                None => fails_typed::<CredentialRow, _>(r, row),
                Some(cur) => commits(r, seq![Action::Remove { kind: EntityKind::Credential, id: cur.id }], ()),
            }
        },
{
    let row = match typed_by_key::<CredentialRow>(snap, EntityKind::Credential, name, ErrorCode::NotFound, "Credential", name) {
        Ok(v) => v,
        Err(e) => return Err(e),
    };
    Ok((single(Action::Remove { kind: EntityKind::Credential, id: row.id }), ()))
}

/// `new` is `old` after an update: a rename, COALESCE on comment, owner and
/// the credential itself, and the update stamp.
pub open spec fn credential_updated(
    old: CredentialRow,
    new: CredentialRow,
    new_name: Option<&str>,
    comment: Option<&str>,
    owner: Option<&str>,
    credential: Option<&str>,
    updated_at: i64,
    updated_by: Option<&str>,
) -> bool {
    &&& new.id == old.id
    &&& match new_name {
        Some(t) => new.name@ == t@,
        None => new.name == old.name,
    }
    &&& new.credential_type == old.credential_type
    &&& match credential {
        Some(c) => new.credential@ == c@,
        None => new.credential == old.credential,
    }
    &&& new.purpose == old.purpose
    &&& coalesced(new.comment, comment, old.comment)
    &&& coalesced(new.owner, owner, old.owner)
    &&& new.created_at == old.created_at
    &&& new.created_by == old.created_by
    &&& new.updated_at == Some(updated_at)
    &&& string_opt(new.updated_by) == str_opt(updated_by)
}

/// How an update of credential `id` turns out: nothing to commit for a
/// missing credential, the error for a stored row of another type or a rename
/// onto a taken name, or the single upsert of the updated row.
pub open spec fn update_outcome(
    snap: Snapshot,
    id: u128,
    new_name: Option<&str>,
    comment: Option<&str>,
    owner: Option<&str>,
    credential: Option<&str>,
    updated_at: i64,
    updated_by: Option<&str>,
    r: Result<(Vec<Action>, ()), UcError>,
) -> bool {
    &&& !snap.rows().contains_key((EntityKind::Credential, id)) ==> commits(r, Seq::empty(), ())
    &&& snap.rows().contains_key((EntityKind::Credential, id)) ==> {
        let row = snap.rows()[(EntityKind::Credential, id)];
        match CredentialRow::of_row(row) {
            None => fails_typed::<CredentialRow, _>(r, row),
            Some(cur) => if new_name is Some && new_name->0@ != cur.name@ && snap.index().contains_key(
                (EntityKind::Credential, new_name->0@),
            ) {
                fails_with(r, ErrorCode::StorageCredentialAlreadyExists, "Credential"@, new_name->0@, "already exists"@)
            } else {
                upserts_once(r, EntityKind::Credential, id) && match upserted_row(r) {
                    Row::Credential(new) => credential_updated(
                        cur,
                        new,
                        new_name,
                        comment,
                        owner,
                        credential,
                        updated_at,
                        updated_by,
                    ),
                    _ => false,
                }
            },
        }
    }
}

/// Update credential `id`; a rename must land on a free name. A missing
/// credential is no error and commits nothing.
pub fn update(
    snap: &Snapshot,
    id: u128,
    new_name: Option<&str>,
    comment: Option<&str>,
    owner: Option<&str>,
    credential: Option<&str>,
    updated_at: i64,
    updated_by: Option<&str>,
) -> (r: Result<(Vec<Action>, ()), UcError>)
    requires
        snap.wf(),
    ensures
        update_outcome(*snap, id, new_name, comment, owner, credential, updated_at, updated_by, r),
{
    let current = match snap.get(EntityKind::Credential, id) {
        Some(c) => c,
        None => return Ok((Vec::new(), ())),
    };
    let mut row = match CredentialRow::from_row(current) {
        Ok(v) => v,
        Err(e) => return Err(e),
    };
    if let Some(target) = new_name {
        if !str_eq(target, row.name.as_str()) && snap.id_by_natural_key(EntityKind::Credential, target).is_some() {
            return Err(named_error(ErrorCode::StorageCredentialAlreadyExists, "Credential", target, "already exists"));
        }
        row.name = target.to_string();
    }
    if let Some(c) = comment {
        row.comment = Some(c.to_string());
    }
    if let Some(o) = owner {
        row.owner = Some(o.to_string());
    }
    if let Some(c) = credential {
        row.credential = c.to_string();
    }
    row.updated_at = Some(updated_at);
    row.updated_by = own_opt(updated_by);
    Ok((single(Action::Upsert { kind: EntityKind::Credential, id, body: Row::Credential(row) }), ()))
}

/// A successful update of a stored credential writes it back changed only
/// where asked: a given owner, comment or secret replaces the stored one, an
/// absent one leaves it as it was; the name moves only on a rename; the
/// credential keeps its id, type and purpose; and the update stamp is the one
/// given.
pub proof fn lemma_update_changes_only_what_is_given(
    snap: Snapshot,
    id: u128,
    new_name: Option<&str>,
    comment: Option<&str>,
    owner: Option<&str>,
    credential: Option<&str>,
    updated_at: i64,
    updated_by: Option<&str>,
    r: Result<(Vec<Action>, ()), UcError>,
)
    requires
        snap.wf(),
        update_outcome(snap, id, new_name, comment, owner, credential, updated_at, updated_by, r),
        snap.rows().contains_key((EntityKind::Credential, id)),
        r is Ok,
    ensures
        CredentialRow::of_row(snap.rows()[(EntityKind::Credential, id)]) is Some,
        upserts_once(r, EntityKind::Credential, id),
        ({
            let old = CredentialRow::of_row(snap.rows()[(EntityKind::Credential, id)])->0;
            upserted_row(r) matches Row::Credential(new) && {
                &&& (owner matches Some(o) ==> new.owner matches Some(x) && x@ == o@)
                &&& (owner is None ==> new.owner == old.owner)
                &&& (comment matches Some(c) ==> new.comment matches Some(x) && x@ == c@)
                &&& (comment is None ==> new.comment == old.comment)
                &&& (credential matches Some(c) ==> new.credential@ == c@)
                &&& (credential is None ==> new.credential == old.credential)
                &&& (new_name matches Some(t) ==> new.name@ == t@)
                &&& (new_name is None ==> new.name == old.name)
                &&& new.id == old.id && new.credential_type == old.credential_type && new.purpose == old.purpose
                &&& new.updated_at == Some(updated_at)
            }
        }),
{
    match CredentialRow::of_row(snap.rows()[(EntityKind::Credential, id)]) {
        None => {
            assert(r is Err);
        },
        Some(cur) => {
        },
    }
}

/// Listing credentials resumes where the last page stopped: when a listing
/// returns a token, its page holds the first credentials in name order after the
/// cursor, the token is the name of the page's last credential, and a listing after
/// that token selects exactly the credentials that follow the page, so paging
/// neither repeats nor skips one.
pub proof fn lemma_list_resumes_after_token(
    snap: Snapshot,
    page_token: Option<Seq<char>>,
    max_results: i64,
    r: Result<(Vec<CredentialRow>, Option<String>), UcError>,
)
    requires
        snap.wf(),
        listing::<CredentialRow>(fetched(snap, EntityKind::Credential, Seq::empty(), page_token, max_results), max_results, r),
        r matches Ok((_, t)) && t is Some,
    ensures
        ({
            let ids = crate::store::select_ids(snap.index_entries(), EntityKind::Credential, Seq::empty(), page_token);
            let (page, token) = r->Ok_0;
            let n = crate::pagination::page_limit(max_results);
            &&& 0 < n < ids.len()
            &&& page@ == crate::repos::typed_seq::<CredentialRow>(crate::store::rows_for(snap.rows(), EntityKind::Credential, ids.take(n)))
            &&& token->0@ == page@[n - 1].name@
            &&& crate::store::select_ids(snap.index_entries(), EntityKind::Credential, Seq::empty(), Some(token->0@)) == ids.skip(n)
        }),
{
    crate::repos::lemma_listing_resumes::<CredentialRow>(snap, EntityKind::Credential, Seq::empty(), page_token, max_results, r);
    let ids = crate::store::select_ids(snap.index_entries(), EntityKind::Credential, Seq::empty(), page_token);
    let n = crate::pagination::page_limit(max_results);
    let x = r->Ok_0.0@[n - 1];
    let key = crate::store::row_key(snap, EntityKind::Credential, ids[n - 1]);
    assert(key == x.name@);
    assert(crate::store::key_rest(key, Seq::empty()) =~= x.name@);
}

} // verus!
