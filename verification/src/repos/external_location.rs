//! External locations, unique by name, and the longest-prefix lookup that
//! resolves a storage path to the location governing it.

use crate::errors::{ErrorCode, UcError};
use crate::models::external_location::ExternalLocationRow;
use crate::pagination::over_fetch;
use crate::repos::{
    all_typed, coalesced, commits, fails_typed, fails_with, fetched, listing, named_error,
    own_opt, page_typed, single, str_opt, string_opt, typed_all, typed_by_key, typed_one,
    typed_outcome, typed_seq, upserted_row, upserts_once, Stored,
};
use crate::store::action::{Action, EntityKind};
use crate::store::row::Row;
use crate::store::{rows_for, Snapshot};
use crate::text::{chars_of, has_prefix, starts_with, str_eq};
use vstd::prelude::*;

verus! {

/// Create an external location; its name must be free.
pub fn create(snap: &Snapshot, row: &ExternalLocationRow) -> (r: Result<(Vec<Action>, ExternalLocationRow), UcError>)
    requires
        snap.wf(),
    ensures
        snap.index().contains_key((EntityKind::ExternalLocation, row.name@)) ==> fails_with(
            r,
            ErrorCode::ExternalLocationAlreadyExists,
            "External location"@,
            row.name@,
            "already exists"@,
        ),
        !snap.index().contains_key((EntityKind::ExternalLocation, row.name@)) ==> commits(
            r,
            seq![Action::Upsert { kind: EntityKind::ExternalLocation, id: row.id, body: Row::ExternalLocation(*row) }],
            *row,
        ),
{
    if snap.id_by_natural_key(EntityKind::ExternalLocation, row.name.as_str()).is_some() {
        return Err(
            named_error(ErrorCode::ExternalLocationAlreadyExists, "External location", row.name.as_str(), "already exists"),
        );
    }
    Ok((
        single(Action::Upsert { kind: EntityKind::ExternalLocation, id: row.id, body: Row::ExternalLocation(row.clone()) }),
        row.clone(),
    ))
}

pub fn get_by_name(snap: &Snapshot, name: &str) -> (r: Result<ExternalLocationRow, UcError>)
    requires
        snap.wf(),
    ensures
        snap.index().contains_key((EntityKind::ExternalLocation, name@)) ==> typed_one::<ExternalLocationRow>(
            snap.rows()[(EntityKind::ExternalLocation, snap.index()[(EntityKind::ExternalLocation, name@)])],
            r,
        ),
        !snap.index().contains_key((EntityKind::ExternalLocation, name@)) ==> fails_with(
            r,
            ErrorCode::NotFound,
            "External location"@,
            name@,
            "not found"@,
        ),
{
    typed_by_key::<ExternalLocationRow>(snap, EntityKind::ExternalLocation, name, ErrorCode::NotFound, "External location", name)
}

/// One page of external locations in name order, after `page_token`.
pub fn list(snap: &Snapshot, page_token: Option<&str>, max_results: i64) -> (r: Result<(Vec<ExternalLocationRow>, Option<String>), UcError>)
    requires
        snap.wf(),
    ensures
        listing::<ExternalLocationRow>(
            fetched(*snap, EntityKind::ExternalLocation, Seq::empty(), str_opt(page_token), max_results),
            max_results,
            r,
        ),
{
    let found = snap.scan(EntityKind::ExternalLocation, page_token, over_fetch(max_results));
    page_typed::<ExternalLocationRow>(found, max_results)
}

/// Drop the external location named `name`.
pub fn delete(snap: &Snapshot, name: &str) -> (r: Result<(Vec<Action>, ()), UcError>)
    requires
        snap.wf(),
    ensures
        !snap.index().contains_key((EntityKind::ExternalLocation, name@)) ==> fails_with(
            r,
            ErrorCode::NotFound,
            "External location"@,
            name@,
            "not found"@,
        ),
        snap.index().contains_key((EntityKind::ExternalLocation, name@)) ==> {
            let row = snap.rows()[(EntityKind::ExternalLocation, snap.index()[(EntityKind::ExternalLocation, name@)])];
            match ExternalLocationRow::of_row(row) {
                None => fails_typed::<ExternalLocationRow, _>(r, row),
                Some(cur) => commits(r, seq![Action::Remove { kind: EntityKind::ExternalLocation, id: cur.id }], ()),
            }
        },
{
    let row = match typed_by_key::<ExternalLocationRow>(
        snap,
        EntityKind::ExternalLocation,
        name,
        ErrorCode::NotFound,
        "External location",
        name,
    ) {
        Ok(v) => v,
        Err(e) => return Err(e),
    };
    Ok((single(Action::Remove { kind: EntityKind::ExternalLocation, id: row.id }), ()))
}

/// Whether location `l` governs `path`: its url is a prefix of the path.
pub open spec fn governs(l: ExternalLocationRow, path: Seq<char>) -> bool {
    starts_with(path, l.url@)
}

/// `a` wins over `b` as the governing location: a longer url, or the same
/// length and a smaller id. (Urls that are both prefixes of one path compare
/// the same way by characters as by bytes.)
pub open spec fn preferred(a: ExternalLocationRow, b: ExternalLocationRow) -> bool {
    a.url@.len() > b.url@.len() || (a.url@.len() == b.url@.len() && a.id <= b.id)
}

/// `best` is the location among `locs` that governs `path` and wins over
/// every other that does.
pub open spec fn best_of(locs: Seq<ExternalLocationRow>, path: Seq<char>, best: ExternalLocationRow) -> bool {
    &&& locs.contains(best)
    &&& governs(best, path)
    &&& forall|j: int| 0 <= j < locs.len() && governs(#[trigger] locs[j], path) ==> preferred(best, locs[j])
}

/// The stored external locations, in id order.
pub open spec fn all_locations(snap: Snapshot) -> Seq<Row> {
    rows_for(snap.rows(), EntityKind::ExternalLocation, snap.kind_ids(EntityKind::ExternalLocation))
}

/// The location governing `path`: the longest url that is a prefix of it,
/// ties going to the smallest id so the same path always resolves the same
/// way.
pub fn find_by_path_prefix(snap: &Snapshot, path: &str) -> (r: Result<Option<ExternalLocationRow>, UcError>)
    requires
        snap.wf(),
    ensures
        match r {
            Ok(found) => {
                let locs = typed_seq::<ExternalLocationRow>(all_locations(*snap));
                &&& all_typed::<ExternalLocationRow>(all_locations(*snap))
                &&& match found {
                    Some(best) => best_of(locs, path@, best),
                    None => forall|j: int| 0 <= j < locs.len() ==> !governs(#[trigger] locs[j], path@),
                }
            },
            Err(e) => typed_outcome::<ExternalLocationRow>(all_locations(*snap), Err(e)),
        },
{
    let rows = snap.iter(EntityKind::ExternalLocation);
    let locs = match typed_all::<ExternalLocationRow>(rows.as_slice()) {
        Ok(v) => v,
        Err(e) => return Err(e),
    };
    let p = chars_of(path);
    let mut best: Option<ExternalLocationRow> = None;
    let mut best_len: usize = 0;
    let mut i: usize = 0;
    while i < locs.len()
        invariant
            i <= locs@.len(),
            p@ == path@,
            match best {
                Some(b) => {
                    &&& locs@.take(i as int).contains(b)
                    &&& governs(b, path@)
                    &&& best_len == b.url@.len()
                    &&& forall|j: int| 0 <= j < i && governs(#[trigger] locs@[j], path@) ==> preferred(b, locs@[j])
                },
                None => forall|j: int| 0 <= j < i ==> !governs(#[trigger] locs@[j], path@),
            },
        decreases locs@.len() - i,
    {
        let l = &locs[i];
        let u = chars_of(l.url.as_str());
        let ghost prev = best;
        if has_prefix(p.as_slice(), u.as_slice()) {
            let better = match &best {
                None => true,
                Some(b) => u.len() > best_len || (u.len() == best_len && l.id < b.id),
            };
            if better {
                best = Some(l.clone());
                best_len = u.len();
            }
        }
        proof {
            assert(locs@.take(i as int + 1)[i as int] == locs@[i as int]);
            if best is Some {
                let b = best->0;
                if prev is Some {
                    let pb = prev->0;
                    assert(locs@.take(i as int).contains(pb));
                    let k = choose|k: int| 0 <= k < i && locs@.take(i as int)[k] == pb;
                    assert(locs@.take(i as int + 1)[k] == pb);
                }
                assert(locs@.take(i as int + 1).contains(b));
            }
        }
        i = i + 1;
    }
    assert(locs@.take(i as int) =~= locs@);
    Ok(best)
}

/// `new` is `old` after an update: a rename, COALESCE on url, comment, owner
/// and credential, and the update stamp.
pub open spec fn location_updated(
    old: ExternalLocationRow,
    new: ExternalLocationRow,
    new_name: Option<&str>,
    url: Option<&str>,
    comment: Option<&str>,
    owner: Option<&str>,
    credential_id: Option<u128>,
    updated_at: i64,
    updated_by: Option<&str>,
) -> bool {
    &&& new.id == old.id
    &&& match new_name {
        Some(t) => new.name@ == t@,
        None => new.name == old.name,
    }
    &&& match url {
        Some(u) => new.url@ == u@,
        None => new.url == old.url,
    }
    &&& coalesced(new.comment, comment, old.comment)
    &&& coalesced(new.owner, owner, old.owner)
    &&& new.credential_id == match credential_id {
        Some(c) => c,
        None => old.credential_id,
    }
    &&& new.created_at == old.created_at
    &&& new.created_by == old.created_by
    &&& new.updated_at == Some(updated_at)
    &&& string_opt(new.updated_by) == str_opt(updated_by)
}

/// How an update of external location `id` turns out: nothing to commit for
/// a missing location, the error for a stored row of another type or a rename
/// onto a taken name, or the single upsert of the updated row.
pub open spec fn update_outcome(
    snap: Snapshot,
    id: u128,
    new_name: Option<&str>,
    url: Option<&str>,
    comment: Option<&str>,
    owner: Option<&str>,
    credential_id: Option<u128>,
    updated_at: i64,
    updated_by: Option<&str>,
    r: Result<(Vec<Action>, ()), UcError>,
) -> bool {
    &&& !snap.rows().contains_key((EntityKind::ExternalLocation, id)) ==> commits(r, Seq::empty(), ())
    &&& snap.rows().contains_key((EntityKind::ExternalLocation, id)) ==> {
        let row = snap.rows()[(EntityKind::ExternalLocation, id)];
        match ExternalLocationRow::of_row(row) {
            None => fails_typed::<ExternalLocationRow, _>(r, row),
            Some(cur) => if new_name is Some && new_name->0@ != cur.name@ && snap.index().contains_key(
                (EntityKind::ExternalLocation, new_name->0@),
            ) {
                fails_with(r, ErrorCode::ExternalLocationAlreadyExists, "External location"@, new_name->0@, "already exists"@)
            } else {
                upserts_once(r, EntityKind::ExternalLocation, id) && match upserted_row(r) {
                    Row::ExternalLocation(new) => location_updated(
                        cur,
                        new,
                        new_name,
                        url,
                        comment,
                        owner,
                        credential_id,
                        updated_at,
                        updated_by,
                    ),
                    _ => false,
                }
            },
        }
    }
}

/// Update external location `id`; a rename must land on a free name. A
/// missing location is no error and commits nothing.
pub fn update(
    snap: &Snapshot,
    id: u128,
    new_name: Option<&str>,
    url: Option<&str>,
    comment: Option<&str>,
    owner: Option<&str>,
    credential_id: Option<u128>,
    updated_at: i64,
    updated_by: Option<&str>,
) -> (r: Result<(Vec<Action>, ()), UcError>)
    requires
        snap.wf(),
    ensures
        update_outcome(*snap, id, new_name, url, comment, owner, credential_id, updated_at, updated_by, r),
{
    let current = match snap.get(EntityKind::ExternalLocation, id) {
        Some(c) => c,
        None => return Ok((Vec::new(), ())),
    };
    let mut row = match ExternalLocationRow::from_row(current) {
        Ok(v) => v,
        Err(e) => return Err(e),
    };
    if let Some(target) = new_name {
        if !str_eq(target, row.name.as_str()) && snap.id_by_natural_key(EntityKind::ExternalLocation, target).is_some() {
            return Err(named_error(ErrorCode::ExternalLocationAlreadyExists, "External location", target, "already exists"));
        }
        row.name = target.to_string();
    }
    if let Some(u) = url {
        row.url = u.to_string();
    }
    if let Some(c) = comment {
        row.comment = Some(c.to_string());
    }
    if let Some(o) = owner {
        row.owner = Some(o.to_string());
    }
    if let Some(c) = credential_id {
        row.credential_id = c;
    }
    row.updated_at = Some(updated_at);
    row.updated_by = own_opt(updated_by);
    Ok((single(Action::Upsert { kind: EntityKind::ExternalLocation, id, body: Row::ExternalLocation(row) }), ()))
}

/// A successful update of a stored external location writes it back changed
/// only where asked: a given url, owner, comment or credential replaces the
/// stored one, an absent one leaves it as it was; the name moves only on a
/// rename; the location keeps its id; and the update stamp is the one given.
pub proof fn lemma_update_changes_only_what_is_given(
    snap: Snapshot,
    id: u128,
    new_name: Option<&str>,
    url: Option<&str>,
    comment: Option<&str>,
    owner: Option<&str>,
    credential_id: Option<u128>,
    updated_at: i64,
    updated_by: Option<&str>,
    r: Result<(Vec<Action>, ()), UcError>,
)
    requires
        snap.wf(),
        update_outcome(snap, id, new_name, url, comment, owner, credential_id, updated_at, updated_by, r),
        snap.rows().contains_key((EntityKind::ExternalLocation, id)),
        r is Ok,
    ensures
        ExternalLocationRow::of_row(snap.rows()[(EntityKind::ExternalLocation, id)]) is Some,
        upserts_once(r, EntityKind::ExternalLocation, id),
        ({
            let old = ExternalLocationRow::of_row(snap.rows()[(EntityKind::ExternalLocation, id)])->0;
            upserted_row(r) matches Row::ExternalLocation(new) && {
                &&& (url matches Some(u) ==> new.url@ == u@)
                &&& (url is None ==> new.url == old.url)
                &&& (owner matches Some(o) ==> new.owner matches Some(x) && x@ == o@)
                &&& (owner is None ==> new.owner == old.owner)
                &&& (comment matches Some(c) ==> new.comment matches Some(x) && x@ == c@)
                &&& (comment is None ==> new.comment == old.comment)
                &&& (credential_id matches Some(c) ==> new.credential_id == c)
                &&& (credential_id is None ==> new.credential_id == old.credential_id)
                &&& (new_name matches Some(t) ==> new.name@ == t@)
                &&& (new_name is None ==> new.name == old.name)
                &&& new.id == old.id
                &&& new.updated_at == Some(updated_at)
            }
        }),
{
    match ExternalLocationRow::of_row(snap.rows()[(EntityKind::ExternalLocation, id)]) {
        None => {
            assert(r is Err);
        },
        Some(cur) => {
        },
    }
}

/// Listing external locations resumes where the last page stopped: when a listing
/// returns a token, its page holds the first locations in name order after the
/// cursor, the token is the name of the page's last location, and a listing after
/// that token selects exactly the locations that follow the page, so paging
/// neither repeats nor skips one.
pub proof fn lemma_list_resumes_after_token(
    snap: Snapshot,
    page_token: Option<Seq<char>>,
    max_results: i64,
    r: Result<(Vec<ExternalLocationRow>, Option<String>), UcError>,
)
    requires
        snap.wf(),
        listing::<ExternalLocationRow>(fetched(snap, EntityKind::ExternalLocation, Seq::empty(), page_token, max_results), max_results, r),
        r matches Ok((_, t)) && t is Some,
    ensures
        ({
            let ids = crate::store::select_ids(snap.index_entries(), EntityKind::ExternalLocation, Seq::empty(), page_token);
            let (page, token) = r->Ok_0;
            let n = crate::pagination::page_limit(max_results);
            &&& 0 < n < ids.len()
            &&& page@ == crate::repos::typed_seq::<ExternalLocationRow>(crate::store::rows_for(snap.rows(), EntityKind::ExternalLocation, ids.take(n)))
            &&& token->0@ == page@[n - 1].name@
            &&& crate::store::select_ids(snap.index_entries(), EntityKind::ExternalLocation, Seq::empty(), Some(token->0@)) == ids.skip(n)
        }),
{
    crate::repos::lemma_listing_resumes::<ExternalLocationRow>(snap, EntityKind::ExternalLocation, Seq::empty(), page_token, max_results, r);
    let ids = crate::store::select_ids(snap.index_entries(), EntityKind::ExternalLocation, Seq::empty(), page_token);
    let n = crate::pagination::page_limit(max_results);
    let x = r->Ok_0.0@[n - 1];
    let key = crate::store::row_key(snap, EntityKind::ExternalLocation, ids[n - 1]);
    assert(key == x.name@);
    assert(crate::store::key_rest(key, Seq::empty()) =~= x.name@);
}

} // verus!
