//! Users, unique by name. Email and external id carry no uniqueness, so
//! lookups on them scan.

use crate::errors::{ErrorCode, UcError};
use crate::ids::{new_v7_id, uuid_text};
use crate::models::user::UserRow;
use crate::pagination::over_fetch;
use crate::repos::{
    all_typed, commits, fails_typed, fails_with, fetched, id_error, listing, named_error,
    own_opt, page_typed, single, str_opt, string_opt, typed_all, typed_by_id, typed_by_key,
    typed_one, typed_outcome, typed_seq, writes_row, written, Stored,
};
use crate::store::action::{Action, EntityKind};
use crate::repos::mismatch_message;
use crate::store::row::{row_kind, Row};
use crate::store::{apply_all_rows, rows_for, Snapshot};
use crate::text::str_eq;
use vstd::prelude::*;

verus! {

/// The user repository.
pub struct UserRepo;

/// The columns users can be looked up by without an index.
#[derive(Clone, Copy)]
pub enum UserField {
    Email,
    ExternalId,
}

/// The value of `field` on `u`.
pub open spec fn user_field(u: UserRow, field: UserField) -> Option<String> {
    match field {
        UserField::Email => u.email,
        UserField::ExternalId => u.external_id,
    }
}

/// Whether `field` of `u` is `value`.
pub open spec fn field_is(u: UserRow, field: UserField, value: Seq<char>) -> bool {
    string_opt(user_field(u, field)) == Some(value)
}

/// The stored users, in id order.
pub open spec fn all_users(snap: Snapshot) -> Seq<Row> {
    rows_for(snap.rows(), EntityKind::User, snap.kind_ids(EntityKind::User))
}

/// How a lookup of the first user (by id) whose `field` is `value` turns
/// out.
pub open spec fn first_user(snap: Snapshot, field: UserField, value: Seq<char>, r: Result<Option<UserRow>, UcError>) -> bool {
    match r {
        Ok(found) => {
            let users = typed_seq::<UserRow>(all_users(snap));
            &&& all_typed::<UserRow>(all_users(snap))
            &&& match found {
                Some(u) => {
                    &&& users.contains(u)
                    &&& field_is(u, field, value)
                    &&& forall|j: int| 0 <= j < users.len() && field_is(#[trigger] users[j], field, value) ==> u.id <= users[j].id
                    &&& exists|i: int|
                        0 <= i < users.len() && users[i] == u && forall|j: int|
                            0 <= j < i && field_is(#[trigger] users[j], field, value) ==> u.id < users[j].id
                },
                None => forall|j: int| 0 <= j < users.len() ==> !field_is(#[trigger] users[j], field, value),
            }
        },
        Err(e) => typed_outcome::<UserRow>(all_users(snap), Err(e)),
    }
}

/// The row a new user starts as.
pub open spec fn new_user(
    row: UserRow,
    id: u128,
    name: &str,
    email: Option<&str>,
    external_id: Option<&str>,
    state: &str,
    created_at: i64,
) -> bool {
    &&& row.id == id
    &&& row.name@ == name@
    &&& string_opt(row.email) == str_opt(email)
    &&& string_opt(row.external_id) == str_opt(external_id)
    &&& string_opt(row.state) == Some(state@)
    &&& row.created_at == Some(created_at)
    &&& row.updated_at is None
    &&& row.picture_url is None
}

/// `new` is `old` after an update: a rename, COALESCE on email and state,
/// and the update time.
pub open spec fn user_updated(
    old: UserRow,
    new: UserRow,
    name: Option<&str>,
    email: Option<&str>,
    state: Option<&str>,
    updated_at: i64,
) -> bool {
    &&& new.id == old.id
    &&& match name {
        Some(t) => new.name@ == t@,
        None => new.name == old.name,
    }
    &&& match email {
        Some(e) => string_opt(new.email) == Some(e@),
        None => new.email == old.email,
    }
    &&& new.external_id == old.external_id
    &&& match state {
        Some(s) => string_opt(new.state) == Some(s@),
        None => new.state == old.state,
    }
    &&& new.created_at == old.created_at
    &&& new.updated_at == Some(updated_at)
    &&& new.picture_url == old.picture_url
}

/// How find-or-create by external id turns out: the first user with that
/// external id and no actions, or, when there is none, a new user named after
/// it, enabled and without email, and the one upsert that writes it.
pub open spec fn found_or_created(
    snap: Snapshot,
    external_id: &str,
    now: i64,
    r: Result<(Vec<Action>, UserRow), UcError>,
) -> bool {
    match r {
        Ok((acts, u)) => {
            ||| acts@.len() == 0 && first_user(snap, UserField::ExternalId, external_id@, Ok(Some(u)))
            ||| {
                &&& first_user(snap, UserField::ExternalId, external_id@, Ok(None))
                &&& acts@ == seq![Action::Upsert { kind: EntityKind::User, id: u.id, body: Row::User(u) }]
                &&& new_user(u, u.id, external_id, None, Some(external_id), "ENABLED", now)
            }
        },
        Err(e) => first_user(snap, UserField::ExternalId, external_id@, Err(e)),
    }
}

/// A lookup that finds a user has one outcome only.
pub proof fn lemma_first_user_unique(
    snap: Snapshot,
    field: UserField,
    value: Seq<char>,
    u: UserRow,
    r: Result<Option<UserRow>, UcError>,
)
    requires
        first_user(snap, field, value, Ok(Some(u))),
        first_user(snap, field, value, r),
    ensures
        r == Ok::<Option<UserRow>, UcError>(Some(u)),
{
    let users = typed_seq::<UserRow>(all_users(snap));
    let i = choose|i: int|
        0 <= i < users.len() && users[i] == u && forall|j: int|
            0 <= j < i && field_is(#[trigger] users[j], field, value) ==> u.id < users[j].id;
    match r {
        Ok(Some(v)) => {
            let i2 = choose|i2: int|
                0 <= i2 < users.len() && users[i2] == v && forall|j: int|
                    0 <= j < i2 && field_is(#[trigger] users[j], field, value) ==> v.id < users[j].id;
            assert(u.id <= users[i2].id);
            assert(v.id <= users[i].id);
            if i < i2 {
                assert(v.id < users[i].id);
            } else if i2 < i {
                assert(u.id < users[i2].id);
            }
        },
        Ok(None) => {
            assert(!field_is(users[i], field, value));
        },
        Err(e) => {
            let k = choose|k: int|
                {
                    &&& 0 <= k < all_users(snap).len()
                    &&& UserRow::of_row(all_users(snap)[k]) is None
                    &&& forall|j: int| 0 <= j < k ==> (#[trigger] UserRow::of_row(all_users(snap)[j])) is Some
                    &&& e.code == ErrorCode::Internal
                    &&& e.message@ == mismatch_message(UserRow::what(), row_kind(all_users(snap)[k]))
                };
            assert(UserRow::of_row(all_users(snap)[k]) is Some);
        },
    }
}

/// How an update of user `id` turns out: not found, a stored row of another
/// type, a rename onto a taken name, or the single upsert of the updated row.
pub open spec fn update_outcome(
    snap: Snapshot,
    id: u128,
    name: Option<&str>,
    email: Option<&str>,
    state: Option<&str>,
    updated_at: i64,
    r: Result<(Vec<Action>, UserRow), UcError>,
) -> bool {
    &&& !snap.rows().contains_key((EntityKind::User, id)) ==> fails_with(r, ErrorCode::NotFound, "User"@, uuid_text(id), "not found"@)
    &&& snap.rows().contains_key((EntityKind::User, id)) ==> {
        let row = snap.rows()[(EntityKind::User, id)];
        match UserRow::of_row(row) {
            None => fails_typed::<UserRow, _>(r, row),
            Some(cur) => if name is Some && name->0@ != cur.name@ && snap.index().contains_key(
                (EntityKind::User, name->0@),
            ) {
                fails_with(r, ErrorCode::ResourceAlreadyExists, "User"@, name->0@, "already exists"@)
            } else {
                writes_row(r, EntityKind::User, id) && user_updated(cur, written(r), name, email, state, updated_at)
            },
        }
    }
}

/// How creating user `name` turns out: the error for a taken name, or the
/// single upsert of the new row.
pub open spec fn create_outcome(
    snap: Snapshot,
    id: u128,
    name: &str,
    email: Option<&str>,
    external_id: Option<&str>,
    state: &str,
    created_at: i64,
    r: Result<(Vec<Action>, UserRow), UcError>,
) -> bool {
    &&& snap.index().contains_key((EntityKind::User, name@)) ==> fails_with(
        r,
        ErrorCode::ResourceAlreadyExists,
        "User"@,
        name@,
        "already exists"@,
    )
    &&& !snap.index().contains_key((EntityKind::User, name@)) ==> {
        &&& writes_row(r, EntityKind::User, id)
        &&& new_user(written(r), id, name, email, external_id, state, created_at)
    }
}

impl UserRepo {
    /// Create a user; the name must be free.
    pub fn create(
        snap: &Snapshot,
        id: u128,
        name: &str,
        email: Option<&str>,
        external_id: Option<&str>,
        state: &str,
        created_at: i64,
    ) -> (r: Result<(Vec<Action>, UserRow), UcError>)
        requires
            snap.wf(),
        ensures
            create_outcome(*snap, id, name, email, external_id, state, created_at, r),
    {
        if snap.id_by_natural_key(EntityKind::User, name).is_some() {
            return Err(named_error(ErrorCode::ResourceAlreadyExists, "User", name, "already exists"));
        }
        let row = UserRow {
            id,
            name: name.to_string(),
            email: own_opt(email),
            external_id: own_opt(external_id),
            state: Some(state.to_string()),
            created_at: Some(created_at),
            updated_at: None,
            picture_url: None,
        };
        Ok((single(Action::Upsert { kind: EntityKind::User, id, body: Row::User(row.clone()) }), row))
    }

    pub fn get_by_id(snap: &Snapshot, id: u128) -> (r: Result<UserRow, UcError>)
        requires
            snap.wf(),
        ensures
            snap.rows().contains_key((EntityKind::User, id)) ==> typed_one::<UserRow>(snap.rows()[(EntityKind::User, id)], r),
            !snap.rows().contains_key((EntityKind::User, id)) ==> fails_with(r, ErrorCode::NotFound, "User"@, uuid_text(id), "not found"@),
    {
        typed_by_id::<UserRow>(snap, EntityKind::User, id, ErrorCode::NotFound, "User")
    }

    pub fn get_by_name(snap: &Snapshot, name: &str) -> (r: Result<UserRow, UcError>)
        requires
            snap.wf(),
        ensures
            snap.index().contains_key((EntityKind::User, name@)) ==> typed_one::<UserRow>(
                snap.rows()[(EntityKind::User, snap.index()[(EntityKind::User, name@)])],
                r,
            ),
            !snap.index().contains_key((EntityKind::User, name@)) ==> fails_with(r, ErrorCode::NotFound, "User"@, name@, "not found"@),
    {
        typed_by_key::<UserRow>(snap, EntityKind::User, name, ErrorCode::NotFound, "User", name)
    }

    /// The user with the smallest id whose `field` is `value`, if any.
    pub fn first_where(snap: &Snapshot, field: UserField, value: &str) -> (r: Result<Option<UserRow>, UcError>)
        requires
            snap.wf(),
        ensures
            first_user(*snap, field, value@, r),
    {
        let rows = snap.iter(EntityKind::User);
        let users = match typed_all::<UserRow>(rows.as_slice()) {
            Ok(v) => v,
            Err(e) => return Err(e),
        };
        let mut best: Option<UserRow> = None;
        let ghost mut bi: int = 0;
        let mut i: usize = 0;
        while i < users.len()
            invariant
                i <= users@.len(),
                match best {
                    Some(b) => {
                        &&& users@.take(i as int).contains(b)
                        &&& field_is(b, field, value@)
                        &&& forall|j: int| 0 <= j < i && field_is(#[trigger] users@[j], field, value@) ==> b.id <= users@[j].id
                        &&& 0 <= bi < i && users@[bi] == b
                        &&& forall|j: int| 0 <= j < bi && field_is(#[trigger] users@[j], field, value@) ==> b.id < users@[j].id
                    },
                    None => forall|j: int| 0 <= j < i ==> !field_is(#[trigger] users@[j], field, value@),
                },
            decreases users@.len() - i,
        {
            let u = &users[i];
            let ghost prev = best;
            let v = match field {
                UserField::Email => &u.email,
                UserField::ExternalId => &u.external_id,
            };
            let hit = match v {
                Some(s) => str_eq(s.as_str(), value),
                None => false,
            };
            if hit {
                let better = match &best {
                    None => true,
                    Some(b) => u.id < b.id,
                };
                if better {
                    best = Some(u.clone());
                    proof {
                        bi = i as int;
                    }
                }
            }
            proof {
                assert(users@.take(i as int + 1)[i as int] == users@[i as int]);
                if best is Some {
                    if prev is Some {
                        let pb = prev->0;
                        let k = choose|k: int| 0 <= k < i && users@.take(i as int)[k] == pb;
                        assert(users@.take(i as int + 1)[k] == pb);
                    }
                    assert(users@.take(i as int + 1).contains(best->0));
                }
            }
            i = i + 1;
        }
        assert(users@.take(i as int) =~= users@);
        Ok(best)
    }

    pub fn get_by_email(snap: &Snapshot, email: &str) -> (r: Result<Option<UserRow>, UcError>)
        requires
            snap.wf(),
        ensures
            first_user(*snap, UserField::Email, email@, r),
    {
        UserRepo::first_where(snap, UserField::Email, email)
    }

    pub fn get_by_external_id(snap: &Snapshot, external_id: &str) -> (r: Result<Option<UserRow>, UcError>)
        requires
            snap.wf(),
        ensures
            first_user(*snap, UserField::ExternalId, external_id@, r),
    {
        UserRepo::first_where(snap, UserField::ExternalId, external_id)
    }

    /// The user with external id `external_id`, created when there is none:
    /// named after the external id, enabled, with no email. The lookup runs
    /// inside the commit, so a writer that loses a race adopts the row the
    /// winner created. The new user's id is fresh and time-ordered.
    pub fn find_or_create_by_external_id(snap: &Snapshot, external_id: &str, now: i64) -> (r: Result<(Vec<Action>, UserRow), UcError>)
        requires
            snap.wf(),
        ensures
            found_or_created(*snap, external_id, now, r),
    {
        let found = UserRepo::first_where(snap, UserField::ExternalId, external_id);
        match found {
            Err(e) => Err(e),
            Ok(Some(existing)) => Ok((Vec::new(), existing)),
            Ok(None) => {
                let row = UserRow {
                    id: new_v7_id(),
                    name: external_id.to_string(),
                    email: None,
                    external_id: Some(external_id.to_string()),
                    state: Some("ENABLED".to_string()),
                    created_at: Some(now),
                    updated_at: None,
                    picture_url: None,
                };
                let id = row.id;
                Ok((single(Action::Upsert { kind: EntityKind::User, id, body: Row::User(row.clone()) }), row))
            },
        }
    }

    /// One page of users in name order, after `page_token`.
    pub fn list(snap: &Snapshot, page_token: Option<&str>, max_results: i64) -> (r: Result<(Vec<UserRow>, Option<String>), UcError>)
        requires
            snap.wf(),
        ensures
            listing::<UserRow>(fetched(*snap, EntityKind::User, Seq::empty(), str_opt(page_token), max_results), max_results, r),
    {
        let found = snap.scan(EntityKind::User, page_token, over_fetch(max_results));
        page_typed::<UserRow>(found, max_results)
    }

    /// Update user `id`; a rename must land on a free name.
    pub fn update(
        snap: &Snapshot,
        id: u128,
        name: Option<&str>,
        email: Option<&str>,
        state: Option<&str>,
        updated_at: i64,
    ) -> (r: Result<(Vec<Action>, UserRow), UcError>)
        requires
            snap.wf(),
        ensures
            update_outcome(*snap, id, name, email, state, updated_at, r),
    {
        let current = match snap.get(EntityKind::User, id) {
            Some(c) => c,
            None => return Err(id_error(ErrorCode::NotFound, "User", id, "not found")),
        };
        let mut row = match UserRow::from_row(current) {
            Ok(v) => v,
            Err(e) => return Err(e),
        };
        if let Some(target) = name {
            if !str_eq(target, row.name.as_str()) && snap.id_by_natural_key(EntityKind::User, target).is_some() {
                return Err(named_error(ErrorCode::ResourceAlreadyExists, "User", target, "already exists"));
            }
            row.name = target.to_string();
        }
        if let Some(e) = email {
            row.email = Some(e.to_string());
        }
        if let Some(s) = state {
            row.state = Some(s.to_string());
        }
        row.updated_at = Some(updated_at);
        Ok((single(Action::Upsert { kind: EntityKind::User, id, body: Row::User(row.clone()) }), row))
    }

    /// Drop user `id`.
    pub fn delete(snap: &Snapshot, id: u128) -> (r: Result<(Vec<Action>, ()), UcError>)
        requires
            snap.wf(),
        ensures
            snap.rows().contains_key((EntityKind::User, id)) ==> commits(r, seq![Action::Remove { kind: EntityKind::User, id }], ()),
            !snap.rows().contains_key((EntityKind::User, id)) ==> fails_with(r, ErrorCode::NotFound, "User"@, uuid_text(id), "not found"@),
    {
        if snap.get(EntityKind::User, id).is_none() {
            return Err(id_error(ErrorCode::NotFound, "User", id, "not found"));
        }
        Ok((single(Action::Remove { kind: EntityKind::User, id }), ()))
    }
}

/// A user is created only under a free name, and it is stored as given: its
/// id and name, the email and external id given (none where none is given),
/// its state, the creation time, and no update time yet.
pub proof fn lemma_create_stores_what_is_given(
    snap: Snapshot,
    id: u128,
    name: &str,
    email: Option<&str>,
    external_id: Option<&str>,
    state: &str,
    created_at: i64,
    r: Result<(Vec<Action>, UserRow), UcError>,
)
    requires
        snap.wf(),
        create_outcome(snap, id, name, email, external_id, state, created_at, r),
        r is Ok,
    ensures
        !snap.index().contains_key((EntityKind::User, name@)),
        writes_row(r, EntityKind::User, id),
        ({
            let row = written(r);
            &&& row.id == id && row.name@ == name@
            &&& (email matches Some(e) ==> row.email matches Some(x) && x@ == e@)
            &&& (email is None ==> row.email is None)
            &&& (external_id matches Some(e) ==> row.external_id matches Some(x) && x@ == e@)
            &&& (external_id is None ==> row.external_id is None)
            &&& row.state matches Some(x) && x@ == state@
            &&& row.created_at == Some(created_at)
            &&& row.updated_at is None
        }),
{
}

/// A successful update of user `id` writes back the user it found, changed
/// only where asked: a given email or state replaces the stored one, an absent
/// one leaves it as it was; the name moves only on a rename; the user keeps its
/// id and external id; and the update time is the one given.
pub proof fn lemma_update_changes_only_what_is_given(
    snap: Snapshot,
    id: u128,
    name: Option<&str>,
    email: Option<&str>,
    state: Option<&str>,
    updated_at: i64,
    r: Result<(Vec<Action>, UserRow), UcError>,
)
    requires
        snap.wf(),
        update_outcome(snap, id, name, email, state, updated_at, r),
        r is Ok,
    ensures
        snap.rows().contains_key((EntityKind::User, id)),
        UserRow::of_row(snap.rows()[(EntityKind::User, id)]) is Some,
        ({
            let old = UserRow::of_row(snap.rows()[(EntityKind::User, id)])->0;
            let new = written(r);
            &&& (email matches Some(e) ==> new.email matches Some(x) && x@ == e@)
            &&& (email is None ==> new.email == old.email)
            &&& (state matches Some(s) ==> new.state matches Some(x) && x@ == s@)
            &&& (state is None ==> new.state == old.state)
            &&& (name matches Some(t) ==> new.name@ == t@)
            &&& (name is None ==> new.name == old.name)
            &&& new.id == old.id && new.external_id == old.external_id
            &&& new.updated_at == Some(updated_at)
        }),
{
    if snap.rows().contains_key((EntityKind::User, id)) {
        match UserRow::of_row(snap.rows()[(EntityKind::User, id)]) {
            None => {
                assert(r is Err);
            },
            Some(cur) => {
            },
        }
    } else {
        assert(r is Err);
    }
}

/// Find-or-create is idempotent: once the user it created for an external id
/// that no user had is committed, a lookup of that external id finds that
/// user and nothing else, so the next find-or-create reuses it and commits
/// nothing.
pub proof fn lemma_created_user_is_found_again(s1: Snapshot, s2: Snapshot, ext: Seq<char>, u: UserRow)
    requires
        s1.wf(),
        s2.wf(),
        first_user(s1, UserField::ExternalId, ext, Ok(None)),
        field_is(u, UserField::ExternalId, ext),
        s2.rows() == s1.rows().insert((EntityKind::User, u.id), Row::User(u)),
    ensures
        first_user(s2, UserField::ExternalId, ext, Ok(Some(u))),
        forall|r: Result<Option<UserRow>, UcError>|
            first_user(s2, UserField::ExternalId, ext, r) ==> r == Ok::<Option<UserRow>, UcError>(Some(u)),
{
    s1.lemma_kind_ids(EntityKind::User);
    s2.lemma_kind_ids(EntityKind::User);
    let ids1 = s1.kind_ids(EntityKind::User);
    let ids2 = s2.kind_ids(EntityKind::User);
    let rows1 = all_users(s1);
    let rows2 = all_users(s2);
    let users1 = typed_seq::<UserRow>(rows1);
    let users2 = typed_seq::<UserRow>(rows2);
    assert forall|i: int| 0 <= i < ids2.len() implies {
        &&& (#[trigger] UserRow::of_row(rows2[i])) is Some
        &&& ids2[i] == u.id ==> users2[i] == u
        &&& ids2[i] != u.id ==> !field_is(users2[i], UserField::ExternalId, ext)
    } by {
        let id = ids2[i];
        assert(rows2[i] == s2.rows()[(EntityKind::User, id)]);
        if id != u.id {
            assert(s1.rows().contains_key((EntityKind::User, id)));
            assert(ids1.contains(id));
            let k = choose|k: int| 0 <= k < ids1.len() && ids1[k] == id;
            assert(rows1[k] == s1.rows()[(EntityKind::User, id)]);
            assert(UserRow::of_row(rows1[k]) is Some);
            assert(users1[k] == users2[i]);
        }
    }
    assert(all_typed::<UserRow>(rows2));
    assert(s2.rows().contains_key((EntityKind::User, u.id)));
    assert(ids2.contains(u.id));
    let k = choose|k: int| 0 <= k < ids2.len() && ids2[k] == u.id;
    assert(users2[k] == u);
    assert(users2.contains(u));
    assert forall|j: int| 0 <= j < users2.len() && field_is(#[trigger] users2[j], UserField::ExternalId, ext) implies u.id <= users2[j].id by {
        assert(ids2[j] == u.id);
    }
    assert forall|r: Result<Option<UserRow>, UcError>| first_user(s2, UserField::ExternalId, ext, r) implies r == Ok::<Option<UserRow>, UcError>(Some(u)) by {
        match r {
            Ok(Some(v)) => {
                let j = choose|j: int| 0 <= j < users2.len() && users2[j] == v;
                assert(field_is(users2[j], UserField::ExternalId, ext));
                assert(ids2[j] == u.id);
            },
            Ok(None) => {
                assert(field_is(users2[k], UserField::ExternalId, ext));
            },
            Err(e) => {
                let i = choose|i: int|
                    {
                        &&& 0 <= i < rows2.len()
                        &&& UserRow::of_row(rows2[i]) is None
                        &&& forall|j: int| 0 <= j < i ==> (#[trigger] UserRow::of_row(rows2[j])) is Some
                        &&& e.code == ErrorCode::Internal
                        &&& e.message@ == mismatch_message(UserRow::what(), row_kind(rows2[i]))
                    };
                assert(UserRow::of_row(rows2[i]) is Some);
            },
        }
    }
}

/// Find-or-create is idempotent: run again on the snapshot its own outcome
/// leads to (the same snapshot when it committed nothing, else the one its
/// upsert was applied to), it returns the same user and commits nothing.
pub proof fn lemma_find_or_create_is_idempotent(
    s1: Snapshot,
    s2: Snapshot,
    external_id: &str,
    now1: i64,
    now2: i64,
    acts: Vec<Action>,
    u: UserRow,
    r2: Result<(Vec<Action>, UserRow), UcError>,
)
    requires
        s1.wf(),
        s2.wf(),
        found_or_created(s1, external_id, now1, Ok((acts, u))),
        acts@.len() == 0 ==> s2 == s1,
        acts@.len() > 0 ==> s2.rows() == apply_all_rows(s1.rows(), acts@),
        found_or_created(s2, external_id, now2, r2),
    ensures
        r2 matches Ok((acts2, v)) && acts2@.len() == 0 && v == u,
{
    if acts@.len() == 0 {
        assert(first_user(s1, UserField::ExternalId, external_id@, Ok(Some(u))));
        match r2 {
            Ok((a2, v)) => {
                if a2@.len() == 0 && first_user(s2, UserField::ExternalId, external_id@, Ok(Some(v))) {
                    lemma_first_user_unique(s1, UserField::ExternalId, external_id@, u, Ok(Some(v)));
                } else {
                    lemma_first_user_unique(s1, UserField::ExternalId, external_id@, u, Ok(None));
                }
            },
            Err(e) => {
                lemma_first_user_unique(s1, UserField::ExternalId, external_id@, u, Err(e));
            },
        }
    } else {
        let a = Action::Upsert { kind: EntityKind::User, id: u.id, body: Row::User(u) };
        assert(acts@ == seq![a]);
        assert(acts@.drop_last() =~= Seq::<Action>::empty());
        assert(apply_all_rows(s1.rows(), acts@.drop_last()) == s1.rows());
        assert(acts@.last() == a);
        assert(apply_all_rows(s1.rows(), acts@) == crate::store::apply_rows(s1.rows(), a));
        assert(s2.rows() == s1.rows().insert((EntityKind::User, u.id), Row::User(u)));
        assert(field_is(u, UserField::ExternalId, external_id@));
        lemma_created_user_is_found_again(s1, s2, external_id@, u);
        match r2 {
            Ok((a2, v)) => {
                if a2@.len() == 0 && first_user(s2, UserField::ExternalId, external_id@, Ok(Some(v))) {
                    assert(first_user(s2, UserField::ExternalId, external_id@, Ok(Some(v))));
                } else {
                    assert(first_user(s2, UserField::ExternalId, external_id@, Ok(None)));
                }
            },
            Err(e) => {
                assert(first_user(s2, UserField::ExternalId, external_id@, Err(e)));
            },
        }
    }
}

/// Listing users resumes where the last page stopped: when a listing
/// returns a token, its page holds the first users in name order after the
/// cursor, the token is the name of the page's last user, and a listing after
/// that token selects exactly the users that follow the page, so paging
/// neither repeats nor skips one.
pub proof fn lemma_list_resumes_after_token(
    snap: Snapshot,
    page_token: Option<Seq<char>>,
    max_results: i64,
    r: Result<(Vec<UserRow>, Option<String>), UcError>,
)
    requires
        snap.wf(),
        listing::<UserRow>(fetched(snap, EntityKind::User, Seq::empty(), page_token, max_results), max_results, r),
        r matches Ok((_, t)) && t is Some,
    ensures
        ({
            let ids = crate::store::select_ids(snap.index_entries(), EntityKind::User, Seq::empty(), page_token);
            let (page, token) = r->Ok_0;
            let n = crate::pagination::page_limit(max_results);
            &&& 0 < n < ids.len()
            &&& page@ == crate::repos::typed_seq::<UserRow>(crate::store::rows_for(snap.rows(), EntityKind::User, ids.take(n)))
            &&& token->0@ == page@[n - 1].name@
            &&& crate::store::select_ids(snap.index_entries(), EntityKind::User, Seq::empty(), Some(token->0@)) == ids.skip(n)
        }),
{
    crate::repos::lemma_listing_resumes::<UserRow>(snap, EntityKind::User, Seq::empty(), page_token, max_results, r);
    let ids = crate::store::select_ids(snap.index_entries(), EntityKind::User, Seq::empty(), page_token);
    let n = crate::pagination::page_limit(max_results);
    let x = r->Ok_0.0@[n - 1];
    let key = crate::store::row_key(snap, EntityKind::User, ids[n - 1]);
    assert(key == x.name@);
    assert(crate::store::key_rest(key, Seq::empty()) =~= x.name@);
}

} // verus!
