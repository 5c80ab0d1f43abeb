//! Repository operations over a snapshot.
//!
//! Reads take a snapshot and return rows. Writes take a snapshot and return
//! the actions of one commit together with what the caller gets back; the
//! commit loop re-runs them against a fresher snapshot whenever the commit
//! loses a race, which is where uniqueness is decided.

pub mod stored;
pub mod delta;
pub mod casbin;
pub mod property;
pub mod staging;
pub mod metastore;
pub mod function;
pub mod model;
pub mod user;
pub mod external_location;
pub mod credential;
pub mod table;
pub mod schema;
pub mod catalog;
pub mod volume;

use crate::errors::{quoted_message, ErrorCode, UcError};
use crate::ids::{uuid_string, uuid_text};
use crate::pagination::{over_fetch_of, page, page_limit};
use crate::store::action::{kind_name, Action, EntityKind};
use crate::store::row::{row_kind, sep, Row};
use crate::store::{
    action_key, deref_rows, ids_present, key_rest, lemma_scan_resumes, row_key, rows_for, select_ids, Snapshot,
};
use crate::text::{append_chars, chars_of, string_of};
use vstd::prelude::*;

verus! {

/// A row type that lives in the store under one `Row` variant.
pub trait Stored: Sized {
    /// What a row of this type is called in messages.
    spec fn what() -> Seq<char>;

    /// The value a stored row holds, when it is of this type.
    spec fn of_row(r: Row) -> Option<Self>;

    /// The stored row holding a value.
    spec fn to_row(self) -> Row;

    /// Read a value back out of a stored row; a row of another type is an
    /// internal error naming what was found.
    fn from_row(r: &Row) -> (res: Result<Self, UcError>)
        ensures
            match Self::of_row(*r) {
                Some(x) => res == Ok::<Self, UcError>(x),
                None => res matches Err(e) && e.code == ErrorCode::Internal && e.message@
                    == mismatch_message(Self::what(), row_kind(*r)),
            },
    ;

    fn into_row(self) -> (r: Row)
        ensures
            r == self.to_row(),
    ;

    /// A value stored is the value read back.
    proof fn lemma_round_trip(self)
        ensures
            Self::of_row(self.to_row()) == Some(self),
    ;

    /// The kind rows of this type are stored under.
    spec fn kind() -> EntityKind;

    /// A row is of this type exactly when it is of this type's kind.
    proof fn lemma_of_row_kind(r: Row)
        ensures
            Self::of_row(r) is Some <==> row_kind(r) == Self::kind(),
    ;
}

/// On a well-formed snapshot every stored row of a type's kind reads back as
/// that type, so a typed read of a present row never meets the mismatch
/// error.
pub proof fn lemma_row_typed<T: Stored>(snap: Snapshot, id: u128)
    requires
        snap.wf(),
        snap.rows().contains_key((T::kind(), id)),
    ensures
        T::of_row(snap.rows()[(T::kind(), id)]) is Some,
{
    snap.lemma_kinds_agree();
    T::lemma_of_row_kind(snap.rows()[(T::kind(), id)]);
}

/// On a well-formed snapshot all rows of a type's kind, in id order, read
/// back as that type.
pub proof fn lemma_rows_of_kind_typed<T: Stored>(snap: Snapshot)
    requires
        snap.wf(),
    ensures
        all_typed::<T>(rows_for(snap.rows(), T::kind(), snap.kind_ids(T::kind()))),
{
    snap.lemma_kind_ids(T::kind());
    let ids = snap.kind_ids(T::kind());
    assert forall|i: int| 0 <= i < ids.len() implies (#[trigger] T::of_row(
        rows_for(snap.rows(), T::kind(), ids)[i],
    )) is Some by {
        lemma_row_typed::<T>(snap, ids[i]);
    }
}

/// A row type whose listings page by name.
pub trait Named {
    spec fn name_of(self) -> Seq<char>;

    fn name_string(&self) -> (s: String)
        ensures
            s@ == self.name_of(),
    ;
}

/// The message for a stored row of an unexpected type.
pub open spec fn mismatch_message(what: Seq<char>, found: EntityKind) -> Seq<char> {
    "expected "@ + what + " row, found "@ + kind_name(found)
}

pub fn mismatch(what: &str, found: EntityKind) -> (e: UcError)
    ensures
        e.code == ErrorCode::Internal,
        e.message@ == mismatch_message(what@, found),
{
    let mut m = chars_of("expected ");
    append_chars(&mut m, chars_of(what).as_slice());
    append_chars(&mut m, chars_of(" row, found ").as_slice());
    append_chars(&mut m, chars_of(found.name()).as_slice());
    let e = UcError::with_message(ErrorCode::Internal, string_of(m.as_slice()));
    assert(e.message@ =~= mismatch_message(what@, found));
    e
}

/// `{entity} '{name}' {tail}` under `code`.
pub fn named_error(code: ErrorCode, entity: &str, name: &str, tail: &str) -> (e: UcError)
    ensures
        e.code == code,
        e.message@ == quoted_message(entity@, name@, tail@),
{
    let mut m = chars_of(entity);
    append_chars(&mut m, chars_of(" '").as_slice());
    append_chars(&mut m, chars_of(name).as_slice());
    append_chars(&mut m, chars_of("' ").as_slice());
    append_chars(&mut m, chars_of(tail).as_slice());
    let e = UcError::with_message(code, string_of(m.as_slice()));
    assert(e.message@ =~= quoted_message(entity@, name@, tail@));
    e
}

/// `{entity} '{id}' {tail}` under `code`, the id in its hyphenated form.
pub fn id_error(code: ErrorCode, entity: &str, id: u128, tail: &str) -> (e: UcError)
    ensures
        e.code == code,
        e.message@ == quoted_message(entity@, uuid_text(id), tail@),
{
    let s = uuid_string(id);
    named_error(code, entity, s.as_str(), tail)
}

/// Whether `e` is the error `{entity} '{name}' {tail}` under `code`.
pub open spec fn is_named_error(e: UcError, code: ErrorCode, entity: Seq<char>, name: Seq<char>, tail: Seq<char>) -> bool {
    e.code == code && e.message@ == quoted_message(entity, name, tail)
}

/// Whether `r` failed with the error `{entity} '{name}' {tail}` under `code`.
pub open spec fn fails_with<T>(r: Result<T, UcError>, code: ErrorCode, entity: Seq<char>, name: Seq<char>, tail: Seq<char>) -> bool {
    match r {
        Ok(_) => false,
        Err(e) => is_named_error(e, code, entity, name, tail),
    }
}

/// `{parent}\0{name}`: the natural key of an entity named `name` under
/// `parent`.
pub open spec fn child_key(parent: u128, name: Seq<char>) -> Seq<char> {
    uuid_text(parent) + sep() + name
}

/// `{parent}\0`: the prefix every child of `parent` is keyed under.
pub open spec fn child_prefix(parent: u128) -> Seq<char> {
    uuid_text(parent) + sep()
}

pub fn child_prefix_string(parent: u128) -> (s: String)
    ensures
        s@ == child_prefix(parent),
{
    let mut v = chars_of(uuid_string(parent).as_str());
    v.push('\u{0}');
    let s = string_of(v.as_slice());
    assert(s@ =~= child_prefix(parent));
    s
}

pub fn child_key_string(parent: u128, name: &str) -> (s: String)
    ensures
        s@ == child_key(parent, name@),
{
    let mut v = chars_of(child_prefix_string(parent).as_str());
    append_chars(&mut v, chars_of(name).as_slice());
    let s = string_of(v.as_slice());
    assert(s@ =~= child_key(parent, name@));
    s
}

/// How reading one stored row as `T` turns out.
pub open spec fn typed_one<T: Stored>(row: Row, r: Result<T, UcError>) -> bool {
    match T::of_row(row) {
        Some(x) => r == Ok::<T, UcError>(x),
        None => r matches Err(e) && e.code == ErrorCode::Internal && e.message@ == mismatch_message(
            T::what(),
            row_kind(row),
        ),
    }
}

/// Every row is of type `T`.
pub open spec fn all_typed<T: Stored>(rows: Seq<Row>) -> bool {
    forall|i: int| 0 <= i < rows.len() ==> (#[trigger] T::of_row(rows[i])) is Some
}

/// The values the rows hold.
pub open spec fn typed_seq<T: Stored>(rows: Seq<Row>) -> Seq<T> {
    rows.map_values(|r: Row| T::of_row(r)->0)
}

/// How reading rows as `T`, in order, turns out: all of them, or the error
/// for the first that is not a `T`.
pub open spec fn typed_outcome<T: Stored>(rows: Seq<Row>, r: Result<Vec<T>, UcError>) -> bool {
    match r {
        Ok(v) => all_typed::<T>(rows) && v@ == typed_seq::<T>(rows),
        Err(e) => exists|i: int|
            {
                &&& 0 <= i < rows.len()
                &&& T::of_row(rows[i]) is None
                &&& forall|j: int| 0 <= j < i ==> (#[trigger] T::of_row(rows[j])) is Some
                &&& e.code == ErrorCode::Internal
                &&& e.message@ == mismatch_message(T::what(), row_kind(rows[i]))
            },
    }
}

/// Read every row as `T`, stopping at the first that is not one.
pub fn typed_all<T: Stored>(found: &[&Row]) -> (r: Result<Vec<T>, UcError>)
    ensures
        typed_outcome::<T>(deref_rows(found@), r),
{
    let ghost rows = deref_rows(found@);
    let mut out: Vec<T> = Vec::new();
    let mut i: usize = 0;
    while i < found.len()
        invariant
            rows == deref_rows(found@),
            i <= found@.len(),
            all_typed::<T>(rows.take(i as int)),
            out@ == typed_seq::<T>(rows.take(i as int)),
        decreases found@.len() - i,
    {
        let x = T::from_row(found[i]);
        match x {
            Ok(v) => {
                out.push(v);
                proof {
                    assert(rows[i as int] == *found@[i as int]);
                    assert(all_typed::<T>(rows.take(i as int + 1))) by {
                        assert forall|j: int| 0 <= j < i + 1 implies (#[trigger] T::of_row(rows.take(i as int + 1)[j])) is Some by {
                            if j < i {
                                assert(rows.take(i as int + 1)[j] == rows.take(i as int)[j]);
                            }
                        }
                    }
                    assert(out@ =~= typed_seq::<T>(rows.take(i as int + 1)));
                }
            },
            Err(e) => {
                proof {
                    assert(rows[i as int] == *found@[i as int]);
                    assert forall|j: int| 0 <= j < i implies (#[trigger] T::of_row(rows[j])) is Some by {
                        assert(rows.take(i as int)[j] == rows[j]);
                    }
                }
                return Err(e);
            },
        }
        i = i + 1;
    }
    assert(rows.take(i as int) =~= rows);
    Ok(out)
}

/// The rows a paginated listing fetches: those the index selects for `kind`
/// under `prefix` after `after`, in key order, one more than the page holds.
pub open spec fn fetched(snap: Snapshot, kind: EntityKind, prefix: Seq<char>, after: Option<Seq<char>>, max_results: i64) -> Seq<Row> {
    let ids = select_ids(snap.index_entries(), kind, prefix, after);
    let n = if ids.len() < over_fetch_of(max_results) {
        ids.len() as int
    } else {
        over_fetch_of(max_results)
    };
    rows_for(snap.rows(), kind, ids.take(n))
}

/// The page of `rows` a listing of `max_results` returns.
pub open spec fn page_of<T>(rows: Seq<T>, max_results: i64) -> Seq<T> {
    let limit = page_limit(max_results);
    if rows.len() > limit {
        rows.subrange(0, limit)
    } else {
        rows
    }
}

/// The token of the page after: the name of the page's last row, when rows
/// remain beyond it.
pub open spec fn next_token_of<T: Named>(rows: Seq<T>, max_results: i64) -> Option<Seq<char>> {
    let limit = page_limit(max_results);
    if limit > 0 && rows.len() > limit {
        Some(rows[limit - 1].name_of())
    } else {
        None
    }
}

/// How a listing over the fetched `rows` turns out.
pub open spec fn listing<T: Stored + Named>(rows: Seq<Row>, max_results: i64, r: Result<(Vec<T>, Option<String>), UcError>) -> bool {
    match r {
        Ok((page, token)) => {
            &&& all_typed::<T>(rows)
            &&& page@ == page_of(typed_seq::<T>(rows), max_results)
            &&& match token {
                Some(t) => next_token_of(typed_seq::<T>(rows), max_results) == Some(t@),
                None => next_token_of(typed_seq::<T>(rows), max_results) is None,
            }
        },
        Err(e) => typed_outcome::<T>(rows, Err(e)),
    }
}

/// A listing hands out a page token only for a full page of a positive size,
/// and the token is the paging key of the page's last row.
pub proof fn lemma_listing_token<T: Stored + Named>(
    rows: Seq<Row>,
    max_results: i64,
    r: Result<(Vec<T>, Option<String>), UcError>,
)
    requires
        listing::<T>(rows, max_results, r),
        r matches Ok((_, t)) && t is Some,
    ensures
        ({
            let (page, token) = r->Ok_0;
            &&& page_limit(max_results) > 0
            &&& page@.len() == page_limit(max_results)
            &&& token->0@ == page@[page@.len() - 1].name_of()
        }),
{
}

/// A listing that hands out a token returns the first rows its scan
/// selects, its token is the paging key of the page's last row, and a scan
/// whose cursor is that row's key (past the prefix) selects exactly the rows
/// after the page.
pub proof fn lemma_listing_resumes<T: Stored + Named>(
    snap: Snapshot,
    kind: EntityKind,
    prefix: Seq<char>,
    page_token: Option<Seq<char>>,
    max_results: i64,
    r: Result<(Vec<T>, Option<String>), UcError>,
)
    requires
        snap.wf(),
        listing::<T>(fetched(snap, kind, prefix, page_token, max_results), max_results, r),
        r matches Ok((_, t)) && t is Some,
    ensures
        ({
            let ids = select_ids(snap.index_entries(), kind, prefix, page_token);
            let (page, token) = r->Ok_0;
            let n = page_limit(max_results);
            &&& 0 < n < ids.len()
            &&& page@ == typed_seq::<T>(rows_for(snap.rows(), kind, ids.take(n)))
            &&& T::of_row(snap.rows()[(kind, ids[n - 1])]) == Some(page@[n - 1])
            &&& token->0@ == page@[n - 1].name_of()
            &&& select_ids(
                snap.index_entries(),
                kind,
                prefix,
                Some(key_rest(row_key(snap, kind, ids[n - 1]), prefix)),
            ) == ids.skip(n)
        }),
{
    let ids = select_ids(snap.index_entries(), kind, prefix, page_token);
    let rows = fetched(snap, kind, prefix, page_token, max_results);
    let n = page_limit(max_results);
    lemma_listing_token::<T>(rows, max_results, r);
    let typed = typed_seq::<T>(rows);
    assert(typed.len() > n);
    assert(rows.len() <= ids.len());
    assert(typed.subrange(0, n) =~= typed_seq::<T>(rows_for(snap.rows(), kind, ids.take(n))));
    assert(rows[n - 1] == snap.rows()[(kind, ids[n - 1])]);
    assert(T::of_row(rows[n - 1]) is Some);
    lemma_scan_resumes(snap, kind, prefix, page_token, n);
}

/// Read fetched rows as `T` and cut them to a page, with the token of the
/// next.
pub fn page_typed<T: Stored + Named>(found: Vec<&Row>, max_results: i64) -> (r: Result<(Vec<T>, Option<String>), UcError>)
    ensures
        listing::<T>(deref_rows(found@), max_results, r),
{
    let typed = typed_all::<T>(found.as_slice());
    match typed {
        Ok(rows) => {
            let ghost all = rows@;
            let key = |x: &T| -> (s: String)
                ensures
                    s@ == x.name_of(),
                { x.name_string() };
            let (page_rows, token) = page(rows, max_results, key);
            proof {
                let limit = page_limit(max_results);
                if limit == 0 {
                    assert(page_rows@ =~= page_of(all, max_results));
                } else {
                    assert(page_rows@ == page_of(all, max_results));
                    if token is Some {
                        let t = token->0;
                        assert(key.ensures((&all[limit - 1],), t));
                        assert(t@ == all[limit - 1].name_of());
                    }
                }
            }
            Ok((page_rows, token))
        },
        Err(e) => Err(e),
    }
}

/// Look a row up by id and read it as `T`; a missing row is the error
/// `{entity} '{id}' not found` under `code`.
pub fn typed_by_id<T: Stored>(snap: &Snapshot, kind: EntityKind, id: u128, code: ErrorCode, entity: &str) -> (r: Result<T, UcError>)
    requires
        snap.wf(),
    ensures
        snap.rows().contains_key((kind, id)) ==> typed_one::<T>(snap.rows()[(kind, id)], r),
        !snap.rows().contains_key((kind, id)) ==> fails_with(r, code, entity@, uuid_text(id), "not found"@),
{
    match snap.get(kind, id) {
        Some(row) => T::from_row(row),
        None => Err(id_error(code, entity, id, "not found")),
    }
}

/// Look a row up by natural key and read it as `T`; a missing key is the
/// error `{entity} '{shown}' not found` under `code`.
pub fn typed_by_key<T: Stored>(snap: &Snapshot, kind: EntityKind, key: &str, code: ErrorCode, entity: &str, shown: &str) -> (r: Result<T, UcError>)
    requires
        snap.wf(),
    ensures
        snap.index().contains_key((kind, key@)) ==> typed_one::<T>(snap.rows()[(kind, snap.index()[(kind, key@)])], r),
        !snap.index().contains_key((kind, key@)) ==> fails_with(r, code, entity@, shown@, "not found"@),
{
    match snap.get_by_natural_key(kind, key) {
        Some(row) => T::from_row(row),
        None => Err(named_error(code, entity, shown, "not found")),
    }
}

/// An optional borrowed string, by its characters.
pub open spec fn str_opt(o: Option<&str>) -> Option<Seq<char>> {
    match o {
        Some(s) => Some(s@),
        None => None,
    }
}

/// An optional string, by its characters.
pub open spec fn string_opt(o: Option<String>) -> Option<Seq<char>> {
    match o {
        Some(s) => Some(s@),
        None => None,
    }
}

pub fn own_opt(o: Option<&str>) -> (r: Option<String>)
    ensures
        string_opt(r) == str_opt(o),
{
    match o {
        Some(s) => Some(s.to_string()),
        None => None,
    }
}

/// COALESCE: a given value replaces the field, an absent one leaves it.
pub open spec fn coalesced(new: Option<String>, arg: Option<&str>, old: Option<String>) -> bool {
    match arg {
        Some(c) => new is Some && new->0@ == c@,
        None => new == old,
    }
}

/// The commit a write produced and what it returns.
pub open spec fn commits<T>(r: Result<(Vec<Action>, T), UcError>, acts: Seq<Action>, out: T) -> bool {
    match r {
        Ok((a, o)) => a@ == acts && o == out,
        Err(_) => false,
    }
}

/// A write that succeeded with a single upsert of `(kind, id)` holding the
/// value it returns.
pub open spec fn writes_row<T: Stored>(r: Result<(Vec<Action>, T), UcError>, kind: EntityKind, id: u128) -> bool {
    match r {
        Ok((a, o)) => a@ == seq![Action::Upsert { kind, id, body: o.to_row() }],
        Err(_) => false,
    }
}

/// What a successful write returns.
pub open spec fn written<T>(r: Result<(Vec<Action>, T), UcError>) -> T {
    r->Ok_0.1
}

/// A write that failed the way reading a stored row as `T` fails.
pub open spec fn fails_typed<T: Stored, U>(r: Result<U, UcError>, row: Row) -> bool {
    T::of_row(row) is None && match r {
        Ok(_) => false,
        Err(e) => e.code == ErrorCode::Internal && e.message@ == mismatch_message(T::what(), row_kind(row)),
    }
}

/// A commit of one action.
pub fn single(a: Action) -> (v: Vec<Action>)
    ensures
        v@ == seq![a],
{
    let mut v: Vec<Action> = Vec::new();
    v.push(a);
    assert(v@ =~= seq![a]);
    v
}

/// Removals of `ids` of `kind`, in order.
pub open spec fn removals(kind: EntityKind, ids: Seq<u128>) -> Seq<Action> {
    crate::store::removals_of(kind, ids)
}

pub fn remove_all(kind: EntityKind, ids: &[u128]) -> (r: Vec<Action>)
    ensures
        r@ == removals(kind, ids@),
{
    let mut out: Vec<Action> = Vec::new();
    let mut i: usize = 0;
    while i < ids.len()
        invariant
            i <= ids@.len(),
            out@ == removals(kind, ids@.take(i as int)),
        decreases ids@.len() - i,
    {
        out.push(Action::Remove { kind, id: ids[i] });
        proof {
            assert(out@ =~= removals(kind, ids@.take(i as int + 1)));
        }
        i = i + 1;
    }
    assert(ids@.take(i as int) =~= ids@);
    out
}

/// The stored rows of `kind` with the given ids, which are all present.
pub fn rows_of_ids<'a>(snap: &'a Snapshot, kind: EntityKind, ids: &[u128]) -> (r: Vec<&'a Row>)
    requires
        snap.wf(),
        ids_present(snap.rows(), kind, ids@),
    ensures
        deref_rows(r@) == rows_for(snap.rows(), kind, ids@),
{
    let mut out: Vec<&'a Row> = Vec::new();
    let mut i: usize = 0;
    while i < ids.len()
        invariant
            snap.wf(),
            ids_present(snap.rows(), kind, ids@),
            i <= ids@.len(),
            deref_rows(out@) == rows_for(snap.rows(), kind, ids@.take(i as int)),
        decreases ids@.len() - i,
    {
        assert(snap.rows().contains_key((kind, ids@[i as int])));
        let ghost before = out@;
        match snap.get(kind, ids[i]) {
            Some(row) => {
                out.push(row);
                proof {
                    assert(out@ == before.push(row));
                    assert(deref_rows(out@) =~= deref_rows(before).push(*row));
                    assert(rows_for(snap.rows(), kind, ids@.take(i as int + 1)) =~= rows_for(
                        snap.rows(),
                        kind,
                        ids@.take(i as int),
                    ).push(snap.rows()[(kind, ids@[i as int])]));
                }
            },
            None => {
                assert(false);
            },
        }
        i = i + 1;
    }
    assert(ids@.take(i as int) =~= ids@);
    out
}

/// The single upsert of a write, when there is one.
pub open spec fn upserted_row(r: Result<(Vec<Action>, ()), UcError>) -> Row {
    match r->Ok_0.0@[0] {
        Action::Upsert { body, .. } => body,
        Action::Remove { .. } => arbitrary(),
    }
}

/// Whether a write succeeded with exactly one upsert of `(kind, id)`.
pub open spec fn upserts_once(r: Result<(Vec<Action>, ()), UcError>, kind: EntityKind, id: u128) -> bool {
    match r {
        Ok((a, _)) => a@.len() == 1 && a@[0] is Upsert && action_key(a@[0]) == (kind, id),
        Err(_) => false,
    }
}

} // verus!
