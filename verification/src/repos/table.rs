//! Tables, unique by `(schema_id, name)`, and their columns, keyed by
//! `(table_id, ordinal_position)`.

use crate::errors::{ErrorCode, UcError};
use crate::ids::uuid_text;
use crate::models::table::{ColumnRow, TableRow};
use crate::pagination::{over_fetch, page_limit};
use crate::repos::{
    child_key, child_key_string, child_prefix, child_prefix_string, commits, fails_typed,
    fails_with, fetched, id_error, lemma_listing_resumes, listing, named_error, page_typed, remove_all, removals,
    rows_of_ids, single, str_opt, upserted_row, upserts_once, typed_all, typed_by_id, typed_by_key, typed_one, typed_outcome, typed_seq,
    writes_row, written, Stored,
};
use crate::store::action::{Action, EntityKind};
use crate::store::row::{sep, Row};
use crate::store::{key_rest, row_key, rows_for, select_ids, Snapshot};
use crate::text::str_eq;
use vstd::prelude::*;

verus! {

/// Create a table; its `(schema_id, name)` must be free.
pub fn create(snap: &Snapshot, row: &TableRow) -> (r: Result<(Vec<Action>, TableRow), UcError>)
    requires
        snap.wf(),
    ensures
        snap.index().contains_key((EntityKind::Table, child_key(row.schema_id, row.name@)))
            ==> fails_with(r, ErrorCode::TableAlreadyExists, "Table"@, row.name@, "already exists"@),
        !snap.index().contains_key((EntityKind::Table, child_key(row.schema_id, row.name@)))
            ==> commits(r, seq![Action::Upsert { kind: EntityKind::Table, id: row.id, body: Row::Table(*row) }], *row),
{
    let key = child_key_string(row.schema_id, row.name.as_str());
    if snap.id_by_natural_key(EntityKind::Table, key.as_str()).is_some() {
        return Err(named_error(ErrorCode::TableAlreadyExists, "Table", row.name.as_str(), "already exists"));
    }
    Ok((single(Action::Upsert { kind: EntityKind::Table, id: row.id, body: Row::Table(row.clone()) }), row.clone()))
}

pub fn get_by_id(snap: &Snapshot, id: u128) -> (r: Result<TableRow, UcError>)
    requires
        snap.wf(),
    ensures
        snap.rows().contains_key((EntityKind::Table, id)) ==> typed_one::<TableRow>(snap.rows()[(EntityKind::Table, id)], r),
        !snap.rows().contains_key((EntityKind::Table, id)) ==> fails_with(r, ErrorCode::TableNotFound, "Table"@, uuid_text(id), "not found"@),
{
    typed_by_id::<TableRow>(snap, EntityKind::Table, id, ErrorCode::TableNotFound, "Table")
}

pub fn get_by_schema_and_name(snap: &Snapshot, schema_id: u128, name: &str) -> (r: Result<TableRow, UcError>)
    requires
        snap.wf(),
    ensures
        ({
            let k = (EntityKind::Table, child_key(schema_id, name@));
            &&& snap.index().contains_key(k) ==> typed_one::<TableRow>(snap.rows()[(EntityKind::Table, snap.index()[k])], r)
            &&& !snap.index().contains_key(k) ==> fails_with(r, ErrorCode::TableNotFound, "Table"@, name@, "not found"@)
        }),
{
    let key = child_key_string(schema_id, name);
    typed_by_key::<TableRow>(snap, EntityKind::Table, key.as_str(), ErrorCode::TableNotFound, "Table", name)
}

/// One page of a schema's tables in name order, after `page_token`.
pub fn list(snap: &Snapshot, schema_id: u128, page_token: Option<&str>, max_results: i64) -> (r: Result<(Vec<TableRow>, Option<String>), UcError>)
    requires
        snap.wf(),
    ensures
        listing::<TableRow>(fetched(*snap, EntityKind::Table, child_prefix(schema_id), str_opt(page_token), max_results), max_results, r),
{
    let prefix = child_prefix_string(schema_id);
    let found = snap.scan_prefix(EntityKind::Table, prefix.as_str(), page_token, over_fetch(max_results));
    page_typed::<TableRow>(found, max_results)
}

/// Listing a schema's tables resumes where the last page stopped: when a
/// listing returns a token, its page holds the first tables the scan selects,
/// the token is the name of the page's last table, and a listing after that
/// token selects exactly the tables that follow the page, so paging neither
/// repeats nor skips a table.
pub proof fn lemma_list_resumes_after_token(
    snap: Snapshot,
    schema_id: u128,
    page_token: Option<Seq<char>>,
    max_results: i64,
    r: Result<(Vec<TableRow>, Option<String>), UcError>,
)
    requires
        snap.wf(),
        listing::<TableRow>(fetched(snap, EntityKind::Table, child_prefix(schema_id), page_token, max_results), max_results, r),
        r matches Ok((_, t)) && t is Some,
    ensures
        ({
            let ids = select_ids(snap.index_entries(), EntityKind::Table, child_prefix(schema_id), page_token);
            let (page, token) = r->Ok_0;
            let n = page_limit(max_results);
            &&& 0 < n < ids.len()
            &&& page@ == typed_seq::<TableRow>(rows_for(snap.rows(), EntityKind::Table, ids.take(n)))
            &&& token->0@ == page@[n - 1].name@
            &&& select_ids(snap.index_entries(), EntityKind::Table, child_prefix(schema_id), Some(token->0@)) == ids.skip(n)
        }),
{
    let prefix = child_prefix(schema_id);
    lemma_listing_resumes::<TableRow>(snap, EntityKind::Table, prefix, page_token, max_results, r);
    let ids = select_ids(snap.index_entries(), EntityKind::Table, prefix, page_token);
    let t = r->Ok_0.0@[page_limit(max_results) - 1];
    let key = row_key(snap, EntityKind::Table, ids[page_limit(max_results) - 1]);
    assert(key == uuid_text(t.schema_id) + sep() + t.name@);
    assert(key_rest(key, prefix) =~= t.name@);
}

/// Drop table `id`. Its columns stay until `delete_columns` drops them.
pub fn delete(snap: &Snapshot, id: u128) -> (r: Result<(Vec<Action>, ()), UcError>)
    requires
        snap.wf(),
    ensures
        snap.rows().contains_key((EntityKind::Table, id)) ==> commits(r, seq![Action::Remove { kind: EntityKind::Table, id }], ()),
        !snap.rows().contains_key((EntityKind::Table, id)) ==> fails_with(r, ErrorCode::TableNotFound, "Table"@, uuid_text(id), "not found"@),
{
    if snap.get(EntityKind::Table, id).is_none() {
        return Err(id_error(ErrorCode::TableNotFound, "Table", id, "not found"));
    }
    Ok((single(Action::Remove { kind: EntityKind::Table, id }), ()))
}

/// One upsert per column, in the order given.
pub open spec fn column_upserts(columns: Seq<ColumnRow>) -> Seq<Action> {
    columns.map_values(|c: ColumnRow| Action::Upsert { kind: EntityKind::Column, id: c.id, body: Row::Column(c) })
}

/// Add a whole column set in one commit, so a table is never visible with
/// half its schema.
pub fn insert_columns(columns: &[ColumnRow]) -> (r: Result<(Vec<Action>, ()), UcError>)
    ensures
        commits(r, column_upserts(columns@), ()),
{
    let mut acts: Vec<Action> = Vec::new();
    let mut i: usize = 0;
    while i < columns.len()
        invariant
            i <= columns@.len(),
            acts@ == column_upserts(columns@.take(i as int)),
        decreases columns@.len() - i,
    {
        let c = columns[i].clone();
        acts.push(Action::Upsert { kind: EntityKind::Column, id: c.id, body: Row::Column(c) });
        proof {
            assert(acts@ =~= column_upserts(columns@.take(i as int + 1)));
        }
        i = i + 1;
    }
    assert(columns@.take(i as int) =~= columns@);
    Ok((acts, ()))
}

/// The ids of a table's columns, in ordinal order: their natural keys share
/// the table's prefix and sort by position.
pub open spec fn column_ids(snap: Snapshot, table_id: u128) -> Seq<u128> {
    select_ids(snap.index_entries(), EntityKind::Column, child_prefix(table_id), None)
}

/// A table's columns in ordinal order.
pub fn get_columns(snap: &Snapshot, table_id: u128) -> (r: Result<Vec<ColumnRow>, UcError>)
    requires
        snap.wf(),
    ensures
        typed_outcome::<ColumnRow>(rows_for(snap.rows(), EntityKind::Column, column_ids(*snap, table_id)), r),
{
    let prefix = child_prefix_string(table_id);
    let ids = snap.ids_under_prefix(EntityKind::Column, prefix.as_str());
    let rows = rows_of_ids(snap, EntityKind::Column, ids.as_slice());
    typed_all::<ColumnRow>(rows.as_slice())
}

/// Drop all of a table's columns in one commit.
pub fn delete_columns(snap: &Snapshot, table_id: u128) -> (r: Result<(Vec<Action>, ()), UcError>)
    requires
        snap.wf(),
    ensures
        commits(r, removals(EntityKind::Column, column_ids(*snap, table_id)), ()),
{
    let prefix = child_prefix_string(table_id);
    let ids = snap.ids_under_prefix(EntityKind::Column, prefix.as_str());
    Ok((remove_all(EntityKind::Column, ids.as_slice()), ()))
}

/// `new` is `old` after a patch: COALESCE on the fields a Delta commit
/// updates in place, and the update time.
pub open spec fn table_patched(
    old: TableRow,
    new: TableRow,
    column_count: Option<i32>,
    comment: Option<&str>,
    iceberg_version: Option<i64>,
    iceberg_timestamp: Option<i64>,
    updated_at: i64,
) -> bool {
    &&& new.column_count == match column_count {
        Some(c) => Some(c),
        None => old.column_count,
    }
    &&& match comment {
        Some(c) => new.comment is Some && new.comment->0@ == c@,
        None => new.comment == old.comment,
    }
    &&& new.uniform_iceberg_converted_delta_version == match iceberg_version {
        Some(v) => Some(v),
        None => old.uniform_iceberg_converted_delta_version,
    }
    &&& new.uniform_iceberg_converted_delta_timestamp == match iceberg_timestamp {
        Some(t) => Some(t),
        None => old.uniform_iceberg_converted_delta_timestamp,
    }
    &&& new.updated_at == Some(updated_at)
    &&& new.id == old.id
    &&& new.schema_id == old.schema_id
    &&& new.name == old.name
    &&& new.type_ == old.type_
    &&& new.owner == old.owner
    &&& new.created_at == old.created_at
    &&& new.created_by == old.created_by
    &&& new.updated_by == old.updated_by
    &&& new.data_source_format == old.data_source_format
    &&& new.url == old.url
    &&& new.view_definition == old.view_definition
    &&& new.uniform_iceberg_metadata_location == old.uniform_iceberg_metadata_location
}

/// How a patch of table `id` turns out: nothing to commit for a missing
/// table, the error for a stored row of another type, or the single upsert of
/// the patched row.
pub open spec fn patch_outcome(
    snap: Snapshot,
    id: u128,
    column_count: Option<i32>,
    comment: Option<&str>,
    iceberg_version: Option<i64>,
    iceberg_timestamp: Option<i64>,
    updated_at: i64,
    r: Result<(Vec<Action>, ()), UcError>,
) -> bool {
    &&& !snap.rows().contains_key((EntityKind::Table, id)) ==> commits(r, Seq::empty(), ())
    &&& snap.rows().contains_key((EntityKind::Table, id)) ==> {
        let row = snap.rows()[(EntityKind::Table, id)];
        match TableRow::of_row(row) {
            None => fails_typed::<TableRow, _>(r, row),
            Some(cur) => upserts_once(r, EntityKind::Table, id) && match upserted_row(r) {
                Row::Table(new) => table_patched(
                    cur,
                    new,
                    column_count,
                    comment,
                    iceberg_version,
                    iceberg_timestamp,
                    updated_at,
                ),
                _ => false,
            },
        }
    }
}

/// Patch the fields the Delta commit handler updates in place. A missing
/// table is no error and commits nothing.
pub fn patch(
    snap: &Snapshot,
    id: u128,
    column_count: Option<i32>,
    comment: Option<&str>,
    iceberg_version: Option<i64>,
    iceberg_timestamp: Option<i64>,
    updated_at: i64,
) -> (r: Result<(Vec<Action>, ()), UcError>)
    requires
        snap.wf(),
    ensures
        patch_outcome(*snap, id, column_count, comment, iceberg_version, iceberg_timestamp, updated_at, r),
{
    let current = match snap.get(EntityKind::Table, id) {
        Some(c) => c,
        None => return Ok((Vec::new(), ())),
    };
    let mut row = match TableRow::from_row(current) {
        Ok(v) => v,
        Err(e) => return Err(e),
    };
    if let Some(c) = column_count {
        row.column_count = Some(c);
    }
    if let Some(c) = comment {
        row.comment = Some(c.to_string());
    }
    if let Some(v) = iceberg_version {
        row.uniform_iceberg_converted_delta_version = Some(v);
    }
    if let Some(t) = iceberg_timestamp {
        row.uniform_iceberg_converted_delta_timestamp = Some(t);
    }
    row.updated_at = Some(updated_at);
    Ok((single(Action::Upsert { kind: EntityKind::Table, id, body: Row::Table(row) }), ()))
}

/// A patch of a stored table writes it back changed only where asked, as a
/// Delta commit does: a given column count, comment or Iceberg conversion
/// marker replaces the stored one, an absent one leaves it as it was (a commit
/// that carries no comment keeps the table's comment), the update stamp is the
/// one given, and the table keeps its id, schema and name.
pub proof fn lemma_patch_changes_only_what_is_given(
    snap: Snapshot,
    id: u128,
    column_count: Option<i32>,
    comment: Option<&str>,
    iceberg_version: Option<i64>,
    iceberg_timestamp: Option<i64>,
    updated_at: i64,
    r: Result<(Vec<Action>, ()), UcError>,
)
    requires
        snap.wf(),
        patch_outcome(snap, id, column_count, comment, iceberg_version, iceberg_timestamp, updated_at, r),
        snap.rows().contains_key((EntityKind::Table, id)),
    ensures
        r is Ok,
        upserts_once(r, EntityKind::Table, id),
        ({
            let old = TableRow::of_row(snap.rows()[(EntityKind::Table, id)])->0;
            upserted_row(r) matches Row::Table(new) && {
                &&& (comment matches Some(c) ==> new.comment matches Some(x) && x@ == c@)
                &&& (comment is None ==> new.comment == old.comment)
                &&& (column_count matches Some(n) ==> new.column_count == Some(n))
                &&& (column_count is None ==> new.column_count == old.column_count)
                &&& (iceberg_version is None ==> new.uniform_iceberg_converted_delta_version
                    == old.uniform_iceberg_converted_delta_version)
                &&& (iceberg_timestamp is None ==> new.uniform_iceberg_converted_delta_timestamp
                    == old.uniform_iceberg_converted_delta_timestamp)
                &&& new.updated_at == Some(updated_at)
                &&& new.id == old.id && new.schema_id == old.schema_id && new.name == old.name
            }
        }),
{
    crate::repos::lemma_row_typed::<TableRow>(snap, id);
}

/// Rename table `id` onto a free `(schema_id, name)`. A missing table is no
/// error and commits nothing.
pub fn rename(snap: &Snapshot, id: u128, new_name: &str, updated_at: i64) -> (r: Result<(Vec<Action>, ()), UcError>)
    requires
        snap.wf(),
    ensures
        !snap.rows().contains_key((EntityKind::Table, id)) ==> commits(r, Seq::empty(), ()),
        snap.rows().contains_key((EntityKind::Table, id)) ==> {
            let row = snap.rows()[(EntityKind::Table, id)];
            match TableRow::of_row(row) {
                None => fails_typed::<TableRow, _>(r, row),
                Some(cur) => if new_name@ != cur.name@ && snap.index().contains_key(
                    (EntityKind::Table, child_key(cur.schema_id, new_name@)),
                ) {
                    fails_with(r, ErrorCode::TableAlreadyExists, "Table"@, new_name@, "already exists"@)
                } else {
                    upserts_once(r, EntityKind::Table, id) && match upserted_row(r) {
                        Row::Table(new) => {
                            &&& new.name@ == new_name@
                            &&& new.updated_at == Some(updated_at)
                            &&& new.id == cur.id
                            &&& new.schema_id == cur.schema_id
                            &&& new.type_ == cur.type_
                            &&& new.owner == cur.owner
                            &&& new.created_at == cur.created_at
                            &&& new.created_by == cur.created_by
                            &&& new.updated_by == cur.updated_by
                            &&& new.data_source_format == cur.data_source_format
                            &&& new.comment == cur.comment
                            &&& new.url == cur.url
                            &&& new.column_count == cur.column_count
                            &&& new.view_definition == cur.view_definition
                            &&& new.uniform_iceberg_metadata_location == cur.uniform_iceberg_metadata_location
                            &&& new.uniform_iceberg_converted_delta_version
                                == cur.uniform_iceberg_converted_delta_version
                            &&& new.uniform_iceberg_converted_delta_timestamp
                                == cur.uniform_iceberg_converted_delta_timestamp
                        },
                        _ => false,
                    }
                },
            }
        },
{
    let current = match snap.get(EntityKind::Table, id) {
        Some(c) => c,
        None => return Ok((Vec::new(), ())),
    };
    let mut row = match TableRow::from_row(current) {
        Ok(v) => v,
        Err(e) => return Err(e),
    };
    if !str_eq(new_name, row.name.as_str()) {
        let key = child_key_string(row.schema_id, new_name);
        if snap.id_by_natural_key(EntityKind::Table, key.as_str()).is_some() {
            return Err(named_error(ErrorCode::TableAlreadyExists, "Table", new_name, "already exists"));
        }
    }
    row.name = new_name.to_string();
    row.updated_at = Some(updated_at);
    Ok((single(Action::Upsert { kind: EntityKind::Table, id, body: Row::Table(row) }), ()))
}

} // verus!
