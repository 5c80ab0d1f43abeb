//! Staging tables: no uniqueness, found by id or by staging location.

use crate::errors::{quoted_message, ErrorCode, UcError};
use crate::ids::uuid_text;
use crate::models::staging::StagingTableRow;
use crate::repos::{
    all_typed, commits, fails_typed, fails_with, named_error, single, typed_all, typed_by_id,
    typed_one, typed_outcome, typed_seq, Stored,
};
use crate::store::action::{Action, EntityKind};
use crate::store::row::Row;
use crate::store::{rows_for, Snapshot};
use crate::text::str_eq;
use vstd::prelude::*;

verus! {

/// Record a staging table. Nothing is unique, so nothing is checked.
pub fn create(row: &StagingTableRow) -> (r: Result<(Vec<Action>, StagingTableRow), UcError>)
    ensures
        commits(r, seq![Action::Upsert { kind: EntityKind::StagingTable, id: row.id, body: Row::StagingTable(*row) }], *row),
{
    Ok((single(Action::Upsert { kind: EntityKind::StagingTable, id: row.id, body: Row::StagingTable(row.clone()) }), row.clone()))
}

pub fn get_by_id(snap: &Snapshot, id: u128) -> (r: Result<StagingTableRow, UcError>)
    requires
        snap.wf(),
    ensures
        snap.rows().contains_key((EntityKind::StagingTable, id)) ==> typed_one::<StagingTableRow>(
            snap.rows()[(EntityKind::StagingTable, id)],
            r,
        ),
        !snap.rows().contains_key((EntityKind::StagingTable, id)) ==> fails_with(
            r,
            ErrorCode::NotFound,
            "Staging table"@,
            uuid_text(id),
            "not found"@,
        ),
{
    typed_by_id::<StagingTableRow>(snap, EntityKind::StagingTable, id, ErrorCode::NotFound, "Staging table")
}

/// The stored staging tables, in id order.
pub open spec fn all_staging(snap: Snapshot) -> Seq<Row> {
    rows_for(snap.rows(), EntityKind::StagingTable, snap.kind_ids(EntityKind::StagingTable))
}

/// The staging table at `location` with the smallest id: the location is
/// not unique, and the caller commits data against whichever row comes
/// back, so the choice must be stable.
pub fn get_by_location(snap: &Snapshot, location: &str) -> (r: Result<StagingTableRow, UcError>)
    requires
        snap.wf(),
    ensures
        match r {
            Ok(s) => {
                let all = typed_seq::<StagingTableRow>(all_staging(*snap));
                &&& all_typed::<StagingTableRow>(all_staging(*snap))
                &&& all.contains(s)
                &&& s.staging_location@ == location@
                &&& forall|j: int| 0 <= j < all.len() && (#[trigger] all[j]).staging_location@ == location@ ==> s.id <= all[j].id
            },
            Err(e) => {
                ||| typed_outcome::<StagingTableRow>(all_staging(*snap), Err(e))
                ||| {
                    let all = typed_seq::<StagingTableRow>(all_staging(*snap));
                    &&& all_typed::<StagingTableRow>(all_staging(*snap))
                    &&& forall|j: int| 0 <= j < all.len() ==> (#[trigger] all[j]).staging_location@ != location@
                    &&& e.code == ErrorCode::NotFound
                    &&& e.message@ == quoted_message("Staging table at"@, location@, "not found"@)
                }
            },
        },
{
    let rows = snap.iter(EntityKind::StagingTable);
    let all = match typed_all::<StagingTableRow>(rows.as_slice()) {
        Ok(v) => v,
        Err(e) => return Err(e),
    };
    let mut best: Option<StagingTableRow> = None;
    let mut i: usize = 0;
    while i < all.len()
        invariant
            i <= all@.len(),
            match best {
                Some(b) => {
                    &&& all@.take(i as int).contains(b)
                    &&& b.staging_location@ == location@
                    &&& forall|j: int| 0 <= j < i && (#[trigger] all@[j]).staging_location@ == location@ ==> b.id <= all@[j].id
                },
                None => forall|j: int| 0 <= j < i ==> (#[trigger] all@[j]).staging_location@ != location@,
            },
        decreases all@.len() - i,
    {
        let s = &all[i];
        let ghost prev = best;
        if str_eq(s.staging_location.as_str(), location) {
            let better = match &best {
                None => true,
                Some(b) => s.id < b.id,
            };
            if better {
                best = Some(s.clone());
            }
        }
        proof {
            assert(all@.take(i as int + 1)[i as int] == all@[i as int]);
            if best is Some {
                if prev is Some {
                    let pb = prev->0;
                    let k = choose|k: int| 0 <= k < i && all@.take(i as int)[k] == pb;
                    assert(all@.take(i as int + 1)[k] == pb);
                }
                assert(all@.take(i as int + 1).contains(best->0));
            }
        }
        i = i + 1;
    }
    assert(all@.take(i as int) =~= all@);
    match best {
        Some(b) => Ok(b),
        None => Err(named_error(ErrorCode::NotFound, "Staging table at", location, "not found")),
    }
}

/// Mark staging table `id` committed at `committed_at`. A missing row is no
/// error and commits nothing.
pub fn mark_committed(snap: &Snapshot, id: u128, committed_at: i64) -> (r: Result<(Vec<Action>, ()), UcError>)
    requires
        snap.wf(),
    ensures
        !snap.rows().contains_key((EntityKind::StagingTable, id)) ==> commits(r, Seq::empty(), ()),
        snap.rows().contains_key((EntityKind::StagingTable, id)) ==> {
            let row = snap.rows()[(EntityKind::StagingTable, id)];
            match StagingTableRow::of_row(row) {
                None => fails_typed::<StagingTableRow, _>(r, row),
                Some(cur) => commits(
                    r,
                    seq![Action::Upsert {
                        kind: EntityKind::StagingTable,
                        id,
                        body: Row::StagingTable(StagingTableRow { stage_committed: true, stage_committed_at: Some(committed_at), ..cur }),
                    }],
                    (),
                ),
            }
        },
{
    let current = match snap.get(EntityKind::StagingTable, id) {
        Some(c) => c,
        None => return Ok((Vec::new(), ())),
    };
    let mut row = match StagingTableRow::from_row(current) {
        Ok(v) => v,
        Err(e) => return Err(e),
    };
    row.stage_committed = true;
    row.stage_committed_at = Some(committed_at);
    Ok((single(Action::Upsert { kind: EntityKind::StagingTable, id, body: Row::StagingTable(row) }), ()))
}

} // verus!
