//! The singleton metastore row.

use crate::errors::{ErrorCode, UcError};
use crate::ids::new_v7_id;
use crate::models::metastore::MetastoreRow;
use crate::repos::{single, typed_one, Stored};
use crate::store::action::{Action, EntityKind};
use crate::store::row::Row;
use crate::store::{rows_for, Snapshot};
use vstd::prelude::*;

verus! {

/// The stored metastore rows, in id order.
pub open spec fn all_metastores(snap: Snapshot) -> Seq<Row> {
    rows_for(snap.rows(), EntityKind::Metastore, snap.kind_ids(EntityKind::Metastore))
}

/// The metastore row, created under `name` when there is none. The check
/// runs inside the commit, so a server that loses the race to create it
/// finds the winner's row and commits nothing. A created row's id is fresh.
pub fn get_or_init(snap: &Snapshot, name: &str) -> (r: Result<(Vec<Action>, MetastoreRow), UcError>)
    requires
        snap.wf(),
    ensures
        all_metastores(*snap).len() > 0 ==> match r {
            Ok((acts, m)) => acts@.len() == 0 && typed_one::<MetastoreRow>(all_metastores(*snap)[0], Ok(m)),
            Err(e) => typed_one::<MetastoreRow>(all_metastores(*snap)[0], Err(e)),
        },
        all_metastores(*snap).len() == 0 ==> match r {
            Ok((acts, m)) => m.name@ == name@ && acts@ == seq![Action::Upsert { kind: EntityKind::Metastore, id: m.id, body: Row::Metastore(m) }],
            Err(_) => false,
        },
{
    let rows = snap.iter(EntityKind::Metastore);
    if rows.len() > 0 {
        return match MetastoreRow::from_row(rows[0]) {
            Ok(m) => Ok((Vec::new(), m)),
            Err(e) => Err(e),
        };
    }
    let row = MetastoreRow { id: new_v7_id(), name: name.to_string() };
    let id = row.id;
    Ok((single(Action::Upsert { kind: EntityKind::Metastore, id, body: Row::Metastore(row.clone()) }), row))
}

/// The metastore row; before initialisation there is none, which is an
/// internal error.
pub fn get(snap: &Snapshot) -> (r: Result<MetastoreRow, UcError>)
    requires
        snap.wf(),
    ensures
        all_metastores(*snap).len() > 0 ==> typed_one::<MetastoreRow>(all_metastores(*snap)[0], r),
        all_metastores(*snap).len() == 0 ==> match r {
            Ok(_) => false,
            Err(e) => e.code == ErrorCode::Internal && e.message@ == "Metastore not initialised"@,
        },
{
    let rows = snap.iter(EntityKind::Metastore);
    if rows.len() == 0 {
        return Err(UcError::new(ErrorCode::Internal, "Metastore not initialised"));
    }
    MetastoreRow::from_row(rows[0])
}

} // verus!
