use unitycatalog::errors::ErrorCode;
use unitycatalog::models::catalog::CatalogRow;
use unitycatalog::models::metastore::MetastoreRow;
use unitycatalog::store::action::{Action, EntityKind};
use unitycatalog::store::row::Row;
use unitycatalog::store::Snapshot;

fn catalog(id: u128, name: &str) -> Row {
    Row::Catalog(CatalogRow {
        id,
        name: name.into(),
        comment: None,
        owner: None,
        created_at: 0,
        created_by: None,
        updated_at: None,
        updated_by: None,
        storage_root: None,
        storage_location: None,
    })
}

fn upsert(kind: EntityKind, id: u128, body: Row) -> Action {
    Action::Upsert { kind, id, body }
}

fn name_of(r: Option<&Row>) -> Option<String> {
    match r {
        Some(Row::Catalog(c)) => Some(c.name.clone()),
        _ => None,
    }
}

#[test]
fn commits_replay_into_an_equivalent_snapshot() {
    let commits = vec![
        (1u64, vec![upsert(EntityKind::Catalog, 1, catalog(1, "a"))]),
        (2, vec![upsert(EntityKind::Catalog, 2, catalog(2, "b")), Action::Remove { kind: EntityKind::Catalog, id: 1 }]),
        (3, vec![upsert(EntityKind::Catalog, 2, catalog(2, "c"))]),
    ];
    let mut s = Snapshot::new();
    s.replay(commits);
    assert_eq!(s.version(), 3);
    assert!(s.get(EntityKind::Catalog, 1).is_none());
    assert_eq!(name_of(s.get(EntityKind::Catalog, 2)), Some("c".to_string()));
    assert_eq!(s.id_by_natural_key(EntityKind::Catalog, "c"), Some(2));
    assert_eq!(s.id_by_natural_key(EntityKind::Catalog, "b"), None, "the old name is not reachable");
    assert_eq!(s.id_by_natural_key(EntityKind::Catalog, "a"), None);
}

#[test]
fn a_commit_only_applies_at_the_next_version() {
    let mut s = Snapshot::new();
    assert!(!s.apply_commit(2, &[upsert(EntityKind::Catalog, 1, catalog(1, "a"))]));
    assert_eq!(s.version(), 0);
    assert!(s.get(EntityKind::Catalog, 1).is_none());
    assert!(s.apply_commit(1, &[upsert(EntityKind::Catalog, 1, catalog(1, "a"))]));
    assert_eq!(s.version(), 1);
    assert!(!s.apply_commit(1, &[upsert(EntityKind::Catalog, 1, catalog(1, "x"))]), "a commit already applied is not applied twice");
    assert_eq!(name_of(s.get(EntityKind::Catalog, 1)), Some("a".to_string()));
}

#[test]
fn checkpoint_round_trips_and_is_byte_reproducible() {
    let mut s = Snapshot::new();
    s.apply_all(&[
        upsert(EntityKind::Catalog, 9, catalog(9, "z")),
        upsert(EntityKind::Metastore, 5, Row::Metastore(MetastoreRow { id: 5, name: "m".into() })),
        upsert(EntityKind::Catalog, 3, catalog(3, "y")),
    ]);
    let lines = s.checkpoint_lines();
    let keys: Vec<(EntityKind, u128)> = lines
        .iter()
        .map(|a| match a {
            Action::Upsert { kind, id, .. } => (*kind, *id),
            Action::Remove { kind, id } => (*kind, *id),
        })
        .collect();
    assert_eq!(keys, vec![(EntityKind::Metastore, 5), (EntityKind::Catalog, 3), (EntityKind::Catalog, 9)]);
    let back = Snapshot::from_checkpoint(&lines).unwrap();
    assert_eq!(back.version(), 0);
    assert_eq!(name_of(back.get(EntityKind::Catalog, 3)), Some("y".to_string()));
    assert_eq!(back.id_by_natural_key(EntityKind::Catalog, "z"), Some(9));
    let again: Vec<String> = back.checkpoint_lines().iter().map(|a| format!("{a:?}")).collect();
    let first: Vec<String> = lines.iter().map(|a| format!("{a:?}")).collect();
    assert_eq!(again, first, "the same state checkpoints to the same lines");
}

#[test]
fn a_checkpoint_holding_a_removal_is_refused() {
    let lines = vec![
        upsert(EntityKind::Catalog, 3, catalog(3, "y")),
        Action::Remove { kind: EntityKind::Catalog, id: 1 },
    ];
    let e = Snapshot::from_checkpoint(&lines).err().unwrap();
    assert_eq!(e.code, ErrorCode::Internal);
    assert_eq!(
        e.message,
        "checkpoint line 2 is not an upsert: Remove { kind: Catalog, id: 00000000-0000-0000-0000-000000000001 }"
    );
}

#[test]
fn scans_page_by_natural_key_within_a_prefix() {
    let mut s = Snapshot::new();
    for (id, name) in [(1u128, "b"), (2, "a"), (3, "c"), (4, "d")] {
        s.apply(&upsert(EntityKind::Catalog, id, catalog(id, name)));
    }
    let names = |rows: Vec<&Row>| rows.into_iter().map(|r| name_of(Some(r)).unwrap()).collect::<Vec<_>>();
    assert_eq!(names(s.scan(EntityKind::Catalog, None, 2)), vec!["a", "b"]);
    assert_eq!(names(s.scan(EntityKind::Catalog, Some("b"), 10)), vec!["c", "d"]);
    assert!(s.scan(EntityKind::Schema, None, 10).is_empty());
    assert_eq!(s.ids_under_prefix(EntityKind::Catalog, "c"), vec![3]);
    let by_id: Vec<u128> = s.iter_by_id(EntityKind::Catalog).into_iter().map(|(id, _)| id).collect();
    assert_eq!(by_id, vec![1, 2, 3, 4]);
    assert_eq!(s.iter(EntityKind::Catalog).len(), 4);
}

#[test]
fn an_upsert_must_write_a_row_of_its_own_kind() {
    let good = vec![upsert(EntityKind::Catalog, 1, catalog(1, "a")), Action::Remove { kind: EntityKind::Schema, id: 2 }];
    assert!(unitycatalog::store::actions_well_kinded(&good));
    let bad = vec![upsert(EntityKind::Schema, 1, catalog(1, "a"))];
    assert!(!unitycatalog::store::actions_well_kinded(&bad));
}
