use unitycatalog::errors::{ErrorCode, UcError};
use unitycatalog::models::casbin::CasbinRule;
use unitycatalog::models::credential::CredentialRow;
use unitycatalog::models::external_location::ExternalLocationRow;
use unitycatalog::models::function::{FunctionParamRow, FunctionRow};
use unitycatalog::models::model::{ModelVersionRow, RegisteredModelRow};
use unitycatalog::models::staging::StagingTableRow;
use unitycatalog::models::table::{ColumnRow, TableRow};
use unitycatalog::models::volume::VolumeRow;
use unitycatalog::repos::user::{UserField, UserRepo};
use unitycatalog::repos::volume::VolumeRepo;
use unitycatalog::repos::{
    casbin, catalog, credential, external_location, function, metastore, model, property, schema, staging, table,
};
use unitycatalog::store::action::{Action, EntityKind};
use unitycatalog::store::row::Row;
use unitycatalog::store::Snapshot;
use uuid::Uuid;

fn id() -> u128 {
    Uuid::new_v4().as_u128()
}

fn now() -> i64 {
    1_700_000_000_000
}

/// Commit what a write planned against the snapshot, as the commit loop does
/// when it wins the next version.
fn run<T>(snap: &mut Snapshot, planned: Result<(Vec<Action>, T), UcError>) -> Result<T, UcError> {
    let (acts, out) = planned?;
    if !acts.is_empty() {
        let v = snap.version();
        assert!(snap.apply_commit(v + 1, &acts));
    }
    Ok(out)
}

fn make_catalog(snap: &mut Snapshot, name: &str) -> u128 {
    let cid = id();
    let planned = catalog::create(snap, cid, name, None, None, None, None, now());
    run(snap, planned).unwrap();
    cid
}

fn make_schema(snap: &mut Snapshot, cat: &str, sch: &str) -> (u128, u128) {
    let cat_id = make_catalog(snap, cat);
    let sid = id();
    let planned = schema::create(snap, sid, cat_id, sch, None, None, None, None, now());
    run(snap, planned).unwrap();
    (cat_id, sid)
}

#[test]
fn metastore_get_or_init() {
    let mut snap = Snapshot::new();
    assert!(metastore::get(&snap).is_err());
    let planned = metastore::get_or_init(&snap, "test");
    let m1 = run(&mut snap, planned).unwrap();
    let v = snap.version();
    let planned = metastore::get_or_init(&snap, "test");
    let m2 = run(&mut snap, planned).unwrap();
    assert_eq!(m1.id, m2.id, "get_or_init must be idempotent");
    assert_eq!(snap.version(), v, "an existing metastore commits nothing");
    assert_eq!(metastore::get(&snap).unwrap().id, m1.id);
    assert_eq!(m1.name, "test");
}

#[test]
fn catalog_crud() {
    let mut snap = Snapshot::new();
    let cid = id();
    let planned = catalog::create(&snap, cid, "cat1", Some("comment"), None, None, None, now());
    let created = run(&mut snap, planned).unwrap();
    assert_eq!(created.name, "cat1");
    assert_eq!(created.id, cid);

    assert_eq!(catalog::get_by_name(&snap, "cat1").unwrap().id, cid);
    assert_eq!(catalog::get_by_id(&snap, cid).unwrap().name, "cat1");

    let planned = catalog::update(&snap, "cat1", None, Some("new comment"), None, None, now());
    let updated = run(&mut snap, planned).unwrap();
    assert_eq!(updated.comment.as_deref(), Some("new comment"));
    assert_eq!(updated.updated_at, Some(now()));

    let planned = catalog::delete(&snap, "cat1");
    run(&mut snap, planned).unwrap();
    assert!(catalog::get_by_name(&snap, "cat1").is_err());
}

#[test]
fn catalog_list_pagination() {
    let mut snap = Snapshot::new();
    for i in 0..5 {
        make_catalog(&mut snap, &format!("cat_{:02}", i));
    }
    let (page1, token) = catalog::list(&snap, None, 3).unwrap();
    assert_eq!(page1.len(), 3);
    assert_eq!(token.as_deref(), Some("cat_02"));
    let (page2, token2) = catalog::list(&snap, token.as_deref(), 3).unwrap();
    assert_eq!(page2.len(), 2);
    assert!(token2.is_none());
    let names: Vec<&str> = page2.iter().map(|c| c.name.as_str()).collect();
    assert_eq!(names, vec!["cat_03", "cat_04"]);
}

#[test]
fn catalog_not_found_returns_error() {
    let snap = Snapshot::new();
    let e = catalog::get_by_name(&snap, "missing").unwrap_err();
    assert_eq!(e.code, ErrorCode::CatalogNotFound);
    assert_eq!(e.message, "Catalog 'missing' not found");
    assert!(catalog::get_by_id(&snap, id()).is_err());
}

#[test]
fn duplicate_name_is_a_domain_error_not_a_500() {
    let mut snap = Snapshot::new();
    make_catalog(&mut snap, "alpha");
    let e = catalog::create(&snap, id(), "alpha", None, None, None, None, now()).unwrap_err();
    assert_eq!(e.code, ErrorCode::CatalogAlreadyExists);
    assert_eq!(e.message, "Catalog 'alpha' already exists");
}

#[test]
fn a_lost_race_re_evaluates_the_precondition() {
    // Two writers plan against the same snapshot; the first lands, and the
    // loser's rebuild against the fresher snapshot sees the name taken.
    let mut snap = Snapshot::new();
    let plan_a = catalog::create(&snap, id(), "alpha", None, None, None, None, now());
    let plan_b = catalog::create(&snap, id(), "alpha", None, None, None, None, now());
    assert!(plan_b.is_ok());
    run(&mut snap, plan_a).unwrap();
    let rebuilt = catalog::create(&snap, id(), "alpha", None, None, None, None, now());
    assert_eq!(rebuilt.unwrap_err().code, ErrorCode::CatalogAlreadyExists);
}

#[test]
fn rename_frees_the_old_natural_key() {
    let mut snap = Snapshot::new();
    make_catalog(&mut snap, "before");
    let planned = catalog::update(&snap, "before", Some("after"), None, None, None, now());
    run(&mut snap, planned).unwrap();
    assert!(catalog::get_by_name(&snap, "before").is_err());
    assert_eq!(catalog::get_by_name(&snap, "after").unwrap().name, "after");
    // The old name is free again.
    make_catalog(&mut snap, "before");
    let e = catalog::update(&snap, "before", Some("after"), None, None, None, now()).unwrap_err();
    assert_eq!(e.code, ErrorCode::CatalogAlreadyExists);
}

/// Names out of a scan result.
fn row_names(rows: Vec<&Row>) -> Vec<String> {
    rows.into_iter()
        .map(|r| match r {
            Row::Catalog(c) => c.name.clone(),
            other => panic!("expected a catalog row, got {:?}", other.kind()),
        })
        .collect()
}

#[test]
fn scan_is_ordered_and_exclusive_of_the_page_token() {
    let mut snap = Snapshot::new();
    for name in ["delta", "alpha", "charlie", "bravo"] {
        make_catalog(&mut snap, name);
    }
    assert_eq!(row_names(snap.scan(EntityKind::Catalog, None, 10)), vec!["alpha", "bravo", "charlie", "delta"]);
    assert_eq!(
        row_names(snap.scan(EntityKind::Catalog, Some("bravo"), 10)),
        vec!["charlie", "delta"],
        "page token is exclusive, matching WHERE name > $1"
    );
    assert_eq!(row_names(snap.scan(EntityKind::Catalog, None, 2)), vec!["alpha", "bravo"]);
}

#[test]
fn schema_crud() {
    let mut snap = Snapshot::new();
    let cat_id = make_catalog(&mut snap, "schema_cat");
    let sid = id();
    let planned = schema::create(&snap, sid, cat_id, "sch1", None, None, None, None, now());
    assert_eq!(run(&mut snap, planned).unwrap().name, "sch1");
    assert_eq!(schema::get_by_full_name(&snap, "schema_cat", "sch1").unwrap().id, sid);
    assert_eq!(schema::get_by_id(&snap, sid).unwrap().catalog_id, cat_id);
    let planned = schema::update(&snap, sid, Some("sch_renamed"), None, None, None, now());
    assert_eq!(run(&mut snap, planned).unwrap().name, "sch_renamed");
    let planned = schema::delete(&snap, sid);
    run(&mut snap, planned).unwrap();
    assert!(schema::get_by_id(&snap, sid).is_err());
}

#[test]
fn schema_list() {
    let mut snap = Snapshot::new();
    let cat_id = make_catalog(&mut snap, "schema_list_cat");
    for n in ["b", "a"] {
        let planned = schema::create(&snap, id(), cat_id, n, None, None, None, None, now());
        run(&mut snap, planned).unwrap();
    }
    let other = make_catalog(&mut snap, "other");
    let planned = schema::create(&snap, id(), other, "z", None, None, None, None, now());
    run(&mut snap, planned).unwrap();
    let (rows, _) = schema::list(&snap, cat_id, None, 10).unwrap();
    let names: Vec<&str> = rows.iter().map(|r| r.name.as_str()).collect();
    assert_eq!(names, vec!["a", "b"]);
}

#[test]
fn a_missing_catalog_reports_the_schema_missing() {
    let snap = Snapshot::new();
    let e = schema::get_by_full_name(&snap, "nocat", "s").unwrap_err();
    assert_eq!(e.code, ErrorCode::SchemaNotFound);
    assert_eq!(e.message, "Schema 'nocat.s' not found");
}

fn column(table_id: u128, name: &str, pos: i32) -> ColumnRow {
    ColumnRow {
        id: id(),
        table_id,
        name: name.into(),
        ordinal_position: pos,
        type_text: "int".into(),
        type_json: "{}".into(),
        type_name_str: "INT".into(),
        type_precision: None,
        type_scale: None,
        type_interval_type: None,
        nullable: false,
        comment: None,
        partition_index: None,
    }
}

#[test]
fn table_crud_with_columns() {
    let mut snap = Snapshot::new();
    let (_, sch_id) = make_schema(&mut snap, "tbl_cat", "tbl_sch");
    let tid = id();
    let row = TableRow {
        id: tid,
        schema_id: sch_id,
        name: "t1".into(),
        type_: "EXTERNAL".into(),
        owner: None,
        created_at: now(),
        created_by: None,
        updated_at: None,
        updated_by: None,
        data_source_format: Some("DELTA".into()),
        comment: None,
        url: Some("/tmp/t1".into()),
        column_count: Some(1),
        view_definition: None,
        uniform_iceberg_metadata_location: None,
        uniform_iceberg_converted_delta_version: None,
        uniform_iceberg_converted_delta_timestamp: None,
    };
    let planned = table::create(&snap, &row);
    assert_eq!(run(&mut snap, planned).unwrap().name, "t1");
    assert_eq!(table::create(&snap, &row).unwrap_err().code, ErrorCode::TableAlreadyExists);

    let cols = [column(tid, "c10", 10), column(tid, "c2", 2), column(tid, "c0", 0)];
    let planned = table::insert_columns(&cols);
    run(&mut snap, planned).unwrap();
    let got = table::get_columns(&snap, tid).unwrap();
    let names: Vec<&str> = got.iter().map(|c| c.name.as_str()).collect();
    assert_eq!(names, vec!["c0", "c2", "c10"], "columns come back in ordinal order");

    assert_eq!(table::get_by_id(&snap, tid).unwrap().name, "t1");
    assert_eq!(table::get_by_schema_and_name(&snap, sch_id, "t1").unwrap().id, tid);
    let (rows, _) = table::list(&snap, sch_id, None, 10).unwrap();
    assert_eq!(rows.len(), 1);

    let planned = table::patch(&snap, tid, Some(3), Some("c"), Some(4), None, now());
    run(&mut snap, planned).unwrap();
    let t = table::get_by_id(&snap, tid).unwrap();
    assert_eq!(t.column_count, Some(3));
    assert_eq!(t.comment.as_deref(), Some("c"));
    assert_eq!(t.uniform_iceberg_converted_delta_version, Some(4));
    assert_eq!(t.updated_at, Some(now()));

    let planned = table::rename(&snap, tid, "t2", now());
    run(&mut snap, planned).unwrap();
    assert!(table::get_by_schema_and_name(&snap, sch_id, "t1").is_err());
    assert_eq!(table::get_by_schema_and_name(&snap, sch_id, "t2").unwrap().id, tid);
    let (acts, _) = table::rename(&snap, id(), "x", now()).unwrap();
    assert!(acts.is_empty(), "renaming a missing table commits nothing");

    let planned = table::delete_columns(&snap, tid);
    run(&mut snap, planned).unwrap();
    assert!(table::get_columns(&snap, tid).unwrap().is_empty());
    let planned = table::delete(&snap, tid);
    run(&mut snap, planned).unwrap();
    let e = table::get_by_id(&snap, tid).unwrap_err();
    assert_eq!(e.code, ErrorCode::TableNotFound);
}

#[test]
fn volume_crud() {
    let mut snap = Snapshot::new();
    let (_, sch_id) = make_schema(&mut snap, "vol_cat", "vol_sch");
    let vid = id();
    let row = VolumeRow {
        id: vid,
        schema_id: sch_id,
        name: "v1".into(),
        comment: None,
        storage_location: Some("/tmp/v1".into()),
        owner: None,
        created_at: now(),
        created_by: None,
        updated_at: None,
        updated_by: None,
        volume_type: "EXTERNAL".into(),
    };
    let planned = VolumeRepo::create(&snap, &row);
    run(&mut snap, planned).unwrap();
    VolumeRepo::get_by_id(&snap, vid).unwrap();
    VolumeRepo::get_by_schema_and_name(&snap, sch_id, "v1").unwrap();
    let (vols, _) = VolumeRepo::list(&snap, sch_id, None, 10).unwrap();
    assert_eq!(vols.len(), 1);
    let planned = VolumeRepo::update(&snap, vid, None, Some("updated"), None, now(), None);
    let v = run(&mut snap, planned).unwrap();
    assert_eq!(v.comment.as_deref(), Some("updated"));
    let planned = VolumeRepo::delete(&snap, vid);
    run(&mut snap, planned).unwrap();
    let e = VolumeRepo::get_by_id(&snap, vid).unwrap_err();
    assert_eq!(e.code, ErrorCode::NotFound);
}

fn props(pairs: &[(&str, &str)]) -> Vec<(String, String)> {
    pairs.iter().map(|(k, v)| (k.to_string(), v.to_string())).collect()
}

#[test]
fn property_replace_and_get() {
    let mut snap = Snapshot::new();
    let entity = id();
    let planned = property::replace(&snap, entity, "catalog", &props(&[("k2", "v2"), ("k1", "v1")]));
    let (acts, _) = planned.as_ref().unwrap();
    assert_eq!(acts.len(), 2);
    run(&mut snap, planned).unwrap();
    let got = property::get_for_entity(&snap, entity, "catalog").unwrap();
    assert_eq!(got, props(&[("k1", "v1"), ("k2", "v2")]));

    let planned = property::replace(&snap, entity, "catalog", &props(&[("k3", "v3")]));
    let (acts, _) = planned.as_ref().unwrap();
    assert_eq!(acts.len(), 3, "two removals and one insert, in one commit");
    run(&mut snap, planned).unwrap();
    assert_eq!(property::get_for_entity(&snap, entity, "catalog").unwrap(), props(&[("k3", "v3")]));

    let planned = property::delete_for_entity(&snap, entity, "catalog");
    run(&mut snap, planned).unwrap();
    assert!(property::get_for_entity(&snap, entity, "catalog").unwrap().is_empty());
}

#[test]
fn properties_are_scoped_by_entity_and_type() {
    let mut snap = Snapshot::new();
    let (a, b) = (id(), id());
    for (e, ty, v) in [(a, "TABLE", "1"), (a, "SCHEMA", "2"), (b, "TABLE", "3")] {
        let planned = property::set(&snap, e, ty, "k", v);
        run(&mut snap, planned).unwrap();
    }
    assert_eq!(property::get_for_entity(&snap, a, "TABLE").unwrap(), props(&[("k", "1")]));
    assert_eq!(property::get_for_entity(&snap, a, "SCHEMA").unwrap(), props(&[("k", "2")]));
    assert_eq!(property::get_for_entity(&snap, b, "TABLE").unwrap(), props(&[("k", "3")]));
    let planned = property::set(&snap, a, "TABLE", "k", "1b");
    run(&mut snap, planned).unwrap();
    assert_eq!(property::get_for_entity(&snap, a, "TABLE").unwrap(), props(&[("k", "1b")]));
    let planned = property::delete_key(&snap, a, "TABLE", "k");
    run(&mut snap, planned).unwrap();
    assert!(property::get_for_entity(&snap, a, "TABLE").unwrap().is_empty());
    let (acts, _) = property::delete_key(&snap, a, "TABLE", "k").unwrap();
    assert!(acts.is_empty(), "deleting an absent key commits nothing");
}

#[test]
fn user_crud() {
    let mut snap = Snapshot::new();
    let uid = id();
    let planned = UserRepo::create(&snap, uid, "alice@x.com", Some("alice@x.com"), None, "ENABLED", now());
    run(&mut snap, planned).unwrap();
    let by_id = UserRepo::get_by_id(&snap, uid).unwrap();
    assert_eq!(by_id.name, "alice@x.com");
    assert!(by_id.is_enabled());
    assert_eq!(UserRepo::get_by_name(&snap, "alice@x.com").unwrap().id, uid);
    assert!(UserRepo::get_by_email(&snap, "alice@x.com").unwrap().is_some());
    let (users, _) = UserRepo::list(&snap, None, 10).unwrap();
    assert!(!users.is_empty());
    let planned = UserRepo::update(&snap, uid, None, None, Some("DISABLED"), now());
    assert!(!run(&mut snap, planned).unwrap().is_enabled());
    let planned = UserRepo::delete(&snap, uid);
    run(&mut snap, planned).unwrap();
    assert!(UserRepo::get_by_id(&snap, uid).is_err());
}

#[test]
fn user_get_by_email_unknown_returns_none() {
    let snap = Snapshot::new();
    assert!(UserRepo::get_by_email(&snap, "nobody@x.com").unwrap().is_none());
}

#[test]
fn user_get_by_external_id_unknown_returns_none() {
    let snap = Snapshot::new();
    assert!(UserRepo::get_by_external_id(&snap, "system:serviceaccount:example:sa-nobody").unwrap().is_none());
}

#[test]
fn user_find_or_create_by_external_id_creates_then_reuses_same_row() {
    let mut snap = Snapshot::new();
    let sub = "system:serviceaccount:example:sa-project-abc123";
    let planned = UserRepo::find_or_create_by_external_id(&snap, sub, now());
    let first = run(&mut snap, planned).unwrap();
    assert_eq!(first.external_id.as_deref(), Some(sub));
    assert_eq!(first.name, sub);
    assert!(first.email.is_none());
    assert!(first.is_enabled());
    let planned = UserRepo::find_or_create_by_external_id(&snap, sub, now());
    let second = run(&mut snap, planned).unwrap();
    assert_eq!(second.id, first.id, "second call must reuse the row created by the first");
    let (users, _) = UserRepo::list(&snap, None, 1000).unwrap();
    assert_eq!(users.iter().filter(|u| u.external_id.as_deref() == Some(sub)).count(), 1);
}

#[test]
fn user_find_or_create_by_external_id_distinct_subs_get_distinct_principals() {
    let mut snap = Snapshot::new();
    let planned = UserRepo::find_or_create_by_external_id(&snap, "system:serviceaccount:example:sa-project-aaa", now());
    let a = run(&mut snap, planned).unwrap();
    let planned = UserRepo::find_or_create_by_external_id(&snap, "system:serviceaccount:example:sa-project-bbb", now());
    let b = run(&mut snap, planned).unwrap();
    assert_ne!(a.id, b.id);
}

#[test]
fn a_lookup_on_an_unindexed_column_takes_the_smallest_id() {
    let mut snap = Snapshot::new();
    for (uid, name) in [(30u128, "u30"), (10, "u10"), (20, "u20")] {
        let planned = UserRepo::create(&snap, uid, name, Some("same@x.com"), None, "ENABLED", now());
        run(&mut snap, planned).unwrap();
    }
    let hit = UserRepo::first_where(&snap, UserField::Email, "same@x.com").unwrap().unwrap();
    assert_eq!(hit.id, 10);
    let e = UserRepo::create(&snap, id(), "u10", None, None, "ENABLED", now()).unwrap_err();
    assert_eq!(e.message, "User 'u10' already exists");
}

fn credential_row(name: &str) -> CredentialRow {
    CredentialRow {
        id: id(),
        name: name.into(),
        credential_type: "AWS_IAM_ROLE".into(),
        credential: "{}".into(),
        purpose: "AWS_IAM_ROLE".into(),
        comment: None,
        owner: None,
        created_at: now(),
        created_by: None,
        updated_at: None,
        updated_by: None,
    }
}

#[test]
fn credential_crud() {
    let mut snap = Snapshot::new();
    let row = credential_row("cred1");
    let planned = credential::create(&snap, &row);
    run(&mut snap, planned).unwrap();
    assert_eq!(credential::create(&snap, &row).unwrap_err().code, ErrorCode::StorageCredentialAlreadyExists);
    credential::get_by_name(&snap, "cred1").unwrap();
    credential::get_by_id(&snap, row.id).unwrap();
    let (creds, _) = credential::list(&snap, None, 10).unwrap();
    assert!(!creds.is_empty());
    let planned = credential::update(&snap, row.id, Some("cred2"), None, Some("o"), Some("{\"x\":1}"), now(), Some("me"));
    run(&mut snap, planned).unwrap();
    let c = credential::get_by_name(&snap, "cred2").unwrap();
    assert_eq!(c.credential, "{\"x\":1}");
    assert_eq!(c.updated_by.as_deref(), Some("me"));
    let planned = credential::delete(&snap, "cred2");
    run(&mut snap, planned).unwrap();
    assert!(credential::get_by_name(&snap, "cred2").is_err());
}

fn location(name: &str, url: &str, cred: u128) -> ExternalLocationRow {
    ExternalLocationRow {
        id: id(),
        name: name.into(),
        url: url.into(),
        comment: None,
        owner: None,
        credential_id: cred,
        created_at: Some(now()),
        created_by: None,
        updated_at: None,
        updated_by: None,
    }
}

#[test]
fn external_location_crud() {
    let mut snap = Snapshot::new();
    let cred = credential_row("el_cred");
    let planned = credential::create(&snap, &cred);
    run(&mut snap, planned).unwrap();
    let row = location("el1", "s3://bucket/path", cred.id);
    let planned = external_location::create(&snap, &row);
    run(&mut snap, planned).unwrap();
    external_location::get_by_name(&snap, "el1").unwrap();
    let (locs, _) = external_location::list(&snap, None, 10).unwrap();
    assert!(!locs.is_empty());
    assert!(external_location::find_by_path_prefix(&snap, "s3://bucket/path/subdir").unwrap().is_some());
    assert!(external_location::find_by_path_prefix(&snap, "s3://other-bucket/x").unwrap().is_none());
    let planned = external_location::update(&snap, row.id, None, Some("s3://bucket/new"), None, None, None, now(), None);
    run(&mut snap, planned).unwrap();
    assert_eq!(external_location::get_by_name(&snap, "el1").unwrap().url, "s3://bucket/new");
    let planned = external_location::delete(&snap, "el1");
    run(&mut snap, planned).unwrap();
    let e = external_location::get_by_name(&snap, "el1").unwrap_err();
    assert_eq!(e.message, "External location 'el1' not found");
}

#[test]
fn the_longest_governing_url_wins() {
    let mut snap = Snapshot::new();
    for (n, u) in [("a", "s3://b"), ("b", "s3://b/x/y"), ("c", "s3://b/x")] {
        let planned = external_location::create(&snap, &location(n, u, 1));
        run(&mut snap, planned).unwrap();
    }
    let hit = external_location::find_by_path_prefix(&snap, "s3://b/x/y/z").unwrap().unwrap();
    assert_eq!(hit.name, "b");
    let hit = external_location::find_by_path_prefix(&snap, "s3://b/x/q").unwrap().unwrap();
    assert_eq!(hit.name, "c");
}

#[test]
fn staging_table_create_get_commit() {
    let mut snap = Snapshot::new();
    let (_, sch_id) = make_schema(&mut snap, "stg_cat", "stg_sch");
    let sid = id();
    let row = StagingTableRow {
        id: sid,
        schema_id: sch_id,
        name: "stg1".into(),
        staging_location: "/tmp/staging/stg1".into(),
        created_at: now(),
        created_by: None,
        accessed_at: now(),
        stage_committed: false,
        stage_committed_at: None,
        purge_state: 0,
        num_cleanup_retries: 0,
        last_cleanup_at: None,
    };
    let planned = staging::create(&row);
    run(&mut snap, planned).unwrap();
    assert_eq!(staging::get_by_id(&snap, sid).unwrap().name, "stg1");
    assert_eq!(staging::get_by_location(&snap, "/tmp/staging/stg1").unwrap().id, sid);
    let e = staging::get_by_location(&snap, "s3://nowhere").unwrap_err();
    assert_eq!(e.message, "Staging table at 's3://nowhere' not found");
    let planned = staging::mark_committed(&snap, sid, 42);
    run(&mut snap, planned).unwrap();
    let s = staging::get_by_id(&snap, sid).unwrap();
    assert!(s.stage_committed);
    assert_eq!(s.stage_committed_at, Some(42));
}

fn version(model_id: u128, v: Option<i32>) -> ModelVersionRow {
    ModelVersionRow {
        id: id(),
        registered_model_id: model_id,
        version: v,
        source: None,
        run_id: None,
        status: None,
        owner: None,
        created_at: Some(now()),
        created_by: None,
        updated_at: None,
        updated_by: None,
        comment: None,
        url: None,
    }
}

#[test]
fn models_and_their_versions() {
    let mut snap = Snapshot::new();
    let (_, sch) = make_schema(&mut snap, "mc", "ms");
    let mid = id();
    let m = RegisteredModelRow {
        id: mid,
        schema_id: sch,
        name: "m".into(),
        owner: None,
        created_at: Some(now()),
        created_by: None,
        updated_at: None,
        updated_by: None,
        comment: None,
        url: None,
        max_version_number: None,
    };
    let planned = model::create_model(&snap, &m);
    run(&mut snap, planned).unwrap();
    assert_eq!(model::create_model(&snap, &m).unwrap_err().code, ErrorCode::ResourceAlreadyExists);
    for v in [Some(3), Some(1), None, Some(2)] {
        let planned = model::create_version(&version(mid, v));
        run(&mut snap, planned).unwrap();
    }
    let planned = model::create_version(&version(id(), Some(1)));
    run(&mut snap, planned).unwrap();
    let vs = model::list_versions(&snap, mid).unwrap();
    let nums: Vec<Option<i32>> = vs.iter().map(|v| v.version).collect();
    assert_eq!(nums, vec![None, Some(1), Some(2), Some(3)]);
    assert_eq!(model::get_version(&snap, mid, 2).unwrap().version, Some(2));
    assert_eq!(model::get_version(&snap, mid, 9).unwrap_err().message, "Model version 9 not found");

    let planned = model::set_max_version(&snap, mid, 3);
    run(&mut snap, planned).unwrap();
    let planned = model::update_model(&snap, mid, Some("m2"), Some("c"), None, now(), None);
    run(&mut snap, planned).unwrap();
    let got = model::get_model_by_schema_and_name(&snap, sch, "m2").unwrap();
    assert_eq!(got.max_version_number, Some(3));
    assert_eq!(got.comment.as_deref(), Some("c"));

    let planned = model::delete_version(&snap, mid, 1);
    run(&mut snap, planned).unwrap();
    assert_eq!(model::list_versions(&snap, mid).unwrap().len(), 3);
    let planned = model::delete_model(&snap, mid);
    let (acts, _) = planned.as_ref().unwrap();
    assert_eq!(acts.len(), 4, "three versions and the model, in one commit");
    run(&mut snap, planned).unwrap();
    assert!(model::list_versions(&snap, mid).unwrap().is_empty());
    assert!(model::get_model_by_schema_and_name(&snap, sch, "m2").is_err());
}

#[test]
fn functions_and_their_parameters() {
    let mut snap = Snapshot::new();
    let (_, sch) = make_schema(&mut snap, "fc", "fs");
    let fid = id();
    let f = FunctionRow {
        id: fid,
        schema_id: sch,
        name: "f".into(),
        comment: None,
        owner: None,
        created_at: Some(now()),
        created_by: None,
        updated_at: None,
        updated_by: None,
        data_type: None,
        full_data_type: None,
        external_language: None,
        is_deterministic: None,
        is_null_call: None,
        parameter_style: None,
        routine_body: None,
        routine_definition: None,
        sql_data_access: None,
        security_type: None,
        specific_name: None,
    };
    let planned = function::create(&snap, &f);
    run(&mut snap, planned).unwrap();
    let param = |name: &str, role: i16, pos: i32| FunctionParamRow {
        id: id(),
        function_id: fid,
        name: name.into(),
        input_or_return: role,
        ordinal_position: pos,
        type_text: None,
        type_json: None,
        type_name_str: None,
        type_precision: None,
        type_scale: None,
        type_interval_type: None,
        comment: None,
        parameter_mode: None,
        parameter_default: None,
    };
    let ps = [param("b", 0, 1), param("r", 1, 0), param("a", 0, 0)];
    let planned = function::insert_params(&ps);
    run(&mut snap, planned).unwrap();
    let (input, ret) = function::get_params(&snap, fid).unwrap();
    let names: Vec<&str> = input.iter().map(|p| p.name.as_str()).collect();
    assert_eq!(names, vec!["a", "b"]);
    assert_eq!(ret.len(), 1);
    assert_eq!(function::get_by_schema_and_name(&snap, sch, "f").unwrap().id, fid);
    let planned = function::delete(&snap, fid);
    let (acts, _) = planned.as_ref().unwrap();
    assert_eq!(acts.len(), 4);
    run(&mut snap, planned).unwrap();
    let (input, ret) = function::get_params(&snap, fid).unwrap();
    assert!(input.is_empty() && ret.is_empty());
    assert_eq!(function::delete(&snap, fid).unwrap_err().code, ErrorCode::NotFound);
}

fn rule(ptype: &str, v0: &str) -> CasbinRule {
    CasbinRule::from_parts(ptype, &[v0.to_string(), "obj".to_string(), "act".to_string()])
}

#[test]
fn casbin_policy_storage() {
    let mut snap = Snapshot::new();
    let planned = casbin::insert(&snap, &rule("p", "alice"));
    assert!(run(&mut snap, planned).unwrap());
    let planned = casbin::insert(&snap, &rule("p", "alice"));
    assert!(!run(&mut snap, planned).unwrap(), "a duplicate add is ignored");
    let planned = casbin::insert(&snap, &rule("p", "bob"));
    run(&mut snap, planned).unwrap();
    assert_eq!(casbin::load_all(&snap).unwrap().len(), 2);

    let planned = casbin::delete(&snap, &rule("p", "carol"));
    assert!(!run(&mut snap, planned).unwrap());
    let planned = casbin::delete_many(&snap, &[rule("p", "alice"), rule("p", "carol")]);
    assert!(run(&mut snap, planned).unwrap());
    assert_eq!(casbin::load_all(&snap).unwrap(), vec![rule("p", "bob")]);

    let planned = casbin::replace_all(&snap, &[rule("g", "x"), rule("g", "y"), rule("g", "x")]);
    run(&mut snap, planned).unwrap();
    let all = casbin::load_all(&snap).unwrap();
    assert_eq!(all.len(), 2, "a rule repeated in the input is stored once");
    let planned = casbin::clear(&snap);
    run(&mut snap, planned).unwrap();
    assert!(casbin::load_all(&snap).unwrap().is_empty());
}

#[test]
fn a_fresh_id_is_a_version_seven_uuid() {
    let snap = Snapshot::new();
    let (_, m) = metastore::get_or_init(&snap, "test").unwrap();
    assert_eq!((m.id >> 76) & 0xf, 7);
    assert_eq!((m.id >> 62) & 3, 2);
}

#[test]
fn replacing_properties_leaves_exactly_the_given_set() {
    let mut snap = Snapshot::new();
    let (a, b) = (id(), id());
    let planned = property::set(&snap, b, "catalog", "other", "kept");
    run(&mut snap, planned).unwrap();
    let planned = property::replace(&snap, a, "catalog", &props(&[("k1", "v1"), ("k2", "v2")]));
    run(&mut snap, planned).unwrap();
    let planned = property::replace(&snap, a, "catalog", &props(&[("k3", "v3")]));
    run(&mut snap, planned).unwrap();
    assert_eq!(property::get_for_entity(&snap, a, "catalog").unwrap(), props(&[("k3", "v3")]));
    assert_eq!(property::get_for_entity(&snap, b, "catalog").unwrap(), props(&[("other", "kept")]));
}
