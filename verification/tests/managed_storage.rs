use unitycatalog::managed_storage::{
    managed_model_location, managed_model_version_location, managed_table_location, managed_volume_location,
    resolve_from_rows, staging_table_location,
};
use unitycatalog::errors::ErrorCode;
use unitycatalog::models::catalog::CatalogRow;
use unitycatalog::models::schema::SchemaRow;
use uuid::Uuid;

fn fake_catalog(storage_root: Option<&str>) -> CatalogRow {
    CatalogRow {
        id: Uuid::new_v4().as_u128(),
        name: "cat".into(),
        comment: None,
        owner: None,
        created_at: 0,
        created_by: None,
        updated_at: None,
        updated_by: None,
        storage_root: storage_root.map(String::from),
        storage_location: None,
    }
}

fn fake_schema(storage_root: Option<&str>) -> SchemaRow {
    SchemaRow {
        id: Uuid::new_v4().as_u128(),
        catalog_id: Uuid::new_v4().as_u128(),
        name: "sch".into(),
        comment: None,
        owner: None,
        created_at: 0,
        created_by: None,
        updated_at: None,
        updated_by: None,
        storage_root: storage_root.map(String::from),
        storage_location: None,
    }
}

#[test]
fn schema_root_takes_priority() {
    let cat = fake_catalog(Some("s3://cat-bucket"));
    let sch = fake_schema(Some("s3://schema-bucket"));
    assert_eq!(resolve_from_rows(&cat, &sch).unwrap(), "s3://schema-bucket");
}

#[test]
fn falls_back_to_catalog_root() {
    let cat = fake_catalog(Some("s3://cat-bucket"));
    let sch = fake_schema(None);
    assert_eq!(resolve_from_rows(&cat, &sch).unwrap(), "s3://cat-bucket");
}

#[test]
fn error_when_no_root_configured() {
    let cat = fake_catalog(None);
    let sch = fake_schema(None);
    assert!(resolve_from_rows(&cat, &sch).is_err());
}

#[test]
fn managed_locations_use_correct_pattern() {
    let root = "s3://bucket";
    let sid = Uuid::nil().as_u128();
    let tid = Uuid::nil().as_u128();
    assert!(managed_table_location(root, sid, tid).contains("/schemas/"));
    assert!(managed_table_location(root, sid, tid).contains("/tables/"));
    assert!(managed_volume_location(root, sid, tid).contains("/volumes/"));
    assert!(managed_model_location(root, sid, tid).contains("/models/"));
    assert!(staging_table_location(root, sid, tid).contains("/staging/"));
}

#[test]
fn trailing_slash_stripped() {
    let root = "s3://bucket/";
    let sid = Uuid::nil().as_u128();
    let tid = Uuid::nil().as_u128();
    assert!(!managed_table_location(root, sid, tid).contains("//schemas"));
}

#[test]
fn an_empty_schema_root_falls_back_and_roots_lose_trailing_slashes() {
    let cat = fake_catalog(Some("s3://cat-bucket//"));
    let sch = fake_schema(Some(""));
    assert_eq!(resolve_from_rows(&cat, &sch).unwrap(), "s3://cat-bucket");
    let e = resolve_from_rows(&fake_catalog(Some("")), &fake_schema(None)).unwrap_err();
    assert_eq!(e.code, ErrorCode::InvalidArgument);
    assert_eq!(
        e.message,
        "No managed storage configured for cat.sch. Set storage_root on the catalog or schema, or provide an explicit storage_location."
    );
}

#[test]
fn derived_locations_are_exact() {
    let sid = 1u128;
    let tid = 2u128;
    assert_eq!(
        managed_table_location("s3://b/root/", sid, tid),
        "s3://b/root/schemas/00000000-0000-0000-0000-000000000001/tables/00000000-0000-0000-0000-000000000002"
    );
    assert_eq!(managed_model_version_location("s3://b/m///", 7), "s3://b/m/versions/7");
    assert_eq!(managed_model_version_location("s3://b/m", -2), "s3://b/m/versions/-2");
}
