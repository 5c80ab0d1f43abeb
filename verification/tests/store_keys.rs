use unitycatalog::models::metastore::MetastoreRow;
use unitycatalog::models::property::PropertyRow;
use unitycatalog::models::staging::StagingTableRow;
use unitycatalog::models::table::ColumnRow;
use unitycatalog::models::user::UserRow;
use unitycatalog::store::action::{checkpoint_key, commit_key, version_from_key};
use unitycatalog::store::log::content_hash;
use unitycatalog::store::row::{natural_key_for, pad_i64, Row};
use uuid::Uuid;

fn fresh() -> u128 {
    Uuid::now_v7().as_u128()
}

#[test]
fn keys_sort_lexicographically_in_numeric_order() {
    let a = commit_key(9);
    let b = commit_key(10);
    assert!(a < b, "{a} should sort before {b}");
}

#[test]
fn checkpoints_are_not_mistaken_for_commits() {
    assert_eq!(version_from_key(&commit_key(7)), Some(7));
    assert_eq!(version_from_key(&checkpoint_key(7)), None);
}

#[test]
fn commit_keys_are_zero_padded_to_twenty_digits() {
    assert_eq!(commit_key(7), "_uc_log/00000000000000000007.json");
    assert_eq!(checkpoint_key(100), "_uc_log/00000000000000000100.checkpoint.json");
    assert_eq!(version_from_key("_uc_log/_last_checkpoint"), None);
    assert_eq!(version_from_key("_uc_log/_keys.json"), None);
    assert_eq!(version_from_key(&commit_key(u64::MAX)), Some(u64::MAX));
}

#[test]
fn content_hash_changes_on_any_edit() {
    let a = content_hash(b"{\"name\":\"alpha\"}");
    assert_eq!(a, content_hash(b"{\"name\":\"alpha\"}"), "must be stable");
    assert_ne!(a, content_hash(b"{\"name\":\"alppa\"}"));
    assert_ne!(a, content_hash(b"{\"name\":\"alph\"}"));
    assert_ne!(content_hash(b""), content_hash(b"\n"));
}

#[test]
fn content_hash_is_sixteen_hex_digits_of_fnv1a() {
    assert_eq!(content_hash(b""), "cbf29ce484222325");
    assert_eq!(content_hash(b"a"), "af63dc4c8601ec8c");
}

#[test]
fn user_is_keyed_on_name_not_email() {
    let user = |email: Option<&str>| {
        Row::User(UserRow {
            id: fresh(),
            name: "ada".into(),
            email: email.map(str::to_owned),
            external_id: None,
            state: None,
            created_at: None,
            updated_at: None,
            picture_url: None,
        })
    };
    assert_eq!(natural_key_for(&user(Some("ada@example.com"))).as_deref(), Some("ada"));
    assert_eq!(natural_key_for(&user(None)).as_deref(), Some("ada"), "a user with no email must still be indexed");
}

#[test]
fn columns_are_keyed_by_table_and_ordinal() {
    let t = fresh();
    let k = |n: i32| {
        natural_key_for(&Row::Column(ColumnRow {
            id: fresh(),
            table_id: t,
            name: "c".into(),
            ordinal_position: n,
            type_text: "int".into(),
            type_json: "{}".into(),
            type_name_str: "INT".into(),
            type_precision: None,
            type_scale: None,
            type_interval_type: None,
            nullable: true,
            comment: None,
            partition_index: None,
        }))
        .unwrap()
    };

    assert_ne!(k(0), k(1));
    assert!(k(2) < k(10), "ordinals must sort numerically, not as text");
    assert!(k(9) < k(10));
}

#[test]
fn properties_are_keyed_by_entity_and_key() {
    let e = fresh();
    let k = |ty: &str, key: &str| {
        natural_key_for(&Row::Property(PropertyRow {
            id: fresh(),
            entity_id: e,
            entity_type: ty.into(),
            property_key: key.into(),
            property_value: "v".into(),
        }))
        .unwrap()
    };

    assert_ne!(k("TABLE", "a"), k("TABLE", "b"));
    assert_ne!(k("TABLE", "a"), k("SCHEMA", "a"), "the same key on different entity types must not collide");
}

#[test]
fn entities_without_a_unique_constraint_are_id_addressed_only() {
    let metastore = Row::Metastore(MetastoreRow { id: fresh(), name: "unity-catalog".into() });
    assert_eq!(natural_key_for(&metastore), None);

    let staging = Row::StagingTable(StagingTableRow {
        id: fresh(),
        schema_id: fresh(),
        name: "s".into(),
        staging_location: "s3://x".into(),
        created_at: 0,
        created_by: None,
        accessed_at: 0,
        stage_committed: false,
        stage_committed_at: None,
        purge_state: 0,
        num_cleanup_retries: 0,
        last_cleanup_at: None,
    });
    assert_eq!(natural_key_for(&staging), None);
}

#[test]
fn nul_separation_is_ambiguous_if_a_non_final_component_contains_nul() {
    let e = fresh();
    let key = |ty: &str, k: &str| {
        natural_key_for(&Row::Property(PropertyRow {
            id: fresh(),
            entity_id: e,
            entity_type: ty.into(),
            property_key: k.into(),
            property_value: "v".into(),
        }))
    };
    assert_eq!(key("A\u{0}B", "c"), key("A", "B\u{0}c"));
    assert_ne!(key("A", "b\u{0}c"), key("A", "b"));
}

#[test]
fn padded_ints_order_numerically_across_zero() {
    let mut v = [5i64, -1, 0, 10, -10, i64::MAX, i64::MIN, 1];
    let mut by_pad = v;
    by_pad.sort_by_key(|n| pad_i64(*n));
    v.sort();
    assert_eq!(by_pad, v, "lexicographic order of pad_i64 must match numeric order");
}

#[test]
fn padded_ints_have_a_sign_and_nineteen_digits() {
    assert_eq!(pad_i64(0), "00000000000000000000");
    assert_eq!(pad_i64(42), "00000000000000000042");
    assert_eq!(pad_i64(-1), "-9223372036854775807");
    assert_eq!(pad_i64(i64::MIN), "-0000000000000000000");
}

#[test]
fn a_column_key_is_the_table_id_then_the_padded_ordinal() {
    let t = Uuid::nil().as_u128();
    let k = natural_key_for(&Row::Column(ColumnRow {
        id: 1,
        table_id: t,
        name: "c".into(),
        ordinal_position: 3,
        type_text: "int".into(),
        type_json: "{}".into(),
        type_name_str: "INT".into(),
        type_precision: None,
        type_scale: None,
        type_interval_type: None,
        nullable: true,
        comment: None,
        partition_index: None,
    }));
    assert_eq!(k.as_deref(), Some("00000000-0000-0000-0000-000000000000\u{0}00000000000000000003"));
}

#[test]
fn a_nested_or_root_prefixed_key_is_not_a_commit() {
    assert_eq!(version_from_key("acme/_uc_log/00000000000000000007.json"), None);
    assert_eq!(version_from_key("_uc_log/tables/x/00000000000000000007.json"), None);
    assert_eq!(version_from_key("_uc_log/00000000000000000007.json"), Some(7));
    assert_eq!(version_from_key("_uc_log/.json"), None);
}
