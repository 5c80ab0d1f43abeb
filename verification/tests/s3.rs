use aws_sdk_s3::Client;
use unitycatalog::store::action::version_from_key;
use unitycatalog::store::s3::{lost_race, object_absent, parse_storage_root, S3Log};

fn log(root: &str) -> S3Log {
    // No network: these exercise key mapping only.
    let conf = aws_sdk_s3::Config::builder()
        .behavior_version(aws_sdk_s3::config::BehaviorVersion::latest())
        .build();
    S3Log::new(Client::from_conf(conf), "bucket", root)
}

#[test]
fn root_is_slash_terminated() {
    assert_eq!(log("acme").full("_uc_log/x.json"), "acme/_uc_log/x.json");
    assert_eq!(log("acme/").full("_uc_log/x.json"), "acme/_uc_log/x.json");
    assert_eq!(log("").full("_uc_log/x.json"), "_uc_log/x.json");
}

#[test]
fn listed_keys_are_stripped_back_to_logical_form() {
    let l = log("acme");
    let physical = "acme/_uc_log/00000000000000000007.json";
    let logical = l.strip(physical).unwrap();
    assert_eq!(logical, "_uc_log/00000000000000000007.json");
    assert_eq!(version_from_key(&logical), Some(7), "a stripped key must still parse as a commit version");
}

#[test]
fn keys_outside_the_root_are_ignored() {
    assert_eq!(log("acme").strip("other-org/_uc_log/1.json"), None);
}

#[test]
fn a_listing_keeps_only_keys_under_the_root() {
    let l = log("acme");
    let keys = vec![
        "acme/_uc_log/1.json".to_string(),
        "other/_uc_log/2.json".to_string(),
        "acme/_uc_log/3.json".to_string(),
    ];
    assert_eq!(l.strip_all(&keys), vec!["_uc_log/1.json".to_string(), "_uc_log/3.json".to_string()]);
    assert_eq!(l.bucket(), "bucket");
}

#[test]
fn only_precondition_and_conflict_answers_are_lost_races() {
    assert!(lost_race(412));
    assert!(lost_race(409));
    assert!(!lost_race(500));
    assert!(!lost_race(403));
    assert!(object_absent(true, 200));
    assert!(object_absent(false, 404));
    assert!(!object_absent(false, 403));
}

#[test]
fn storage_roots_name_a_bucket_and_a_prefix() {
    assert_eq!(parse_storage_root("s3://bucket/org/a").unwrap(), ("bucket".to_string(), "org/a".to_string()));
    assert_eq!(parse_storage_root("s3://bucket").unwrap(), ("bucket".to_string(), String::new()));
    assert_eq!(
        parse_storage_root("gs://bucket").unwrap_err(),
        "--storage-root must be s3://bucket[/prefix], got \"gs://bucket\""
    );
    assert_eq!(parse_storage_root("s3:///x").unwrap_err(), "--storage-root has no bucket: \"s3:///x\"");
}
