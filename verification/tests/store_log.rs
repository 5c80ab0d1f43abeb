use unitycatalog::errors::ErrorCode;
use unitycatalog::store::action::{checkpoint_key, check_format, commit_key, FORMAT_VERSION, LAST_CHECKPOINT_KEY};
use unitycatalog::store::commit::{checkpoint_pointer, frame_lines, should_checkpoint, AfterPut, CommitLoop};
use unitycatalog::store::delta_log::{
    self, append_outcome, latest_from_listing, partition_prefix, versions_in_listing, versions_start_after,
    LatestHints,
};
use unitycatalog::store::log::{
    accept_checkpoint, check_gapless, content_hash, listed_commit, select_commits_after, LastCheckpoint, ListStep, Listing,
    ObjectLog, PutResult, MAX_COMMIT_ATTEMPTS,
};
use unitycatalog::store::memory::MemoryLog;

#[test]
fn a_conditional_put_never_overwrites() {
    let mut log = MemoryLog::new();
    assert_eq!(log.create_if_absent("_uc_log/1.json", b"first".to_vec()), PutResult::Created);
    assert_eq!(log.create_if_absent("_uc_log/1.json", b"second".to_vec()), PutResult::AlreadyExists);
    assert_eq!(log.read("_uc_log/1.json"), Some(b"first".to_vec()));
    assert_eq!(log.len(), 1);
    assert!(!log.is_empty());
    log.write(LAST_CHECKPOINT_KEY, b"p1".to_vec());
    log.write(LAST_CHECKPOINT_KEY, b"p2".to_vec());
    assert_eq!(log.read(LAST_CHECKPOINT_KEY), Some(b"p2".to_vec()));
    assert_eq!(log.remove("_uc_log/1.json"), Some(b"first".to_vec()));
    assert_eq!(log.read("_uc_log/1.json"), None);
}

#[test]
fn a_listing_is_ordered_and_exclusive_of_its_cursor() {
    let mut log = MemoryLog::new();
    for v in [3u64, 1, 2] {
        log.create_if_absent(&commit_key(v), vec![]);
    }
    log.create_if_absent("_uc_log/tables/x/1.json", vec![]);
    log.create_if_absent("other/1.json", vec![]);
    assert_eq!(log.keys_page("_uc_log/", &commit_key(1)), vec![commit_key(2), commit_key(3), "_uc_log/tables/x/1.json".to_string()]);
    let page = ObjectLog::list_after(&log, "_uc_log/0", "").unwrap();
    assert_eq!(page, vec![commit_key(1), commit_key(2), commit_key(3)]);
}

#[test]
fn the_commit_loop_gives_up_after_its_attempts() {
    let mut c = CommitLoop::new();
    assert_eq!(c.attempt(), 1);
    assert!(matches!(c.on_put(PutResult::Created), AfterPut::Landed));
    for n in 2..=MAX_COMMIT_ATTEMPTS {
        assert!(matches!(c.on_put(PutResult::AlreadyExists), AfterPut::Retry));
        assert_eq!(c.attempt(), n);
    }
    match c.on_put(PutResult::AlreadyExists) {
        AfterPut::GiveUp(e) => {
            assert_eq!(e.code, ErrorCode::Internal);
            assert_eq!(e.message, "commit contention: exceeded max attempts");
        },
        _ => panic!("the last lost race gives up"),
    }
}

#[test]
fn an_empty_build_writes_nothing_and_others_write_the_next_version() {
    assert_eq!(CommitLoop::target(7, 0), None);
    assert_eq!(CommitLoop::target(7, 3), Some(8));
    assert!(should_checkpoint(100));
    assert!(should_checkpoint(0));
    assert!(!should_checkpoint(99));
}

#[test]
fn a_written_checkpoint_is_accepted_and_a_damaged_one_is_not() {
    let lines = vec![b"{\"a\":1}".to_vec(), b"{\"b\":2}".to_vec()];
    let (body, size) = frame_lines(&lines);
    assert_eq!(body, b"{\"a\":1}\n{\"b\":2}\n".to_vec());
    assert_eq!(size, 2);
    let ptr = checkpoint_pointer(100, size, &body);
    assert_eq!(ptr.checksum.as_deref(), Some(content_hash(&body).as_str()));
    assert_eq!(accept_checkpoint(&ptr, Some(body.clone())), Some((100, body.clone())));
    // Missing body: fall back.
    assert_eq!(accept_checkpoint(&ptr, None), None);
    // Truncated: one line short.
    let truncated = b"{\"a\":1}\n".to_vec();
    assert_eq!(accept_checkpoint(&ptr, Some(truncated)), None);
    // Corrupted: same line count, different bytes.
    let corrupted = b"{\"a\":9}\n{\"b\":2}\n".to_vec();
    assert_eq!(accept_checkpoint(&ptr, Some(corrupted.clone())), None);
    // A pointer written before checksums existed still loads.
    let legacy = LastCheckpoint { version: 100, size: 2, checksum: None };
    assert_eq!(accept_checkpoint(&legacy, Some(corrupted.clone())), Some((100, corrupted)));
}

#[test]
fn replay_reads_only_commits_after_its_version() {
    let keys = vec![
        commit_key(3),
        checkpoint_key(3),
        commit_key(4),
        LAST_CHECKPOINT_KEY.to_string(),
        commit_key(5),
    ];
    let picked = select_commits_after(&keys, 3);
    assert_eq!(picked, vec![(4, commit_key(4)), (5, commit_key(5))]);
}

#[test]
fn a_gap_in_the_log_is_refused() {
    assert!(check_gapless(3, &[4, 5, 6]).is_ok());
    assert!(check_gapless(3, &[]).is_ok());
    let e = check_gapless(3, &[4, 6]).unwrap_err();
    assert_eq!(e.code, ErrorCode::Internal);
    assert_eq!(e.message, "log gap: expected version 5, found 6");
}

#[test]
fn a_commit_in_an_unknown_format_is_refused() {
    assert!(check_format("_uc_log/1.json", FORMAT_VERSION).is_ok());
    let e = check_format("_uc_log/1.json", 2).unwrap_err();
    assert_eq!(e.message, "_uc_log/1.json: unsupported log format 2");
}

#[test]
fn a_paged_listing_is_drained_and_a_stuck_backend_is_refused() {
    let mut l = Listing::new("a", None);
    assert!(matches!(l.step(vec!["b".into(), "c".into()]), ListStep::Next));
    assert_eq!(l.cursor(), "c");
    assert!(matches!(l.step(vec!["d".into()]), ListStep::Next));
    assert!(matches!(l.step(vec![]), ListStep::Done));
    assert_eq!(l.into_keys(), vec!["b", "c", "d"]);

    let mut stuck = Listing::new("c", None);
    match stuck.step(vec!["b".into()]) {
        ListStep::Failed(e) => assert_eq!(e.message, "object log ignored start_after: \"b\" <= \"c\""),
        _ => panic!("a page that does not advance is refused"),
    }
}

#[test]
fn a_bounded_listing_stops_at_its_bound() {
    let mut l = Listing::new("", Some("c"));
    assert!(matches!(l.step(vec!["a".into(), "b".into(), "c".into(), "d".into()]), ListStep::Done));
    assert_eq!(l.into_keys(), vec!["a", "b", "c"]);
}

#[test]
fn delta_commit_keys_live_in_their_tables_partition() {
    let t = 1u128;
    assert_eq!(partition_prefix(t), "_uc_log/tables/00000000-0000-0000-0000-000000000001/");
    assert_eq!(
        delta_log::commit_key(t, 7),
        "_uc_log/tables/00000000-0000-0000-0000-000000000001/00000000000000000007.json"
    );
    assert_eq!(delta_log::version_from_key(&delta_log::commit_key(t, 7)), Some(7));
    assert_eq!(versions_start_after(t, None), partition_prefix(t));
    assert_eq!(versions_start_after(t, Some(0)), partition_prefix(t));
    assert_eq!(versions_start_after(t, Some(5)), delta_log::commit_key(t, 4));
}

#[test]
fn version_ranges_are_sorted_and_bounded_above() {
    let t = 2u128;
    let keys = vec![delta_log::commit_key(t, 9), delta_log::commit_key(t, 3), delta_log::commit_key(t, 5)];
    assert_eq!(versions_in_listing(&keys, None), vec![3, 5, 9]);
    assert_eq!(versions_in_listing(&keys, Some(5)), vec![3, 5]);
    assert_eq!(latest_from_listing(None, &[]), None);
    assert_eq!(latest_from_listing(Some(4), &[]), Some(4));
    assert_eq!(latest_from_listing(Some(4), &keys), Some(9));
}

#[test]
fn a_delta_commit_conflict_is_the_object_key_not_a_constraint() {
    let mut hints = LatestHints::new();
    assert!(append_outcome(&mut hints, 1, 3, PutResult::Created).is_ok());
    assert_eq!(hints.get(1), Some(3));
    assert!(append_outcome(&mut hints, 1, 2, PutResult::Created).is_ok());
    assert_eq!(hints.get(1), Some(3), "a hint never goes backwards");
    let e = append_outcome(&mut hints, 1, 3, PutResult::AlreadyExists).unwrap_err();
    assert_eq!(e.code, ErrorCode::CommitVersionConflict);
    assert_eq!(e.message, "Commit version 3 already exists for this table");
    assert_eq!(hints.get(2), None);
}

#[test]
fn a_listed_commit_that_cannot_be_read_is_a_hole() {
    assert_eq!(listed_commit("_uc_log/00000000000000000003.json", Some(b"x".to_vec())).unwrap(), b"x".to_vec());
    let e = listed_commit("_uc_log/00000000000000000003.json", None).unwrap_err();
    assert_eq!(e.code, ErrorCode::Internal);
    assert_eq!(e.message, "log hole: _uc_log/00000000000000000003.json was listed but could not be read");
}

#[test]
fn the_in_memory_log_never_fails() {
    let mut log = MemoryLog::new();
    assert_eq!(ObjectLog::put_if_absent(&mut log, "_uc_log/1.json", b"a".to_vec()).unwrap(), PutResult::Created);
    assert_eq!(ObjectLog::put_if_absent(&mut log, "_uc_log/1.json", b"b".to_vec()).unwrap(), PutResult::AlreadyExists);
    assert_eq!(ObjectLog::get(&log, "_uc_log/1.json").unwrap(), Some(b"a".to_vec()));
    assert_eq!(ObjectLog::get(&log, "_uc_log/2.json").unwrap(), None);
    ObjectLog::put(&mut log, "_uc_log/_last_checkpoint", b"p".to_vec()).unwrap();
    assert_eq!(ObjectLog::list_after(&log, "_uc_log/", "").unwrap(), vec!["_uc_log/1.json".to_string(), "_uc_log/_last_checkpoint".to_string()]);
}

#[test]
fn delta_partitions_do_not_count_as_main_log_commits() {
    let t = 0x0191_0000_0000_7000_8000_0000_0000_0001u128;
    let keys = vec![
        commit_key(1),
        delta_log::commit_key(t, 0),
        delta_log::commit_key(t, 1),
        delta_log::commit_key(t, 2),
    ];
    assert_eq!(select_commits_after(&keys, 0), vec![(1, commit_key(1))]);
    assert_eq!(unitycatalog::store::action::version_from_key(&delta_log::commit_key(t, 2)), None);
}

#[test]
fn a_delta_commit_key_reads_back_its_version() {
    let t = 7u128;
    for v in [0i64, 1, 42, i64::MAX, -1, -42, i64::MIN] {
        assert_eq!(delta_log::version_from_key(&delta_log::commit_key(t, v)), Some(v));
    }
    assert_eq!(delta_log::version_from_key("x/7.checkpoint.json"), None);
    assert_eq!(delta_log::version_from_key("x/7.txt"), None);
}

#[test]
fn a_bounded_version_range_stops_at_its_bound() {
    let t = 9u128;
    assert_eq!(delta_log::versions_stop_at(t, Some(6)), Some(delta_log::commit_key(t, 6)));
    assert_eq!(delta_log::versions_stop_at(t, Some(-1)), None);
    assert_eq!(delta_log::versions_stop_at(t, None), None);
    let mut l = Listing::new(&versions_start_after(t, Some(3)), Some(&delta_log::commit_key(t, 6)));
    let page: Vec<String> = (3..10).map(|v| delta_log::commit_key(t, v)).collect();
    assert!(matches!(l.step(page), ListStep::Done));
    let keys = l.into_keys();
    assert_eq!(versions_in_listing(&keys, Some(6)), vec![3, 4, 5, 6]);
}
