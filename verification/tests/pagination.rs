use unitycatalog::pagination::{over_fetch, page};

fn names(n: usize) -> Vec<String> {
    (0..n).map(|i| format!("row{i}")).collect()
}

#[test]
fn a_full_page_yields_a_token_pointing_at_its_last_row() {
    // Caller asked for 2 and over-fetched 3.
    let (rows, next) = page(names(3), 2, |s: &String| s.clone());
    assert_eq!(rows, vec!["row0", "row1"]);
    assert_eq!(next.as_deref(), Some("row1"), "token resumes after row1");
}

#[test]
fn a_short_page_has_no_token() {
    let (rows, next) = page(names(2), 5, |s: &String| s.clone());
    assert_eq!(rows.len(), 2);
    assert_eq!(next, None);
}

#[test]
fn an_exactly_full_page_has_no_token() {
    let (rows, next) = page(names(2), 2, |s: &String| s.clone());
    assert_eq!(rows.len(), 2);
    assert_eq!(next, None);
}

#[test]
fn a_non_positive_limit_does_not_underflow() {
    for limit in [0i64, -1, i64::MIN] {
        let (rows, next) = page(names(3), limit, |s: &String| s.clone());
        assert!(rows.is_empty(), "limit {limit} must yield no rows");
        assert_eq!(next, None, "limit {limit} must yield no token");
    }
}

#[test]
fn over_fetch_asks_for_one_more_and_never_overflows() {
    assert_eq!(over_fetch(50), 51);
    assert_eq!(over_fetch(0), 1);
    assert_eq!(over_fetch(-1), 1);
    assert_eq!(over_fetch(i64::MIN), 1);
    assert!(over_fetch(i64::MAX) >= usize::try_from(i64::MAX).unwrap_or(usize::MAX));
}

#[test]
fn empty_input_is_empty_output() {
    let (rows, next) = page(Vec::<String>::new(), 10, |s: &String| s.clone());
    assert!(rows.is_empty());
    assert_eq!(next, None);
}

#[test]
fn a_page_token_is_the_key_of_the_last_row_returned() {
    let (rows, next) = page(names(10), 4, |s: &String| format!("key-{s}"));
    assert_eq!(rows, vec!["row0", "row1", "row2", "row3"]);
    assert_eq!(next.as_deref(), Some("key-row3"));
}
