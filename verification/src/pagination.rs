//! Cursor pagination shared by every `list` in the repository layer.

use vstd::prelude::*;

verus! {

/// The page size a `max_results` asks for: non-positive limits ask for none,
/// and a limit beyond the address space saturates.
pub open spec fn page_limit(max_results: i64) -> int {
    if max_results <= 0 {
        0
    } else if max_results > usize::MAX {
        usize::MAX as int
    } else {
        max_results as int
    }
}

fn limit_of(max_results: i64) -> (l: usize)
    ensures
        l == page_limit(max_results),
{
    if max_results <= 0 {
        0
    } else if max_results as u64 > usize::MAX as u64 {
        usize::MAX
    } else {
        max_results as usize
    }
}

/// Split an over-fetched page into the rows to return and the next page token.
///
/// Callers fetch one row more than `max_results`. The rows returned are the
/// first `max_results` of the input; when more came back, the token is the key
/// of the last row returned, so the next request resumes right after it. A
/// non-positive limit yields no rows and no token.
pub fn page<T, F: Fn(&T) -> String>(rows: Vec<T>, max_results: i64, key: F) -> (r: (Vec<T>, Option<String>))
    requires
        forall|i: int| 0 <= i < rows@.len() ==> key.requires((&rows@[i],)),
    ensures
        page_limit(max_results) == 0 ==> r.0@.len() == 0 && r.1.is_none(),
        page_limit(max_results) > 0 ==> {
            let limit = page_limit(max_results);
            &&& r.0@ == (if rows@.len() > limit { rows@.subrange(0, limit) } else { rows@ })
            &&& (rows@.len() > limit) == r.1.is_some()
            &&& r.1 matches Some(t) ==> key.ensures((&rows@[limit - 1],), t)
        },
{
    let limit = limit_of(max_results);
    if limit == 0 {
        return (Vec::new(), None);
    }
    let has_more = rows.len() > limit;
    let mut rows = rows;
    let ghost before = rows@;
    rows.truncate(limit);
    assert(has_more ==> rows@ =~= before.subrange(0, limit as int));
    assert(!has_more ==> rows@ =~= before);
    let next = if has_more {
        let last = &rows[limit - 1];
        Some(key(last))
    } else {
        None
    };
    (rows, next)
}

/// How many rows to fetch for a page of `max_results`: one more than the page,
/// saturating rather than wrapping.
pub open spec fn over_fetch_of(max_results: i64) -> int {
    if page_limit(max_results) == usize::MAX {
        usize::MAX as int
    } else {
        page_limit(max_results) + 1
    }
}

pub fn over_fetch(max_results: i64) -> (n: usize)
    ensures
        n == over_fetch_of(max_results),
{
    limit_of(max_results).saturating_add(1)
}

} // verus!
