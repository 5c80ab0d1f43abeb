//! The commit protocol's pure parts: checkpoint pointers and their checks,
//! the checksum, draining a paginated listing, and the replay order checks.

use crate::errors::{ErrorCode, UcError};
use crate::ids::hex_char;
use crate::store::action::{
    commit_key_of, lemma_commit_key_reads_back, lemma_commit_keys_order_numerically, version_from_key,
    version_from_key_of,
};
use crate::text::{
    append_chars, chars_of, debug_of, debug_string, decimal_chars, decimal_of, lemma_lex_asymmetric,
    lemma_lex_irreflexive, lemma_lex_total, lemma_lex_transitive, lex_compare, lex_lt,
    starts_with, string_of, KeyOrder,
};
use vstd::prelude::*;

verus! {

/// Outcome of a conditional create: the object was written, or it already
/// existed and was left alone.
#[derive(Debug, Clone, Copy, PartialEq, Eq, Structural)]
pub enum PutResult {
    Created,
    AlreadyExists,
}

/// Whether `page` is an acceptable answer to listing the keys of `objects`
/// under `prefix` after `after`: present, matching keys in strictly
/// increasing order, with nothing skipped before the last one returned. A
/// page may stop early (real backends paginate), but an empty page means
/// there is nothing left.
pub open spec fn listing_page(
    objects: Map<Seq<char>, Seq<u8>>,
    prefix: Seq<char>,
    after: Seq<char>,
    page: Seq<Seq<char>>,
) -> bool {
    &&& forall|i: int|
        0 <= i < page.len() ==> objects.contains_key(#[trigger] page[i]) && starts_with(page[i], prefix)
            && lex_lt(after, page[i])
    &&& forall|i: int, j: int| 0 <= i < j < page.len() ==> lex_lt(#[trigger] page[i], #[trigger] page[j])
    &&& forall|k: Seq<char>|
        #[trigger] objects.contains_key(k) && starts_with(k, prefix) && lex_lt(after, k) && (page.len() == 0
            || !lex_lt(page.last(), k)) ==> page.contains(k)
}

/// An object store the log can live in. The whole design needs one thing
/// of it: a conditional create that never overwrites and reports a taken
/// key, so that exactly one writer owns each version. Any operation may fail
/// with an I/O error, after which nothing is promised.
pub trait ObjectLog {
    /// The stored objects, by key.
    spec fn objects(&self) -> Map<Seq<char>, Seq<u8>>;

    /// The backend's own invariant.
    spec fn inv(&self) -> bool;

    /// Create `key` with `body` unless it exists; an existing object is left
    /// as it was and reported.
    fn put_if_absent(&mut self, key: &str, body: Vec<u8>) -> (r: Result<PutResult, UcError>)
        requires
            old(self).inv(),
        ensures
            final(self).inv(),
            match r {
                Ok(PutResult::Created) => !old(self).objects().contains_key(key@) && final(self).objects()
                    == old(self).objects().insert(key@, body@),
                Ok(PutResult::AlreadyExists) => old(self).objects().contains_key(key@) && final(self).objects()
                    == old(self).objects(),
                Err(_) => true,
            },
    ;

    /// The body stored under `key`, if any.
    fn get(&self, key: &str) -> (r: Result<Option<Vec<u8>>, UcError>)
        requires
            self.inv(),
        ensures
            match r {
                Ok(Some(b)) => self.objects().contains_key(key@) && b@ == self.objects()[key@],
                Ok(None) => !self.objects().contains_key(key@),
                Err(_) => true,
            },
    ;

    /// One page of the keys under `prefix` sorting strictly after
    /// `start_after`, in key order.
    fn list_after(&self, prefix: &str, start_after: &str) -> (r: Result<Vec<String>, UcError>)
        requires
            self.inv(),
        ensures
            match r {
                Ok(keys) => listing_page(self.objects(), prefix@, start_after@, keys@.map_values(|k: String| k@)),
                Err(_) => true,
            },
    ;

    /// Store `body` under `key` unconditionally; only for the advisory
    /// checkpoint pointer.
    fn put(&mut self, key: &str, body: Vec<u8>) -> (r: Result<(), UcError>)
        requires
            old(self).inv(),
        ensures
            final(self).inv(),
            r is Ok ==> final(self).objects() == old(self).objects().insert(key@, body@),
    ;
}

/// Bounded so a write storm surfaces as an error instead of spinning.
pub const MAX_COMMIT_ATTEMPTS: usize = 8;

/// A checkpoint is taken at every version divisible by this.
pub const CHECKPOINT_INTERVAL: u64 = 100;

/// The `_last_checkpoint` pointer: which version was checkpointed, how many
/// lines the checkpoint holds, and optionally its content hash.
#[derive(Debug)]
pub struct LastCheckpoint {
    pub version: u64,
    pub size: u64,
    pub checksum: Option<String>,
}

pub open spec fn fnv_offset() -> u64 {
    0xcbf2_9ce4_8422_2325
}

pub open spec fn fnv_prime() -> u64 {
    0x0000_0100_0000_01b3
}

/// FNV-1a over `bytes`, 64 bits.
pub open spec fn fnv1a(bytes: Seq<u8>) -> u64
    decreases bytes.len(),
{
    if bytes.len() == 0 {
        fnv_offset()
    } else {
        let h = fnv1a(bytes.drop_last()) ^ (bytes.last() as u64);
        ((h as nat * fnv_prime() as nat) % 0x1_0000_0000_0000_0000nat) as u64
    }
}

/// The low `w` hexadecimal digits of `n`, lower case, zero-padded.
pub open spec fn fixed_hex(n: nat, w: nat) -> Seq<char>
    decreases w,
{
    if w == 0 {
        Seq::empty()
    } else {
        fixed_hex(n / 16, (w - 1) as nat).push(hex_char((n % 16) as int))
    }
}

/// The checksum text of a body: its FNV-1a hash as sixteen hex digits.
pub open spec fn content_hash_of(bytes: Seq<u8>) -> Seq<char> {
    fixed_hex(fnv1a(bytes) as nat, 16)
}

fn fixed_hex_chars(n: u64, w: usize) -> (v: Vec<char>)
    ensures
        v@ == fixed_hex(n as nat, w as nat),
    decreases w,
{
    if w == 0 {
        Vec::new()
    } else {
        let mut v = fixed_hex_chars(n / 16, w - 1);
        let d = (n % 16) as u8;
        let c = if d < 10 { (48u8 + d) as char } else { (87u8 + d) as char };
        v.push(c);
        v
    }
}

/// FNV-1a, 64-bit, as sixteen lower-case hex digits. Detects accidental
/// corruption; it is not cryptographic.
pub fn content_hash(bytes: &[u8]) -> (s: String)
    ensures
        s@ == content_hash_of(bytes@),
{
    let mut h: u64 = 0xcbf2_9ce4_8422_2325;
    let mut i: usize = 0;
    assert(bytes@.take(0) =~= Seq::<u8>::empty());
    while i < bytes.len()
        invariant
            i <= bytes@.len(),
            h == fnv1a(bytes@.take(i as int)),
        decreases bytes@.len() - i,
    {
        proof {
            assert(bytes@.take(i as int + 1).drop_last() =~= bytes@.take(i as int));
            assert(bytes@.take(i as int + 1).last() == bytes@[i as int]);
        }
        h = (h ^ bytes[i] as u64).wrapping_mul(0x0000_0100_0000_01b3);
        i = i + 1;
    }
    assert(bytes@.take(i as int) =~= bytes@);
    string_of(fixed_hex_chars(h, 16).as_slice())
}

/// The number of newline bytes in `bytes`.
pub open spec fn count_newlines(bytes: Seq<u8>) -> nat
    decreases bytes.len(),
{
    if bytes.len() == 0 {
        0
    } else {
        count_newlines(bytes.drop_last()) + if bytes.last() == 10u8 { 1nat } else { 0nat }
    }
}

fn newline_count(bytes: &[u8]) -> (n: u64)
    ensures
        n == count_newlines(bytes@),
{
    let mut n: u64 = 0;
    let mut i: usize = 0;
    assert(bytes@.take(0) =~= Seq::<u8>::empty());
    while i < bytes.len()
        invariant
            i <= bytes@.len(),
            n == count_newlines(bytes@.take(i as int)),
            n <= i,
        decreases bytes@.len() - i,
    {
        proof {
            assert(bytes@.take(i as int + 1).drop_last() =~= bytes@.take(i as int));
            assert(bytes@.take(i as int + 1).last() == bytes@[i as int]);
        }
        if bytes[i] == 10u8 {
            n = n + 1;
        }
        i = i + 1;
    }
    assert(bytes@.take(i as int) =~= bytes@);
    n
}

/// Whether a checkpoint body is the one a pointer describes: it holds the
/// recorded number of lines, and matches the recorded checksum when there is
/// one (pointers written before checksums existed carry none).
pub open spec fn checkpoint_matches(size: u64, checksum: Option<Seq<char>>, body: Seq<u8>) -> bool {
    &&& count_newlines(body) == size
    &&& match checksum {
        Some(c) => c == content_hash_of(body),
        None => true,
    }
}

/// Decide whether to start replay from the checkpoint a pointer names, given
/// the body that was read for it. A missing, truncated or corrupted body falls
/// back to a full replay (`None`) rather than failing: the log can always
/// rebuild the state.
pub fn accept_checkpoint(ptr: &LastCheckpoint, body: Option<Vec<u8>>) -> (r: Option<(u64, Vec<u8>)>)
    ensures
        match body {
            None => r is None,
            Some(b) => {
                let want = match ptr.checksum {
                    Some(c) => Some(c@),
                    None => None,
                };
                if checkpoint_matches(ptr.size, want, b@) {
                    r == Some((ptr.version, b))
                } else {
                    r is None
                }
            },
        },
{
    match body {
        None => None,
        Some(b) => {
            let lines = newline_count(b.as_slice());
            if lines != ptr.size {
                return None;
            }
            match &ptr.checksum {
                Some(expected) => {
                    let actual = content_hash(b.as_slice());
                    if !crate::text::str_eq(actual.as_str(), expected.as_str()) {
                        return None;
                    }
                },
                None => {},
            }
            Some((ptr.version, b))
        },
    }
}

/// The commit keys among `keys` that name a version after `from`, with their
/// versions, in listing order.
pub open spec fn commits_after(keys: Seq<Seq<char>>, from: u64) -> Seq<(u64, Seq<char>)>
    decreases keys.len(),
{
    if keys.len() == 0 {
        Seq::empty()
    } else {
        let init = commits_after(keys.drop_last(), from);
        match version_from_key_of(keys.last()) {
            Some(v) => if v > from {
                init.push((v, keys.last()))
            } else {
                init
            },
            None => init,
        }
    }
}

pub open spec fn string_views(keys: Seq<String>) -> Seq<Seq<char>> {
    keys.map_values(|k: String| k@)
}

/// The listed keys that are commits after `from`, with their versions.
/// Checkpoints, the pointer and anything else under the prefix are skipped.
pub fn select_commits_after(keys: &[String], from: u64) -> (r: Vec<(u64, String)>)
    ensures
        r@.map_values(|p: (u64, String)| (p.0, p.1@)) == commits_after(string_views(keys@), from),
{
    let ghost views = string_views(keys@);
    let mut out: Vec<(u64, String)> = Vec::new();
    let mut i: usize = 0;
    assert(views.take(0) =~= Seq::<Seq<char>>::empty());
    assert(out@.map_values(|p: (u64, String)| (p.0, p.1@)) =~= Seq::<(u64, Seq<char>)>::empty());
    while i < keys.len()
        invariant
            views == string_views(keys@),
            i <= keys@.len(),
            out@.map_values(|p: (u64, String)| (p.0, p.1@)) == commits_after(views.take(i as int), from),
        decreases keys@.len() - i,
    {
        proof {
            assert(views.take(i as int + 1).drop_last() =~= views.take(i as int));
            assert(views.take(i as int + 1).last() == keys@[i as int]@);
        }
        let ghost out0 = out@;
        match version_from_key(keys[i].as_str()) {
            Some(v) => {
                if v > from {
                    out.push((v, keys[i].clone()));
                    assert(out@.map_values(|p: (u64, String)| (p.0, p.1@)) =~= out0.map_values(|p: (u64, String)| (p.0, p.1@)).push((v, keys@[i as int]@)));
                }
            },
            None => {},
        }
        i = i + 1;
    }
    assert(views.take(i as int) =~= views);
    out
}

/// Replay's selection is complete and faithful: every listed commit after
/// `from` is selected with its version, everything selected is such a commit,
/// and once the gap check passes the versions run `from + 1` to `from + n`.
pub proof fn lemma_replay_selection(keys: Seq<Seq<char>>, from: u64)
    ensures
        forall|k: Seq<char>, v: u64|
            keys.contains(k) && version_from_key_of(k) == Some(v) && v > from ==> #[trigger] commits_after(
                keys,
                from,
            ).contains((v, k)),
        forall|i: int|
            0 <= i < commits_after(keys, from).len() ==> version_from_key_of(
                (#[trigger] commits_after(keys, from)[i]).1,
            ) == Some(commits_after(keys, from)[i].0) && commits_after(keys, from)[i].0 > from && keys.contains(
                commits_after(keys, from)[i].1,
            ),
        gapless_after(from, commits_after(keys, from).map_values(|p: (u64, Seq<char>)| p.0)) ==> forall|i: int|
            0 <= i < commits_after(keys, from).len() ==> (#[trigger] commits_after(keys, from)[i]).0 == from + 1 + i,
    decreases keys.len(),
{
    let c = commits_after(keys, from);
    if keys.len() > 0 {
        let d = keys.drop_last();
        lemma_replay_selection(d, from);
        let c0 = commits_after(d, from);
        assert forall|k: Seq<char>, v: u64|
            keys.contains(k) && version_from_key_of(k) == Some(v) && v > from implies #[trigger] c.contains((v, k)) by {
            let j = choose|j: int| 0 <= j < keys.len() && keys[j] == k;
            if j < keys.len() - 1 {
                assert(d[j] == k);
                assert(c0.contains((v, k)));
                let x = choose|x: int| 0 <= x < c0.len() && c0[x] == (v, k);
                match version_from_key_of(keys.last()) {
                    Some(w) => {
                        if w > from {
                            assert(c0.push((w, keys.last()))[x] == (v, k));
                        }
                    },
                    None => {},
                }
            } else {
                assert(keys.last() == k);
                assert(c0.push((v, k))[c0.len() as int] == (v, k));
            }
        }
        assert forall|i: int| 0 <= i < c.len() implies version_from_key_of((#[trigger] c[i]).1) == Some(c[i].0) && c[i].0
            > from && keys.contains(c[i].1) by {
            if i < c0.len() {
                assert(c[i] == c0[i]);
                let j = choose|j: int| 0 <= j < d.len() && d[j] == c0[i].1;
                assert(keys[j] == d[j]);
            } else {
                assert(keys[keys.len() - 1] == keys.last());
            }
        }
    }
    if gapless_after(from, c.map_values(|p: (u64, Seq<char>)| p.0)) {
        assert forall|i: int| 0 <= i < c.len() implies (#[trigger] c[i]).0 == from + 1 + i by {
            assert(c.map_values(|p: (u64, Seq<char>)| p.0)[i] == c[i].0);
        }
    }
}

/// Replay misses no commit: when the listing of the log prefix from the key
/// of `from` was drained, every commit stored after `from` is among the
/// commits replay selects, under its own key and version.
pub proof fn lemma_replay_reads_every_commit(
    objects: Map<Seq<char>, Seq<u8>>,
    keys: Seq<Seq<char>>,
    from: u64,
    v: u64,
)
    requires
        drained(objects, "_uc_log/"@, commit_key_of(from), None, keys),
        objects.contains_key(commit_key_of(v)),
        v > from,
    ensures
        commits_after(keys, from).contains((v, commit_key_of(v))),
{
    reveal_strlit("_uc_log/");
    let k = commit_key_of(v);
    assert(k.subrange(0, 8) =~= "_uc_log/"@);
    lemma_commit_keys_order_numerically(from, v);
    assert(wanted(objects, "_uc_log/"@, commit_key_of(from), None, k));
    lemma_commit_key_reads_back(v);
    lemma_replay_selection(keys, from);
}

/// Whether `versions` runs `from + 1, from + 2, ...` without a gap.
pub open spec fn gapless_after(from: u64, versions: Seq<u64>) -> bool {
    forall|i: int| 0 <= i < versions.len() ==> versions[i] == from + 1 + i
}

/// Refuse a replay whose versions are not gapless from `from`: a gap means a
/// commit was deleted or a listing truncated, and applying the rest would
/// produce state that never existed. The error names the first mismatch.
pub fn check_gapless(from: u64, versions: &[u64]) -> (r: Result<(), UcError>)
    ensures
        r is Ok <==> gapless_after(from, versions@),
        r matches Err(e) ==> e.code == ErrorCode::Internal && exists|i: int|
            0 <= i < versions@.len() && versions@[i] != from + 1 + i && (forall|j: int|
                0 <= j < i ==> versions@[j] == from + 1 + j) && e.message@ == "log gap: expected version "@
                + decimal_of((from + 1 + i) as nat) + ", found "@ + decimal_of(versions@[i] as nat),
{
    let mut i: usize = 0;
    while i < versions.len()
        invariant
            i <= versions@.len(),
            forall|j: int| 0 <= j < i ==> versions@[j] == from + 1 + j,
        decreases versions@.len() - i,
    {
        let v = versions[i];
        if (v as u128) != (from as u128) + 1 + (i as u128) {
            let expected: u128 = (from as u128) + 1 + (i as u128);
            let mut m = chars_of("log gap: expected version ");
            append_chars(&mut m, decimal_chars(expected).as_slice());
            append_chars(&mut m, chars_of(", found ").as_slice());
            append_chars(&mut m, decimal_chars(v as u128).as_slice());
            return Err(UcError::with_message(ErrorCode::Internal, string_of(m.as_slice())));
        }
        i = i + 1;
    }
    Ok(())
}

/// The message for a commit that was listed but could not be read.
pub open spec fn commit_hole_message(key: Seq<char>) -> Seq<char> {
    "log hole: "@ + key + " was listed but could not be read"@
}

/// The body read for a listed commit. A listed commit that cannot be read is
/// a hole in the log, and is refused rather than skipped: replaying around it
/// would materialise a state that never existed.
pub fn listed_commit(key: &str, read: Option<Vec<u8>>) -> (r: Result<Vec<u8>, UcError>)
    ensures
        match read {
            Some(b) => r == Ok::<Vec<u8>, UcError>(b),
            None => r matches Err(e) && e.code == ErrorCode::Internal && e.message@ == commit_hole_message(key@),
        },
{
    match read {
        Some(b) => Ok(b),
        None => {
            let mut m = chars_of("log hole: ");
            append_chars(&mut m, chars_of(key).as_slice());
            append_chars(&mut m, chars_of(" was listed but could not be read").as_slice());
            let e = UcError::with_message(ErrorCode::Internal, string_of(m.as_slice()));
            assert(e.message@ =~= commit_hole_message(key@));
            Err(e)
        },
    }
}

/// Draining a paginated listing: the keys gathered so far, the cursor the
/// next page starts after, and an optional inclusive upper bound.
pub struct Listing {
    keys: Vec<String>,
    cursor: String,
    stop_at: Option<String>,
}

/// What to do after a page: ask for the next one, stop, or give up.
#[derive(Debug)]
pub enum ListStep {
    Next,
    Done,
    Failed(UcError),
}

/// The prefix of `page` up to and including the last key not after `stop`.
pub open spec fn take_not_after(page: Seq<Seq<char>>, stop: Seq<char>) -> Seq<Seq<char>>
    decreases page.len(),
{
    if page.len() == 0 {
        page
    } else if lex_lt(stop, page[0]) {
        Seq::empty()
    } else {
        seq![page[0]] + take_not_after(page.drop_first(), stop)
    }
}

/// How one page folds into a listing: an empty page ends it; a page running
/// past the bound contributes its keys up to the bound and ends it; a page
/// whose last key does not sort after the cursor is refused; otherwise the
/// page is kept and the cursor moves to its last key.
pub open spec fn stepped(old: Listing, new: Listing, p: Seq<Seq<char>>, s: ListStep) -> bool {
    let g = old.gathered();
    if p.len() == 0 {
        s is Done && new.gathered() == g
    } else if old.bound() is Some && lex_lt(old.bound()->0, p.last()) {
        s is Done && new.gathered() == g + take_not_after(p, old.bound()->0)
    } else if !lex_lt(old.after(), p.last()) {
        &&& s matches ListStep::Failed(e)
        &&& e.code == ErrorCode::Internal
        &&& e.message@ == "object log ignored start_after: "@ + debug_of(p.last()) + " <= "@ + debug_of(old.after())
        &&& new.gathered() == g
    } else {
        &&& s is Next
        &&& new.gathered() == g + p
        &&& new.after() == p.last()
        &&& new.bound() == old.bound()
    }
}

/// Whether `k` is within an optional inclusive upper bound.
pub open spec fn within(bound: Option<Seq<char>>, k: Seq<char>) -> bool {
    match bound {
        Some(b) => !lex_lt(b, k),
        None => true,
    }
}

/// The keys a listing must yield: stored under `prefix`, after `start`, and
/// within the bound.
pub open spec fn wanted(
    objects: Map<Seq<char>, Seq<u8>>,
    prefix: Seq<char>,
    start: Seq<char>,
    bound: Option<Seq<char>>,
    k: Seq<char>,
) -> bool {
    objects.contains_key(k) && starts_with(k, prefix) && lex_lt(start, k) && within(bound, k)
}

pub open spec fn strictly_ascending(g: Seq<Seq<char>>) -> bool {
    forall|i: int, j: int| 0 <= i < j < g.len() ==> lex_lt(#[trigger] g[i], #[trigger] g[j])
}

/// A listing part way through: the keys gathered ascend, are all wanted, end
/// at the cursor, and hold every wanted key up to the cursor.
pub open spec fn drain_progress(
    l: Listing,
    objects: Map<Seq<char>, Seq<u8>>,
    prefix: Seq<char>,
    start: Seq<char>,
) -> bool {
    let g = l.gathered();
    &&& strictly_ascending(g)
    &&& forall|i: int| 0 <= i < g.len() ==> wanted(objects, prefix, start, l.bound(), #[trigger] g[i])
    &&& if g.len() == 0 {
        l.after() == start
    } else {
        l.after() == g.last()
    }
    &&& forall|k: Seq<char>|
        #[trigger] wanted(objects, prefix, start, l.bound(), k) && !lex_lt(l.after(), k) ==> g.contains(k)
}

/// A finished listing: exactly the wanted keys, ascending.
pub open spec fn drained(
    objects: Map<Seq<char>, Seq<u8>>,
    prefix: Seq<char>,
    start: Seq<char>,
    bound: Option<Seq<char>>,
    keys: Seq<Seq<char>>,
) -> bool {
    &&& strictly_ascending(keys)
    &&& forall|k: Seq<char>| #[trigger] keys.contains(k) <==> wanted(objects, prefix, start, bound, k)
}

/// Of an ascending page, the keys not after `stop` are a leading run.
proof fn lemma_take_not_after(p: Seq<Seq<char>>, stop: Seq<char>)
    requires
        strictly_ascending(p),
    ensures
        exists|n: int|
            0 <= n <= p.len() && take_not_after(p, stop) == p.take(n) && (forall|i: int|
                0 <= i < n ==> !lex_lt(stop, #[trigger] p[i])) && (forall|i: int|
                n <= i < p.len() ==> lex_lt(stop, #[trigger] p[i])),
    decreases p.len(),
{
    if p.len() == 0 {
        assert(take_not_after(p, stop) == p.take(0));
    } else if lex_lt(stop, p[0]) {
        assert(take_not_after(p, stop) =~= p.take(0));
        assert forall|i: int| 0 <= i < p.len() implies lex_lt(stop, #[trigger] p[i]) by {
            if i > 0 {
                lemma_lex_transitive(stop, p[0], p[i]);
            }
        }
    } else {
        let q = p.drop_first();
        assert forall|i: int, j: int| 0 <= i < j < q.len() implies lex_lt(#[trigger] q[i], #[trigger] q[j]) by {
            assert(q[i] == p[i + 1] && q[j] == p[j + 1]);
        }
        lemma_take_not_after(q, stop);
        let m = choose|m: int|
            0 <= m <= q.len() && take_not_after(q, stop) == q.take(m) && (forall|i: int|
                0 <= i < m ==> !lex_lt(stop, #[trigger] q[i])) && (forall|i: int|
                m <= i < q.len() ==> lex_lt(stop, #[trigger] q[i]));
        assert(take_not_after(p, stop) =~= p.take(m + 1));
        assert forall|i: int| 0 <= i < m + 1 implies !lex_lt(stop, #[trigger] p[i]) by {
            if i > 0 {
                assert(p[i] == q[i - 1]);
            }
        }
        assert forall|i: int| m + 1 <= i < p.len() implies lex_lt(stop, #[trigger] p[i]) by {
            assert(p[i] == q[i - 1]);
        }
    }
}

/// A fresh listing has made the right start: nothing gathered, and nothing
/// wanted before its cursor.
pub proof fn lemma_drain_starts(l: Listing, objects: Map<Seq<char>, Seq<u8>>, prefix: Seq<char>, start: Seq<char>)
    requires
        l.gathered() == Seq::<Seq<char>>::empty(),
        l.after() == start,
    ensures
        drain_progress(l, objects, prefix, start),
{
    assert forall|k: Seq<char>| #[trigger] wanted(objects, prefix, start, l.bound(), k) && !lex_lt(l.after(), k) implies l.gathered().contains(k) by {
    }
}

/// Folding honest pages into a listing: each page a backend may return for
/// the cursor (ascending, possibly cut short, empty only when nothing is
/// left) keeps the listing's progress and moves its cursor forward, and when
/// the listing ends it holds exactly the wanted keys, ascending, however the
/// backend cut its pages.
pub proof fn lemma_drain_step(
    old: Listing,
    new: Listing,
    page: Seq<Seq<char>>,
    s: ListStep,
    objects: Map<Seq<char>, Seq<u8>>,
    prefix: Seq<char>,
    start: Seq<char>,
)
    requires
        drain_progress(old, objects, prefix, start),
        listing_page(objects, prefix, old.after(), page),
        stepped(old, new, page, s),
    ensures
        s is Next ==> drain_progress(new, objects, prefix, start) && new.bound() == old.bound() && lex_lt(
            old.after(),
            new.after(),
        ),
        s is Done ==> drained(objects, prefix, start, old.bound(), new.gathered()),
{
    let g = old.gathered();
    let a = old.after();
    let b = old.bound();
    // Everything gathered is at or before the cursor, which is at or after the start.
    assert forall|i: int| 0 <= i < g.len() implies !lex_lt(a, #[trigger] g[i]) by {
        if i < g.len() - 1 {
            lemma_lex_asymmetric(g[i], g.last());
        } else {
            lemma_lex_irreflexive(a);
        }
    }
    assert(a == start || lex_lt(start, a));
    if page.len() == 0 {
        assert forall|k: Seq<char>| #[trigger] g.contains(k) <==> wanted(objects, prefix, start, b, k) by {
            if wanted(objects, prefix, start, b, k) && lex_lt(a, k) {
                assert(!page.contains(k));
            }
        }
    } else if b is Some && lex_lt(b->0, page.last()) {
        let stop = b->0;
        lemma_take_not_after(page, stop);
        let n = choose|n: int|
            0 <= n <= page.len() && take_not_after(page, stop) == page.take(n) && (forall|i: int|
                0 <= i < n ==> !lex_lt(stop, #[trigger] page[i])) && (forall|i: int|
                n <= i < page.len() ==> lex_lt(stop, #[trigger] page[i]));
        let t = page.take(n);
        let ng = g + t;
        assert(new.gathered() == ng);
        assert forall|i: int, j: int| 0 <= i < j < ng.len() implies lex_lt(#[trigger] ng[i], #[trigger] ng[j]) by {
            if j >= g.len() && i < g.len() {
                assert(ng[j] == page[j - g.len()]);
                assert(lex_lt(a, page[j - g.len()]));
                if lex_lt(g[i], a) {
                    lemma_lex_transitive(g[i], a, ng[j]);
                } else {
                    lemma_lex_total(g[i], a);
                }
            } else if i >= g.len() {
                assert(ng[i] == page[i - g.len()] && ng[j] == page[j - g.len()]);
            }
        }
        assert forall|i: int| 0 <= i < n implies wanted(objects, prefix, start, b, #[trigger] page[i]) by {
            if a != start {
                lemma_lex_transitive(start, a, page[i]);
            }
        }
        assert forall|k: Seq<char>| #[trigger] ng.contains(k) <==> wanted(objects, prefix, start, b, k) by {
            if ng.contains(k) {
                let i = choose|i: int| 0 <= i < ng.len() && ng[i] == k;
                if i >= g.len() {
                    assert(k == page[i - g.len()]);
                } else {
                    assert(k == g[i]);
                }
            }
            if wanted(objects, prefix, start, b, k) {
                if !lex_lt(a, k) {
                    let i = choose|i: int| 0 <= i < g.len() && g[i] == k;
                    assert(ng[i] == k);
                } else {
                    lemma_lex_total(k, page.last());
                    if lex_lt(page.last(), k) {
                        lemma_lex_transitive(stop, page.last(), k);
                    }
                    assert(page.contains(k));
                    let j = choose|j: int| 0 <= j < page.len() && page[j] == k;
                    if j >= n {
                        assert(lex_lt(stop, page[j]));
                    }
                    assert(ng[g.len() + j] == k);
                }
            }
        }
    } else if !lex_lt(a, page.last()) {
    } else {
        let ng = g + page;
        assert(new.gathered() == ng);
        assert forall|i: int, j: int| 0 <= i < j < ng.len() implies lex_lt(#[trigger] ng[i], #[trigger] ng[j]) by {
            if j >= g.len() && i < g.len() {
                assert(ng[j] == page[j - g.len()]);
                assert(lex_lt(a, page[j - g.len()]));
                if lex_lt(g[i], a) {
                    lemma_lex_transitive(g[i], a, ng[j]);
                } else {
                    lemma_lex_total(g[i], a);
                }
            } else if i >= g.len() {
                assert(ng[i] == page[i - g.len()] && ng[j] == page[j - g.len()]);
            }
        }
        assert forall|i: int| 0 <= i < page.len() implies wanted(objects, prefix, start, b, #[trigger] page[i]) by {
            if a != start {
                lemma_lex_transitive(start, a, page[i]);
            }
            if b is Some && lex_lt(b->0, page[i]) {
                if i < page.len() - 1 {
                    lemma_lex_transitive(b->0, page[i], page.last());
                }
            }
        }
        assert forall|i: int| 0 <= i < ng.len() implies wanted(objects, prefix, start, new.bound(), #[trigger] ng[i]) by {
            if i >= g.len() {
                assert(ng[i] == page[i - g.len()]);
            }
        }
        assert(ng.last() == page.last());
        assert forall|k: Seq<char>| #[trigger] wanted(objects, prefix, start, new.bound(), k) && !lex_lt(new.after(), k) implies ng.contains(k) by {
            if !lex_lt(a, k) {
                let i = choose|i: int| 0 <= i < g.len() && g[i] == k;
                assert(ng[i] == k);
            } else {
                assert(page.contains(k));
                let j = choose|j: int| 0 <= j < page.len() && page[j] == k;
                assert(ng[g.len() + j] == k);
            }
        }
    }
}

/// The run of a paging loop: the listing before each page and after the
/// last, the pages folded in (each an honest page for the cursor it was asked
/// with), and what each step answered: more for all but the last, which ended
/// the listing.
pub open spec fn paging_run(
    states: Seq<Listing>,
    pages: Seq<Seq<Seq<char>>>,
    steps: Seq<ListStep>,
    objects: Map<Seq<char>, Seq<u8>>,
    prefix: Seq<char>,
) -> bool {
    &&& pages.len() > 0
    &&& steps.len() == pages.len()
    &&& states.len() == pages.len() + 1
    &&& forall|i: int|
        0 <= i < pages.len() ==> listing_page(objects, prefix, states[i].after(), #[trigger] pages[i]) && stepped(
            states[i],
            states[i + 1],
            pages[i],
            steps[i],
        )
    &&& forall|i: int| 0 <= i < pages.len() - 1 ==> (#[trigger] steps[i]) is Next
    &&& steps.last() is Done
}

proof fn lemma_drain_upto(
    states: Seq<Listing>,
    pages: Seq<Seq<Seq<char>>>,
    steps: Seq<ListStep>,
    objects: Map<Seq<char>, Seq<u8>>,
    prefix: Seq<char>,
    start: Seq<char>,
    i: int,
)
    requires
        paging_run(states, pages, steps, objects, prefix),
        states[0].gathered() == Seq::<Seq<char>>::empty(),
        states[0].after() == start,
        0 <= i < pages.len(),
    ensures
        drain_progress(states[i], objects, prefix, start),
        states[i].bound() == states[0].bound(),
    decreases i,
{
    if i == 0 {
        lemma_drain_starts(states[0], objects, prefix, start);
    } else {
        lemma_drain_upto(states, pages, steps, objects, prefix, start, i - 1);
        assert(listing_page(objects, prefix, states[i - 1].after(), pages[i - 1]));
        assert(steps[i - 1] is Next);
        lemma_drain_step(states[i - 1], states[i], pages[i - 1], steps[i - 1], objects, prefix, start);
    }
}

/// Draining a listing to its end against an honest paging backend yields
/// exactly the keys under the prefix after the start and within the bound,
/// ascending, however the backend cut its pages.
pub proof fn lemma_drain(
    states: Seq<Listing>,
    pages: Seq<Seq<Seq<char>>>,
    steps: Seq<ListStep>,
    objects: Map<Seq<char>, Seq<u8>>,
    prefix: Seq<char>,
    start: Seq<char>,
)
    requires
        paging_run(states, pages, steps, objects, prefix),
        states[0].gathered() == Seq::<Seq<char>>::empty(),
        states[0].after() == start,
    ensures
        drained(objects, prefix, start, states[0].bound(), states.last().gathered()),
{
    let n = pages.len() - 1;
    lemma_drain_upto(states, pages, steps, objects, prefix, start, n);
    assert(listing_page(objects, prefix, states[n].after(), pages[n]));
    assert(states[n + 1] == states.last());
    lemma_drain_step(states[n], states[n + 1], pages[n], steps[n], objects, prefix, start);
}

impl Listing {
    pub closed spec fn gathered(self) -> Seq<Seq<char>> {
        string_views(self.keys@)
    }

    pub closed spec fn after(self) -> Seq<char> {
        self.cursor@
    }

    pub closed spec fn bound(self) -> Option<Seq<char>> {
        match self.stop_at {
            Some(s) => Some(s@),
            None => None,
        }
    }

    /// Start a listing of keys after `start_after`, stopping past `stop_at`
    /// when given.
    pub fn new(start_after: &str, stop_at: Option<&str>) -> (l: Listing)
        ensures
            l.gathered() == Seq::<Seq<char>>::empty(),
            l.after() == start_after@,
            l.bound() == (match stop_at {
                Some(s) => Some(s@),
                None => None,
            }),
    {
        let l = Listing {
            keys: Vec::new(),
            cursor: start_after.to_owned(),
            stop_at: match stop_at {
                Some(s) => Some(s.to_owned()),
                None => None,
            },
        };
        assert(l.gathered() =~= Seq::<Seq<char>>::empty());
        l
    }

    /// The key the next page must start after.
    pub fn cursor(&self) -> (c: &str)
        ensures
            c@ == self.after(),
    {
        self.cursor.as_str()
    }

    /// Fold one page in. An empty page ends the listing. A page running past
    /// the bound contributes its keys up to the bound and ends it. A page whose
    /// last key does not sort after the cursor means the backend ignored the
    /// cursor, and is refused rather than looped on. Otherwise the page is
    /// kept and the cursor moves to its last key.
    pub fn step(&mut self, page: Vec<String>) -> (s: ListStep)
        ensures
            stepped(*old(self), *final(self), string_views(page@), s),
    {
        let ghost p = string_views(page@);
        let n = page.len();
        if n == 0 {
            return ListStep::Done;
        }
        let last = chars_of(page[n - 1].as_str());
        assert(last@ == p.last());
        match &self.stop_at {
            Some(stop) => {
                let sv = chars_of(stop.as_str());
                if lex_compare(sv.as_slice(), last.as_slice()) == KeyOrder::Less {
                    self.take_up_to(page, sv.as_slice());
                    return ListStep::Done;
                }
            },
            None => {},
        }
        let cur = chars_of(self.cursor.as_str());
        if lex_compare(cur.as_slice(), last.as_slice()) != KeyOrder::Less {
            let mut m = chars_of("object log ignored start_after: ");
            append_chars(&mut m, chars_of(debug_string(page[n - 1].as_str()).as_str()).as_slice());
            append_chars(&mut m, chars_of(" <= ").as_slice());
            append_chars(&mut m, chars_of(debug_string(self.cursor.as_str()).as_str()).as_slice());
            return ListStep::Failed(UcError::with_message(ErrorCode::Internal, string_of(m.as_slice())));
        }
        self.cursor = page[n - 1].clone();
        let ghost g0 = self.gathered();
        let mut page = page;
        self.keys.append(&mut page);
        assert(self.gathered() =~= g0 + p);
        ListStep::Next
    }

    fn take_up_to(&mut self, page: Vec<String>, stop: &[char])
        ensures
            final(self).gathered() == old(self).gathered() + take_not_after(string_views(page@), stop@),
            final(self).cursor == old(self).cursor,
            final(self).stop_at == old(self).stop_at,
    {
        let ghost p = string_views(page@);
        let ghost g0 = self.gathered();
        let mut i: usize = 0;
        assert(p.take(0) =~= Seq::<Seq<char>>::empty());
        assert(p.skip(0) =~= p);
        assert(g0 + p.take(0) =~= g0);
        while i < page.len()
            invariant
                p == string_views(page@),
                g0 == old(self).gathered(),
                i <= page@.len(),
                self.cursor == old(self).cursor,
                self.stop_at == old(self).stop_at,
                forall|j: int| 0 <= j < i ==> !lex_lt(stop@, #[trigger] p[j]),
                self.gathered() == g0 + p.take(i as int),
                take_not_after(p, stop@) == p.take(i as int) + take_not_after(p.skip(i as int), stop@),
            decreases page@.len() - i,
        {
            let k = chars_of(page[i].as_str());
            let ghost rest = p.skip(i as int);
            assert(rest[0] == p[i as int]);
            if lex_compare(stop, k.as_slice()) == KeyOrder::Less {
                assert(take_not_after(rest, stop@) =~= Seq::<Seq<char>>::empty());
                assert(k@ == rest[0]);
                assert(take_not_after(rest, stop@) =~= Seq::<Seq<char>>::empty());
                assert(p.take(i as int) + Seq::<Seq<char>>::empty() =~= p.take(i as int));
                assert(take_not_after(p, stop@) == p.take(i as int));
                return;
            }
            assert(rest.drop_first() =~= p.skip(i as int + 1));
            assert(p.take(i as int + 1) =~= p.take(i as int) + seq![p[i as int]]);
            assert(take_not_after(rest, stop@) == seq![rest[0]] + take_not_after(rest.drop_first(), stop@));
            assert(p.take(i as int) + (seq![p[i as int]] + take_not_after(p.skip(i as int + 1), stop@))
                =~= p.take(i as int + 1) + take_not_after(p.skip(i as int + 1), stop@));
            let ghost k0 = self.keys@;
            self.keys.push(page[i].clone());
            assert(string_views(self.keys@) =~= string_views(k0).push(p[i as int]));
            assert(self.gathered() =~= g0 + p.take(i as int + 1));
            i = i + 1;
        }
        assert(p.skip(i as int) =~= Seq::<Seq<char>>::empty());
        assert(p.take(i as int) + Seq::<Seq<char>>::empty() =~= p.take(i as int));
    }

    /// The keys gathered.
    pub fn into_keys(self) -> (k: Vec<String>)
        ensures
            string_views(k@) == self.gathered(),
    {
        self.keys
    }
}

} // verus!
