//! The decisions of the commit loop and of checkpointing.
//!
//! Writing to the object log is I/O and happens outside the library: the
//! driver builds the actions against a snapshot, asks here where to write
//! them, performs the conditional write, and hands the outcome back to learn
//! whether the commit landed, must be rebuilt against a fresher snapshot, or
//! has run out of attempts.

use crate::errors::{ErrorCode, UcError};
use crate::store::log::{
    checkpoint_matches, content_hash, content_hash_of, count_newlines, LastCheckpoint, PutResult, CHECKPOINT_INTERVAL,
    MAX_COMMIT_ATTEMPTS,
};
use vstd::prelude::*;

verus! {

/// What the commit loop does after a conditional write of its commit.
#[derive(Debug)]
pub enum AfterPut {
    /// The commit owns its version: apply it and return.
    Landed,
    /// Another writer took the version: catch up and rebuild.
    Retry,
    /// Every attempt lost a race.
    GiveUp(UcError),
}

/// The message a commit that exhausted its attempts fails with.
pub open spec fn contention_message() -> Seq<char> {
    "commit contention: exceeded max attempts"@
}

/// The attempt counter of one commit.
pub struct CommitLoop {
    attempt: usize,
}

impl CommitLoop {
    /// The attempt in progress, counting from one.
    pub closed spec fn attempt_no(self) -> nat {
        self.attempt as nat
    }

    pub closed spec fn wf(self) -> bool {
        1 <= self.attempt <= MAX_COMMIT_ATTEMPTS
    }

    /// A loop about to make its first attempt.
    pub fn new() -> (c: CommitLoop)
        ensures
            c.wf(),
            c.attempt_no() == 1,
    {
        CommitLoop { attempt: 1 }
    }

    pub fn attempt(&self) -> (a: usize)
        ensures
            a == self.attempt_no(),
    {
        self.attempt
    }

    /// Where the actions a build produced are written: nowhere when there are
    /// none (an empty commit would burn a version and grow the log without
    /// changing any state), else at the version after the snapshot's.
    pub fn target(snapshot_version: u64, action_count: usize) -> (r: Option<u64>)
        requires
            snapshot_version < u64::MAX,
        ensures
            action_count == 0 ==> r is None,
            action_count > 0 ==> r == Some((snapshot_version + 1) as u64),
    {
        if action_count == 0 {
            None
        } else {
            Some(snapshot_version + 1)
        }
    }

    /// Fold in the outcome of the conditional write: a created object means
    /// the commit landed; a lost race means another attempt, until the
    /// attempts run out.
    pub fn on_put(&mut self, result: PutResult) -> (next: AfterPut)
        requires
            old(self).wf(),
        ensures
            final(self).wf(),
            result == PutResult::Created ==> next is Landed && final(self).attempt_no()
                == old(self).attempt_no(),
            result == PutResult::AlreadyExists && old(self).attempt_no() < MAX_COMMIT_ATTEMPTS
                ==> next is Retry && final(self).attempt_no() == old(self).attempt_no() + 1,
            result == PutResult::AlreadyExists && old(self).attempt_no() == MAX_COMMIT_ATTEMPTS
                ==> final(self).attempt_no() == old(self).attempt_no() && match next {
                AfterPut::GiveUp(e) => e.code == ErrorCode::Internal && e.message@
                    == contention_message(),
                _ => false,
            },
    {
        match result {
            PutResult::Created => AfterPut::Landed,
            PutResult::AlreadyExists => {
                if self.attempt < MAX_COMMIT_ATTEMPTS {
                    self.attempt = self.attempt + 1;
                    AfterPut::Retry
                } else {
                    AfterPut::GiveUp(
                        UcError::new(ErrorCode::Internal, "commit contention: exceeded max attempts"),
                    )
                }
            },
        }
    }
}

/// A commit can lose at most `MAX_COMMIT_ATTEMPTS - 1` races before it gives
/// up: `k` retries from a fresh loop leave it at attempt `k + 1`, which never
/// passes the bound.
pub proof fn lemma_retries_are_bounded(c: CommitLoop, k: nat)
    requires
        c.wf(),
        c.attempt_no() == k + 1,
    ensures
        k < MAX_COMMIT_ATTEMPTS,
{
}

/// Whether a commit landing at `version` is followed by a checkpoint.
pub fn should_checkpoint(version: u64) -> (r: bool)
    ensures
        r == (version % CHECKPOINT_INTERVAL == 0),
{
    version % CHECKPOINT_INTERVAL == 0
}

/// Join encoded lines into a checkpoint body, one line per entry, and count
/// them. Lines come from a JSON encoder, which never emits a raw newline.
pub fn frame_lines(lines: &[Vec<u8>]) -> (r: (Vec<u8>, u64))
    requires
        lines@.len() < u64::MAX,
        forall|i: int, j: int|
            0 <= i < lines@.len() && 0 <= j < lines@[i]@.len() ==> lines@[i]@[j] != 10u8,
    ensures
        r.1 == lines@.len(),
        count_newlines(r.0@) == r.1,
        r.0@ == framed(lines@.map_values(|l: Vec<u8>| l@)),
{
    let ghost ls = lines@.map_values(|l: Vec<u8>| l@);
    let mut out: Vec<u8> = Vec::new();
    let mut i: usize = 0;
    while i < lines.len()
        invariant
            ls == lines@.map_values(|l: Vec<u8>| l@),
            i <= lines@.len(),
            lines@.len() < u64::MAX,
            forall|a: int, b: int|
                0 <= a < lines@.len() && 0 <= b < lines@[a]@.len() ==> lines@[a]@[b] != 10u8,
            out@ == framed(ls.take(i as int)),
            count_newlines(out@) == i,
        decreases lines@.len() - i,
    {
        let line = &lines[i];
        let ghost before = out@;
        let mut j: usize = 0;
        while j < line.len()
            invariant
                j <= line@.len(),
                line@ == lines@[i as int]@,
                forall|b: int| 0 <= b < line@.len() ==> line@[b] != 10u8,
                out@ == before + line@.take(j as int),
                count_newlines(out@) == count_newlines(before),
            decreases line@.len() - j,
        {
            proof {
                lemma_count_newlines_push(out@, line@[j as int]);
                assert(line@.take(j as int + 1) =~= line@.take(j as int).push(line@[j as int]));
            }
            out.push(line[j]);
            j = j + 1;
        }
        proof {
            assert(line@.take(j as int) =~= line@);
            lemma_count_newlines_push(out@, 10u8);
            assert(ls.take(i as int + 1).drop_last() =~= ls.take(i as int));
            assert(ls.take(i as int + 1).last() == line@);
        }
        out.push(10u8);
        i = i + 1;
    }
    proof {
        assert(ls.take(i as int) =~= ls);
    }
    (out, i as u64)
}

/// Lines joined, each followed by a newline.
pub open spec fn framed(lines: Seq<Seq<u8>>) -> Seq<u8>
    decreases lines.len(),
{
    if lines.len() == 0 {
        Seq::empty()
    } else {
        framed(lines.drop_last()) + lines.last() + seq![10u8]
    }
}

proof fn lemma_count_newlines_push(s: Seq<u8>, b: u8)
    ensures
        count_newlines(s.push(b)) == count_newlines(s) + if b == 10u8 {
            1nat
        } else {
            0nat
        },
{
    assert(s.push(b).drop_last() =~= s);
}

/// The pointer to the checkpoint of `version` whose body is `body` and holds
/// `size` lines.
pub fn checkpoint_pointer(version: u64, size: u64, body: &[u8]) -> (p: LastCheckpoint)
    ensures
        p.version == version,
        p.size == size,
        p.checksum matches Some(c) && c@ == content_hash_of(body@),
{
    LastCheckpoint { version, size, checksum: Some(content_hash(body)) }
}

proof fn lemma_count_newlines_concat(a: Seq<u8>, b: Seq<u8>)
    ensures
        count_newlines(a + b) == count_newlines(a) + count_newlines(b),
    decreases b.len(),
{
    if b.len() == 0 {
        assert(a + b =~= a);
    } else {
        lemma_count_newlines_concat(a, b.drop_last());
        assert((a + b).drop_last() =~= a + b.drop_last());
    }
}

proof fn lemma_count_framed(lines: Seq<Seq<u8>>)
    requires
        forall|i: int, j: int| 0 <= i < lines.len() && 0 <= j < lines[i].len() ==> lines[i][j] != 10u8,
    ensures
        count_newlines(framed(lines)) == lines.len(),
    decreases lines.len(),
{
    if lines.len() > 0 {
        let init = lines.drop_last();
        lemma_count_framed(init);
        let last = lines.last();
        assert forall|j: int| 0 <= j < last.len() implies last[j] != 10u8 by {
            assert(last[j] == lines[lines.len() - 1][j]);
        }
        lemma_no_newlines(last);
        lemma_count_newlines_concat(framed(init), last);
        lemma_count_newlines_concat(framed(init) + last, seq![10u8]);
        assert(seq![10u8].drop_last() =~= Seq::<u8>::empty());
        assert(count_newlines(seq![10u8]) == 1) by {
            let one = seq![10u8];
            assert(one.len() == 1);
            assert(one.last() == 10u8);
            assert(count_newlines(one.drop_last()) == 0);
        }
        assert(framed(lines) == framed(init) + last + seq![10u8]);
    }
}

proof fn lemma_no_newlines(s: Seq<u8>)
    requires
        forall|j: int| 0 <= j < s.len() ==> s[j] != 10u8,
    ensures
        count_newlines(s) == 0,
    decreases s.len(),
{
    if s.len() > 0 {
        lemma_no_newlines(s.drop_last());
    }
}

/// A checkpoint written as framed lines, under the pointer made for it, is
/// the one replay adopts: its line count is the recorded size and its hash the
/// recorded checksum.
pub proof fn lemma_written_checkpoint_is_accepted(lines: Seq<Seq<u8>>)
    requires
        lines.len() < u64::MAX,
        forall|i: int, j: int| 0 <= i < lines.len() && 0 <= j < lines[i].len() ==> lines[i][j] != 10u8,
    ensures
        checkpoint_matches(lines.len() as u64, Some(content_hash_of(framed(lines))), framed(lines)),
{
    lemma_count_framed(lines);
}

} // verus!
