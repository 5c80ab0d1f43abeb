//! Key mapping and outcome decisions for an object log kept in S3 or an
//! API-compatible store. The requests themselves are I/O and are made by the
//! caller with the client this holds.

use crate::errors::{ErrorCode, UcError};
use crate::text::{append_chars, chars_of, debug_of, debug_string, has_prefix, slice_from, starts_with, string_of};
use vstd::prelude::*;

verus! {

#[verifier::external_type_specification]
#[verifier::external_body]
pub struct ExS3Client(aws_sdk_s3::Client);

/// `root` made slash-terminated, unless empty.
pub open spec fn slash_root(root: Seq<char>) -> Seq<char> {
    if root.len() == 0 || root.last() == '/' {
        root
    } else {
        root.push('/')
    }
}

/// An object log in one bucket, every key under one root prefix.
pub struct S3Log {
    client: aws_sdk_s3::Client,
    bucket: String,
    root: String,
}

impl S3Log {
    /// The key prefix every object sits under: empty, or ending in a slash.
    pub closed spec fn root_view(self) -> Seq<char> {
        self.root@
    }

    pub closed spec fn bucket_view(self) -> Seq<char> {
        self.bucket@
    }

    /// The client the log was made with.
    pub closed spec fn client_view(self) -> aws_sdk_s3::Client {
        self.client
    }

    /// A log in `bucket` under `root`; an empty root means the bucket
    /// itself, and a root without a trailing slash gets one.
    pub fn new(client: aws_sdk_s3::Client, bucket: &str, root: &str) -> (l: S3Log)
        ensures
            l.root_view() == slash_root(root@),
            l.bucket_view() == bucket@,
            l.client_view() == client,
    {
        let mut r = chars_of(root);
        if r.len() > 0 && r[r.len() - 1] != '/' {
            r.push('/');
        }
        S3Log { client, bucket: bucket.to_string(), root: string_of(r.as_slice()) }
    }

    pub fn client(&self) -> (c: &aws_sdk_s3::Client)
        ensures
            *c == self.client_view(),
    {
        &self.client
    }

    pub fn bucket(&self) -> (b: &str)
        ensures
            b@ == self.bucket_view(),
    {
        self.bucket.as_str()
    }

    /// The physical key of a logical key.
    pub fn full(&self, key: &str) -> (k: String)
        ensures
            k@ == self.root_view() + key@,
    {
        let mut v = chars_of(self.root.as_str());
        append_chars(&mut v, chars_of(key).as_slice());
        string_of(v.as_slice())
    }

    /// The logical key of a physical key, or `None` for a key outside the
    /// root. Listed keys go through this, so versions parse out of them.
    pub fn strip(&self, key: &str) -> (k: Option<String>)
        ensures
            match k {
                Some(s) => starts_with(key@, self.root_view()) && s@ == key@.subrange(
                    self.root_view().len() as int,
                    key@.len() as int,
                ),
                None => !starts_with(key@, self.root_view()),
            },
    {
        let kc = chars_of(key);
        let rc = chars_of(self.root.as_str());
        if has_prefix(kc.as_slice(), rc.as_slice()) {
            Some(string_of(slice_from(kc.as_slice(), rc.len()).as_slice()))
        } else {
            None
        }
    }

    /// The logical keys among a listing's physical keys, in order; keys
    /// outside the root are dropped.
    pub fn strip_all(&self, keys: &[String]) -> (r: Vec<String>)
        ensures
            r@.map_values(|s: String| s@) == stripped(keys@.map_values(|s: String| s@), self.root_view()),
    {
        let ghost ks = keys@.map_values(|s: String| s@);
        let mut out: Vec<String> = Vec::new();
        let mut i: usize = 0;
        while i < keys.len()
            invariant
                ks == keys@.map_values(|s: String| s@),
                i <= keys@.len(),
                out@.map_values(|s: String| s@) == stripped(ks.take(i as int), self.root_view()),
            decreases keys@.len() - i,
        {
            proof {
                assert(ks.take(i as int + 1).drop_last() =~= ks.take(i as int));
                assert(ks.take(i as int + 1).last() == keys@[i as int]@);
            }
            let ghost before = out@;
            match self.strip(keys[i].as_str()) {
                Some(s) => {
                    out.push(s);
                    proof {
                        assert(out@.map_values(|s: String| s@) =~= before.map_values(|s: String| s@).push(out@.last()@));
                    }
                },
                None => {},
            }
            i = i + 1;
        }
        assert(ks.take(i as int) =~= ks);
        out
    }
}

/// The logical forms of the keys under `root`, in order.
pub open spec fn stripped(keys: Seq<Seq<char>>, root: Seq<char>) -> Seq<Seq<char>>
    decreases keys.len(),
{
    if keys.len() == 0 {
        Seq::empty()
    } else {
        let init = stripped(keys.drop_last(), root);
        if starts_with(keys.last(), root) {
            init.push(keys.last().subrange(root.len() as int, keys.last().len() as int))
        } else {
            init
        }
    }
}

/// Whether a failed conditional write lost a race: 412 Precondition Failed,
/// or 409 Conflict when concurrent conditional writes collide. Anything else
/// is a real error, never contention.
pub fn lost_race(status: u16) -> (r: bool)
    ensures
        r == (status == 412 || status == 409),
{
    status == 412 || status == 409
}

/// Whether a failed read means the object is absent: the service said no
/// such key, or answered 404.
pub fn object_absent(no_such_key: bool, status: u16) -> (r: bool)
    ensures
        r == (no_such_key || status == 404),
{
    no_such_key || status == 404
}

/// An internal error `{context}: {detail}`.
pub fn s3_err(context: &str, detail: &str) -> (e: UcError)
    ensures
        e.code == ErrorCode::Internal,
        e.message@ == context@ + ": "@ + detail@,
{
    let mut m = chars_of(context);
    append_chars(&mut m, chars_of(": ").as_slice());
    append_chars(&mut m, chars_of(detail).as_slice());
    UcError::with_message(ErrorCode::Internal, string_of(m.as_slice()))
}

/// The bucket and key prefix of a storage root `s3://bucket[/prefix]`.
pub open spec fn storage_root_parts(root: Seq<char>) -> Option<(Seq<char>, Seq<char>)> {
    if !starts_with(root, "s3://"@) {
        None
    } else {
        let rest = root.subrange(5, root.len() as int);
        if exists|i: int| 0 <= i < rest.len() && rest[i] == '/' {
            let i = first_slash(rest);
            Some((rest.subrange(0, i), rest.subrange(i + 1, rest.len() as int)))
        } else {
            Some((rest, Seq::empty()))
        }
    }
}

/// The position of the first slash in `s`.
pub open spec fn first_slash(s: Seq<char>) -> int {
    choose|i: int| 0 <= i < s.len() && s[i] == '/' && forall|j: int| 0 <= j < i ==> s[j] != '/'
}

/// Split a storage root `s3://bucket[/prefix]` into bucket and prefix. A
/// root of another scheme, or with no bucket, is refused with a message
/// quoting it.
pub fn parse_storage_root(root: &str) -> (r: Result<(String, String), String>)
    ensures
        match r {
            Ok((b, p)) => storage_root_parts(root@) == Some((b@, p@)) && b@.len() > 0,
            Err(m) => {
                ||| storage_root_parts(root@) is None && m@ == "--storage-root must be s3://bucket[/prefix], got "@
                    + debug_of(root@)
                ||| storage_root_parts(root@) matches Some(parts) && parts.0.len() == 0 && m@
                    == "--storage-root has no bucket: "@ + debug_of(root@)
            },
        },
{
    let c = chars_of(root);
    let scheme = chars_of("s3://");
    proof {
        reveal_strlit("s3://");
    }
    if !has_prefix(c.as_slice(), scheme.as_slice()) {
        let mut m = chars_of("--storage-root must be s3://bucket[/prefix], got ");
        append_chars(&mut m, chars_of(debug_string(root).as_str()).as_slice());
        return Err(string_of(m.as_slice()));
    }
    let rest = slice_from(c.as_slice(), 5);
    let mut i: usize = 0;
    while i < rest.len() && rest[i] != '/'
        invariant
            i <= rest@.len(),
            forall|j: int| 0 <= j < i ==> rest@[j] != '/',
        decreases rest@.len() - i,
    {
        i = i + 1;
    }
    let (bucket, prefix) = if i < rest.len() {
        proof {
            let f = first_slash(rest@);
            assert(0 <= i < rest@.len() && rest@[i as int] == '/' && forall|j: int| 0 <= j < i ==> rest@[j] != '/');
            if f < i {
                assert(rest@[f] == '/');
            } else if f > i {
                assert(rest@[i as int] != '/');
            }
        }
        (
            string_of(crate::text::slice_to(rest.as_slice(), i).as_slice()),
            string_of(slice_from(rest.as_slice(), i + 1).as_slice()),
        )
    } else {
        assert(rest@.subrange(0, rest@.len() as int) =~= rest@);
        (string_of(rest.as_slice()), String::new())
    };
    if bucket.unicode_len() == 0 {
        let mut m = chars_of("--storage-root has no bucket: ");
        append_chars(&mut m, chars_of(debug_string(root).as_str()).as_slice());
        return Err(string_of(m.as_slice()));
    }
    Ok((bucket, prefix))
}

} // verus!
