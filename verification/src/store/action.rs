//! The log record format: entity kinds, actions, commits, and object keys.

use crate::errors::{ErrorCode, UcError};
use crate::store::row::Row;
use crate::text::{
    all_digits, append_chars, chars_of, decimal_chars, decimal_of, decimal_value, digit_char, ends_with, fixed_decimal,
    fixed_decimal_chars, has_prefix, has_suffix, is_digit, lemma_fixed_decimal_order, lemma_lex_common_prefix,
    lemma_lex_common_suffix, lex_lt, parse_u64, parse_u64_of, slice_to, starts_with, string_of,
};
use vstd::prelude::*;

verus! {

/// Every kind of stored entity.
#[derive(Debug, Clone, Copy, PartialEq, Eq, Hash, Structural)]
pub enum EntityKind {
    Metastore,
    Catalog,
    Schema,
    Table,
    Column,
    Volume,
    Function,
    FunctionParameter,
    RegisteredModel,
    ModelVersion,
    StagingTable,
    DeltaCommit,
    User,
    Credential,
    ExternalLocation,
    Property,
    Dependency,
    CasbinRule,
}

/// The position of a kind in declaration order, which is the order kinds are
/// sorted in.
pub open spec fn kind_rank(k: EntityKind) -> u8 {
    match k {
        EntityKind::Metastore => 0,
        EntityKind::Catalog => 1,
        EntityKind::Schema => 2,
        EntityKind::Table => 3,
        EntityKind::Column => 4,
        EntityKind::Volume => 5,
        EntityKind::Function => 6,
        EntityKind::FunctionParameter => 7,
        EntityKind::RegisteredModel => 8,
        EntityKind::ModelVersion => 9,
        EntityKind::StagingTable => 10,
        EntityKind::DeltaCommit => 11,
        EntityKind::User => 12,
        EntityKind::Credential => 13,
        EntityKind::ExternalLocation => 14,
        EntityKind::Property => 15,
        EntityKind::Dependency => 16,
        EntityKind::CasbinRule => 17,
    }
}

impl EntityKind {
    pub fn rank(&self) -> (r: u8)
        ensures
            r == kind_rank(*self),
    {
        match self {
            EntityKind::Metastore => 0,
            EntityKind::Catalog => 1,
            EntityKind::Schema => 2,
            EntityKind::Table => 3,
            EntityKind::Column => 4,
            EntityKind::Volume => 5,
            EntityKind::Function => 6,
            EntityKind::FunctionParameter => 7,
            EntityKind::RegisteredModel => 8,
            EntityKind::ModelVersion => 9,
            EntityKind::StagingTable => 10,
            EntityKind::DeltaCommit => 11,
            EntityKind::User => 12,
            EntityKind::Credential => 13,
            EntityKind::ExternalLocation => 14,
            EntityKind::Property => 15,
            EntityKind::Dependency => 16,
            EntityKind::CasbinRule => 17,
        }
    }
}

/// The name of a kind, as its `Debug` rendering shows it.
pub open spec fn kind_name(k: EntityKind) -> Seq<char> {
    match k {
        EntityKind::Metastore => "Metastore"@,
        EntityKind::Catalog => "Catalog"@,
        EntityKind::Schema => "Schema"@,
        EntityKind::Table => "Table"@,
        EntityKind::Column => "Column"@,
        EntityKind::Volume => "Volume"@,
        EntityKind::Function => "Function"@,
        EntityKind::FunctionParameter => "FunctionParameter"@,
        EntityKind::RegisteredModel => "RegisteredModel"@,
        EntityKind::ModelVersion => "ModelVersion"@,
        EntityKind::StagingTable => "StagingTable"@,
        EntityKind::DeltaCommit => "DeltaCommit"@,
        EntityKind::User => "User"@,
        EntityKind::Credential => "Credential"@,
        EntityKind::ExternalLocation => "ExternalLocation"@,
        EntityKind::Property => "Property"@,
        EntityKind::Dependency => "Dependency"@,
        EntityKind::CasbinRule => "CasbinRule"@,
    }
}

impl EntityKind {
    pub fn name(&self) -> (s: &'static str)
        ensures
            s@ == kind_name(*self),
    {
        match self {
            EntityKind::Metastore => "Metastore",
            EntityKind::Catalog => "Catalog",
            EntityKind::Schema => "Schema",
            EntityKind::Table => "Table",
            EntityKind::Column => "Column",
            EntityKind::Volume => "Volume",
            EntityKind::Function => "Function",
            EntityKind::FunctionParameter => "FunctionParameter",
            EntityKind::RegisteredModel => "RegisteredModel",
            EntityKind::ModelVersion => "ModelVersion",
            EntityKind::StagingTable => "StagingTable",
            EntityKind::DeltaCommit => "DeltaCommit",
            EntityKind::User => "User",
            EntityKind::Credential => "Credential",
            EntityKind::ExternalLocation => "ExternalLocation",
            EntityKind::Property => "Property",
            EntityKind::Dependency => "Dependency",
            EntityKind::CasbinRule => "CasbinRule",
        }
    }
}

/// Distinct kinds have distinct ranks.
pub proof fn lemma_kind_rank_injective(a: EntityKind, b: EntityKind)
    ensures
        kind_rank(a) == kind_rank(b) <==> a == b,
{
}

/// One change to the store. Updates are whole-row replacements.
#[derive(Debug)]
pub enum Action {
    /// Insert or replace the entity `id` of `kind` with `body`.
    Upsert { kind: EntityKind, id: u128, body: Row },
    /// Drop the entity `id` of `kind`, if present.
    Remove { kind: EntityKind, id: u128 },
}

/// One commit: a header and the actions applied atomically.
#[derive(Debug)]
pub struct Commit {
    /// Log format version.
    pub format: u32,
    /// Wall-clock milliseconds; diagnostics only.
    pub timestamp: i64,
    /// Who made the change, if known.
    pub actor: Option<String>,
    pub actions: Vec<Action>,
}

pub const FORMAT_VERSION: u32 = 1;

/// The message a commit in an unknown format is refused with.
pub open spec fn format_message(key: Seq<char>, format: u32) -> Seq<char> {
    key + ": unsupported log format "@ + decimal_of(format as nat)
}

/// Replay accepts only commits in the format this build writes: one it does
/// not understand is refused rather than guessed at.
pub fn check_format(key: &str, format: u32) -> (r: Result<(), UcError>)
    ensures
        match r {
            Ok(_) => format == FORMAT_VERSION,
            Err(e) => format != FORMAT_VERSION && e.code == ErrorCode::Internal && e.message@ == format_message(
                key@,
                format,
            ),
        },
{
    if format == FORMAT_VERSION {
        return Ok(());
    }
    let mut m = chars_of(key);
    append_chars(&mut m, chars_of(": unsupported log format ").as_slice());
    append_chars(&mut m, decimal_chars(format as u128).as_slice());
    let e = UcError::with_message(ErrorCode::Internal, string_of(m.as_slice()));
    assert(e.message@ =~= format_message(key@, format));
    Err(e)
}

pub const LAST_CHECKPOINT_KEY: &'static str = "_uc_log/_last_checkpoint";

pub const KEYS_KEY: &'static str = "_uc_log/_keys.json";

/// The key of commit `version`: twenty zero-padded digits, so that listing
/// order is version order.
pub open spec fn commit_key_of(version: u64) -> Seq<char> {
    "_uc_log/"@ + fixed_decimal(version as nat, 20) + ".json"@
}

/// The key of the checkpoint taken at `version`.
pub open spec fn checkpoint_key_of(version: u64) -> Seq<char> {
    "_uc_log/"@ + fixed_decimal(version as nat, 20) + ".checkpoint.json"@
}

pub fn commit_key(version: u64) -> (k: String)
    ensures
        k@ == commit_key_of(version),
{
    let mut v = chars_of("_uc_log/");
    append_chars(&mut v, fixed_decimal_chars(version, 20).as_slice());
    append_chars(&mut v, chars_of(".json").as_slice());
    string_of(v.as_slice())
}

pub fn checkpoint_key(version: u64) -> (k: String)
    ensures
        k@ == checkpoint_key_of(version),
{
    let mut v = chars_of("_uc_log/");
    append_chars(&mut v, fixed_decimal_chars(version, 20).as_slice());
    append_chars(&mut v, chars_of(".checkpoint.json").as_slice());
    string_of(v.as_slice())
}

/// What follows the last `/` of `s` (all of `s` when it has none).
pub open spec fn last_segment(s: Seq<char>) -> Seq<char>
    decreases s.len(),
{
    if s.len() == 0 {
        s
    } else if s.last() == '/' {
        Seq::empty()
    } else {
        last_segment(s.drop_last()).push(s.last())
    }
}

pub(crate) proof fn lemma_last_segment_from(s: Seq<char>, i: int)
    requires
        0 <= i <= s.len(),
        i == 0 || s[i - 1] == '/',
        forall|j: int| i <= j < s.len() ==> s[j] != '/',
    ensures
        last_segment(s) == s.subrange(i, s.len() as int),
    decreases s.len() - i,
{
    if s.len() == i {
        if i > 0 {
            assert(s.last() == '/');
        }
        assert(s.subrange(i, s.len() as int) =~= Seq::<char>::empty());
    } else {
        lemma_last_segment_from(s.drop_last(), i);
        assert(s.subrange(i, s.len() as int) =~= s.drop_last().subrange(i, s.len() - 1).push(s.last()));
    }
}

/// The text after the last `/`.
pub fn last_segment_of(s: &[char]) -> (r: Vec<char>)
    ensures
        r@ == last_segment(s@),
{
    let mut i: usize = s.len();
    while i > 0 && s[i - 1] != '/'
        invariant
            i <= s@.len(),
            forall|j: int| i <= j < s@.len() ==> s@[j] != '/',
        decreases i,
    {
        i = i - 1;
    }
    proof {
        lemma_last_segment_from(s@, i as int);
    }
    crate::text::slice_from(s, i)
}

/// The commit version a key names. A commit key is exactly the log prefix
/// followed by one `<digits>.json` name; anything else (checkpoints, the
/// checkpoint pointer, key files, the per-table Delta partitions below the
/// prefix, or a key still carrying a root before the prefix) names no
/// version.
pub open spec fn version_from_key_of(key: Seq<char>) -> Option<u64> {
    if key.len() >= 13 && starts_with(key, "_uc_log/"@) && ends_with(key, ".json"@) {
        parse_u64_of(key.subrange(8, key.len() - 5))
    } else {
        None
    }
}

pub fn version_from_key(key: &str) -> (r: Option<u64>)
    ensures
        r == version_from_key_of(key@),
{
    let k = chars_of(key);
    proof {
        reveal_strlit("_uc_log/");
        reveal_strlit(".json");
    }
    if k.len() < 13 || !has_prefix(k.as_slice(), chars_of("_uc_log/").as_slice()) || !has_suffix(
        k.as_slice(),
        chars_of(".json").as_slice(),
    ) {
        return None;
    }
    let rest = crate::text::slice_from(k.as_slice(), 8);
    let stem = slice_to(rest.as_slice(), k.len() - 13);
    assert(stem@ =~= key@.subrange(8, key@.len() - 5));
    parse_u64(stem.as_slice())
}

/// The digits of a fixed-width rendering are digits, and read back as the
/// value modulo the width.
pub proof fn lemma_fixed_decimal_reads_back(n: nat, w: nat)
    ensures
        fixed_decimal(n, w).len() == w,
        all_digits(fixed_decimal(n, w)),
        w > 0 ==> is_digit(fixed_decimal(n, w)[0]),
        decimal_value(fixed_decimal(n, w)) == (n as int) % vstd::arithmetic::power::pow(10, w),
    decreases w,
{
    vstd::arithmetic::power::lemma_pow_positive(10, w);
    if w == 0 {
        vstd::arithmetic::power::lemma_pow0(10);
    }
    if w > 0 {
        lemma_fixed_decimal_reads_back(n / 10, (w - 1) as nat);
        let s = fixed_decimal(n, w);
        let p = vstd::arithmetic::power::pow(10, (w - 1) as nat);
        vstd::arithmetic::power::lemma_pow_positive(10, (w - 1) as nat);
        assert(s.drop_last() =~= fixed_decimal(n / 10, (w - 1) as nat));
        assert((s.last() as u32) - 48 == n % 10);
        assert(vstd::arithmetic::power::pow(10, w) == 10 * p) by {
            vstd::arithmetic::power::lemma_pow_adds(10, 1, (w - 1) as nat);
            vstd::arithmetic::power::lemma_pow1(10);
        }
        assert((((n / 10) as int) % p) * 10 + (n as int) % 10 == (n as int) % (10 * p)) by {
            vstd::arithmetic::div_mod::lemma_breakdown(n as int, 10, p);
            vstd::arithmetic::div_mod::lemma_fundamental_div_mod(n as int, 10);
            vstd::arithmetic::div_mod::lemma_mod_pos_bound(n as int, 10);
        }
        assert forall|i: int| 0 <= i < s.len() implies is_digit(#[trigger] s[i]) by {
            if i < s.len() - 1 {
                assert(s[i] == fixed_decimal(n / 10, (w - 1) as nat)[i]);
            }
        }
        if w > 1 {
            assert(s[0] == fixed_decimal(n / 10, (w - 1) as nat)[0]);
        }
    }
}

/// A commit key reads back as its version.
pub proof fn lemma_commit_key_reads_back(version: u64)
    ensures
        version_from_key_of(commit_key_of(version)) == Some(version),
{
    let d = fixed_decimal(version as nat, 20);
    lemma_fixed_decimal_reads_back(version as nat, 20);
    reveal_strlit("_uc_log/");
    reveal_strlit(".json");
    let k = commit_key_of(version);
    assert(k.subrange(0, 8) =~= "_uc_log/"@);
    assert(k.subrange(k.len() - 5, k.len() as int) =~= ".json"@);
    assert(k.subrange(8, k.len() - 5) =~= d);
    assert(d[0] != '+') by {
        assert(is_digit(d[0]));
    }
    assert(vstd::arithmetic::power::pow(10, 20) == 100000000000000000000int) by {
        reveal_with_fuel(vstd::arithmetic::power::pow, 21);
    }
    vstd::arithmetic::div_mod::lemma_small_mod(version as nat, 100000000000000000000nat);
    assert(decimal_value(d) == version);
    assert(parse_u64_of(d) == Some(version));
}

/// A checkpoint key names no commit version.
pub proof fn lemma_checkpoint_key_is_not_a_commit(version: u64)
    ensures
        version_from_key_of(checkpoint_key_of(version)) is None,
{
    let d = fixed_decimal(version as nat, 20);
    lemma_fixed_decimal_reads_back(version as nat, 20);
    reveal_strlit("_uc_log/");
    reveal_strlit(".json");
    reveal_strlit(".checkpoint.json");
    let k = checkpoint_key_of(version);
    let stem = k.subrange(8, k.len() - 5);
    assert(k.len() == 44);
    assert(k[8] == d[0]);
    assert(is_digit(d[0]));
    assert(k[28] == '.');
    assert(stem[0] == k[8]);
    assert(stem[20] == k[28]);
    assert(!is_digit(stem[20]));
    assert(!all_digits(stem));
}

/// A key with a `/` anywhere after the log prefix is nested below it, and
/// names no commit version: the per-table Delta partitions live there.
pub proof fn lemma_nested_key_is_not_a_commit(key: Seq<char>, i: int)
    requires
        8 <= i < key.len(),
        key[i] == '/',
    ensures
        version_from_key_of(key) is None,
{
    reveal_strlit("_uc_log/");
    reveal_strlit(".json");
    if key.len() >= 13 && starts_with(key, "_uc_log/"@) && ends_with(key, ".json"@) {
        let stem = key.subrange(8, key.len() - 5);
        if i >= key.len() - 5 {
            assert(key[i] == key.subrange(key.len() - 5, key.len() as int)[i - (key.len() - 5)]);
            assert(".json"@[i - (key.len() - 5)] != '/');
        } else {
            assert(stem[i - 8] == '/');
            assert(!is_digit(stem[i - 8]));
            if stem[0] == '+' {
                assert(i - 8 > 0);
                assert(stem.drop_first()[i - 9] == '/');
            }
        }
    }
}

/// Commit keys list in version order: one key sorts before another exactly
/// when its version is smaller, which is what lets replay read commits in
/// listing order.
pub proof fn lemma_commit_keys_order_numerically(a: u64, b: u64)
    ensures
        lex_lt(commit_key_of(a), commit_key_of(b)) <==> a < b,
{
    assert(vstd::arithmetic::power::pow(10, 20) == 100000000000000000000int) by {
        reveal_with_fuel(vstd::arithmetic::power::pow, 21);
    }
    lemma_fixed_decimal_order(a as nat, b as nat, 20);
    lemma_fixed_decimal_reads_back(a as nat, 20);
    lemma_fixed_decimal_reads_back(b as nat, 20);
    let x = fixed_decimal(a as nat, 20);
    let y = fixed_decimal(b as nat, 20);
    let p = "_uc_log/"@;
    let t = ".json"@;
    lemma_lex_common_suffix(x, y, t);
    lemma_lex_common_prefix(p, x + t, y + t);
    assert(commit_key_of(a) =~= p + (x + t));
    assert(commit_key_of(b) =~= p + (y + t));
}

} // verus!
