//! The log-structured store: record format, in-memory snapshot, and the
//! decisions of the commit and replay protocols.

pub mod action;
pub mod actor;
pub mod commit;
pub mod delta_log;
pub mod log;
pub mod memory;
pub mod row;
pub mod s3;
pub mod sorted;

use crate::store::action::{kind_rank, lemma_kind_rank_injective, Action, EntityKind};
use crate::store::row::{natural_key_chars, natural_key_of, row_kind, Row};
use crate::store::sorted::{
    keyed_map, lemma_keyed_map_at, lemma_keyed_map_insert, lemma_keyed_map_remove,
    lemma_keyed_map_update, lemma_sorted_unique, sorted_by, strict_order,
};
use crate::errors::{ErrorCode, UcError};
use crate::ids::{uuid_string, uuid_text};
use crate::store::action::kind_name;
use crate::text::{
    append_chars, chars_of, decimal_chars, decimal_of, string_of, has_prefix, lemma_lex_asymmetric, lemma_lex_irreflexive, lemma_lex_total,
    lemma_lex_transitive, lex_compare, lex_lt, slice_from, starts_with, KeyOrder,
};
use vstd::prelude::*;

verus! {

/// Row order: by kind, then by id.
pub open spec fn row_lt(a: (EntityKind, u128), b: (EntityKind, u128)) -> bool {
    kind_rank(a.0) < kind_rank(b.0) || (kind_rank(a.0) == kind_rank(b.0) && a.1 < b.1)
}

/// Natural-key order: by kind, then lexicographically by key.
pub open spec fn key_lt(a: (EntityKind, Seq<char>), b: (EntityKind, Seq<char>)) -> bool {
    kind_rank(a.0) < kind_rank(b.0) || (kind_rank(a.0) == kind_rank(b.0) && lex_lt(a.1, b.1))
}

pub open spec fn row_order() -> spec_fn((EntityKind, u128), (EntityKind, u128)) -> bool {
    |a: (EntityKind, u128), b: (EntityKind, u128)| row_lt(a, b)
}

pub open spec fn key_order() -> spec_fn((EntityKind, Seq<char>), (EntityKind, Seq<char>)) -> bool {
    |a: (EntityKind, Seq<char>), b: (EntityKind, Seq<char>)| key_lt(a, b)
}

pub proof fn lemma_row_order_is_strict()
    ensures
        strict_order(row_order()),
{
}

pub proof fn lemma_key_order_is_strict()
    ensures
        strict_order(key_order()),
{
    assert forall|a: (EntityKind, Seq<char>)| !(#[trigger] key_order()(a, a)) by {
        lemma_lex_irreflexive(a.1);
    }
    assert forall|a: (EntityKind, Seq<char>), b: (EntityKind, Seq<char>), c: (EntityKind, Seq<char>)|
        #[trigger] key_order()(a, b) && #[trigger] key_order()(b, c) implies key_order()(a, c) by {
        if kind_rank(a.0) == kind_rank(b.0) && kind_rank(b.0) == kind_rank(c.0) {
            lemma_lex_transitive(a.1, b.1, c.1);
        }
    }
}

/// Whether an index entry belongs to a scan of `kind` under `prefix`, strictly
/// after `after` (which is compared with the part of the key after the
/// prefix).
pub open spec fn entry_matches(
    e: (EntityKind, Seq<char>, u128),
    kind: EntityKind,
    prefix: Seq<char>,
    after: Option<Seq<char>>,
) -> bool {
    &&& e.0 == kind
    &&& starts_with(e.1, prefix)
    &&& match after {
        None => true,
        Some(a) => lex_lt(a, e.1.subrange(prefix.len() as int, e.1.len() as int)),
    }
}

/// The ids of the matching index entries, in index order.
pub open spec fn select_ids(
    entries: Seq<(EntityKind, Seq<char>, u128)>,
    kind: EntityKind,
    prefix: Seq<char>,
    after: Option<Seq<char>>,
) -> Seq<u128>
    decreases entries.len(),
{
    if entries.len() == 0 {
        Seq::empty()
    } else {
        let init = select_ids(entries.drop_last(), kind, prefix, after);
        if entry_matches(entries.last(), kind, prefix, after) {
            init.push(entries.last().2)
        } else {
            init
        }
    }
}

/// The effect of an action on the rows.
pub open spec fn apply_rows(rows: Map<(EntityKind, u128), Row>, act: Action) -> Map<(EntityKind, u128), Row> {
    match act {
        Action::Upsert { kind, id, body } => rows.insert((kind, id), body),
        Action::Remove { kind, id } => rows.remove((kind, id)),
    }
}

/// The natural-key entry a row held before an action touches it, dropped.
pub open spec fn drop_old_key(
    rows: Map<(EntityKind, u128), Row>,
    index: Map<(EntityKind, Seq<char>), u128>,
    kind: EntityKind,
    id: u128,
) -> Map<(EntityKind, Seq<char>), u128> {
    if rows.contains_key((kind, id)) {
        match natural_key_of(rows[(kind, id)]) {
            Some(k) => index.remove((kind, k)),
            None => index,
        }
    } else {
        index
    }
}

/// The effect of an action on the natural-key index: the touched row's old
/// key is dropped, and an upserted row's new key points at it.
pub open spec fn apply_index(
    rows: Map<(EntityKind, u128), Row>,
    index: Map<(EntityKind, Seq<char>), u128>,
    act: Action,
) -> Map<(EntityKind, Seq<char>), u128> {
    match act {
        Action::Upsert { kind, id, body } => {
            let dropped = drop_old_key(rows, index, kind, id);
            match natural_key_of(body) {
                Some(k) => dropped.insert((kind, k), id),
                None => dropped,
            }
        },
        Action::Remove { kind, id } => drop_old_key(rows, index, kind, id),
    }
}

/// Every index entry names a present row whose natural key is that entry's
/// key.
pub open spec fn index_sound(
    rows: Map<(EntityKind, u128), Row>,
    index: Map<(EntityKind, Seq<char>), u128>,
) -> bool {
    forall|k: (EntityKind, Seq<char>)|
        #[trigger] index.contains_key(k) ==> rows.contains_key((k.0, index[k])) && natural_key_of(
            rows[(k.0, index[k])],
        ) == Some(k.1)
}

/// Every row is stored under its own kind.
pub open spec fn kinds_agree(rows: Map<(EntityKind, u128), Row>) -> bool {
    forall|key: (EntityKind, u128)| #[trigger] rows.contains_key(key) ==> row_kind(rows[key]) == key.0
}

/// An upsert writes a row of the kind it names.
pub open spec fn well_kinded(a: Action) -> bool {
    match a {
        Action::Upsert { kind, id, body } => row_kind(body) == kind,
        Action::Remove { .. } => true,
    }
}

pub open spec fn all_well_kinded(acts: Seq<Action>) -> bool {
    forall|i: int| 0 <= i < acts.len() ==> well_kinded(#[trigger] acts[i])
}

/// Whether every upsert among `acts` writes a row of the kind it names.
pub fn actions_well_kinded(acts: &[Action]) -> (r: bool)
    ensures
        r == all_well_kinded(acts@),
{
    let mut i: usize = 0;
    while i < acts.len()
        invariant
            i <= acts@.len(),
            forall|j: int| 0 <= j < i ==> well_kinded(#[trigger] acts@[j]),
        decreases acts@.len() - i,
    {
        match &acts[i] {
            Action::Upsert { kind, id, body } => {
                if body.kind() != *kind {
                    return false;
                }
            },
            Action::Remove { .. } => {},
        }
        i = i + 1;
    }
    true
}

struct StoredRow {
    kind: EntityKind,
    id: u128,
    row: Row,
}

struct IndexEntry {
    kind: EntityKind,
    key: Vec<char>,
    id: u128,
}

/// The materialised state at a log version: every resident row, and an index
/// from natural key to id that serves ordered, resumable scans.
pub struct Snapshot {
    version: u64,
    rows: Vec<StoredRow>,
    index: Vec<IndexEntry>,
}

impl Snapshot {
    /// The log version this snapshot reflects.
    pub closed spec fn at_version(self) -> u64 {
        self.version
    }

    pub fn version(&self) -> (v: u64)
        ensures
            v == self.at_version(),
    {
        self.version
    }

    pub closed spec fn row_keys(self) -> Seq<(EntityKind, u128)> {
        self.rows@.map_values(|e: StoredRow| (e.kind, e.id))
    }

    pub closed spec fn row_vals(self) -> Seq<Row> {
        self.rows@.map_values(|e: StoredRow| e.row)
    }

    /// The resident rows, by kind and id.
    pub closed spec fn rows(self) -> Map<(EntityKind, u128), Row> {
        keyed_map(self.row_keys(), self.row_vals())
    }

    pub closed spec fn index_keys(self) -> Seq<(EntityKind, Seq<char>)> {
        self.index@.map_values(|e: IndexEntry| (e.kind, e.key@))
    }

    pub closed spec fn index_ids(self) -> Seq<u128> {
        self.index@.map_values(|e: IndexEntry| e.id)
    }

    /// The natural-key index, by kind and key.
    pub closed spec fn index(self) -> Map<(EntityKind, Seq<char>), u128> {
        keyed_map(self.index_keys(), self.index_ids())
    }

    /// The index entries in key order.
    pub closed spec fn index_entries(self) -> Seq<(EntityKind, Seq<char>, u128)> {
        self.index@.map_values(|e: IndexEntry| (e.kind, e.key@, e.id))
    }

    /// Rows and index are sorted, the index never points at a row whose
    /// natural key differs from the entry's, and every row is stored under
    /// its own kind.
    pub closed spec fn wf(self) -> bool {
        &&& self.ordered()
        &&& index_sound(self.rows(), self.index())
        &&& kinds_agree(self.rows())
    }

    closed spec fn ordered(self) -> bool {
        &&& sorted_by(self.row_keys(), row_order())
        &&& sorted_by(self.index_keys(), key_order())
    }

    /// Every row is stored under its own kind.
    pub proof fn lemma_kinds_agree(self)
        requires
            self.wf(),
        ensures
            kinds_agree(self.rows()),
    {
    }

    /// Every index entry names a present row holding that natural key.
    pub proof fn lemma_index_sound(self)
        requires
            self.wf(),
        ensures
            index_sound(self.rows(), self.index()),
    {
    }

    /// The index entries are in strictly increasing natural-key order, kind
    /// first, so what a scan selects from them comes out in key order.
    pub proof fn lemma_index_entries_sorted(self)
        requires
            self.wf(),
        ensures
            forall|i: int, j: int|
                0 <= i < j < self.index_entries().len() ==> key_lt(
                    ((#[trigger] self.index_entries()[i]).0, self.index_entries()[i].1),
                    ((#[trigger] self.index_entries()[j]).0, self.index_entries()[j].1),
                ),
    {
        assert forall|i: int, j: int| 0 <= i < j < self.index_entries().len() implies key_lt(
            ((#[trigger] self.index_entries()[i]).0, self.index_entries()[i].1),
            ((#[trigger] self.index_entries()[j]).0, self.index_entries()[j].1),
        ) by {
            assert(self.index_keys()[i] == (self.index_entries()[i].0, self.index_entries()[i].1));
            assert(self.index_keys()[j] == (self.index_entries()[j].0, self.index_entries()[j].1));
            assert(key_order()(self.index_keys()[i], self.index_keys()[j]));
        }
    }

    /// The index entries, in order, describe the index map.
    pub proof fn lemma_entries_describe_index(self)
        requires
            self.wf(),
        ensures
            forall|i: int|
                0 <= i < self.index_entries().len() ==> self.index().contains_key(
                    ((#[trigger] self.index_entries()[i]).0, self.index_entries()[i].1),
                ) && self.index()[(self.index_entries()[i].0, self.index_entries()[i].1)]
                    == self.index_entries()[i].2,
            forall|k: (EntityKind, Seq<char>)|
                #[trigger] self.index().contains_key(k) ==> exists|i: int|
                    0 <= i < self.index_entries().len() && self.index_entries()[i].0 == k.0
                        && self.index_entries()[i].1 == k.1,
    {
        lemma_key_order_is_strict();
        assert forall|i: int| 0 <= i < self.index_entries().len() implies self.index().contains_key(
            ((#[trigger] self.index_entries()[i]).0, self.index_entries()[i].1),
        ) && self.index()[(self.index_entries()[i].0, self.index_entries()[i].1)]
            == self.index_entries()[i].2 by {
            lemma_keyed_map_at(self.index_keys(), self.index_ids(), key_order(), i);
        }
        assert forall|k: (EntityKind, Seq<char>)| #[trigger] self.index().contains_key(k) implies exists|i: int|
            0 <= i < self.index_entries().len() && self.index_entries()[i].0 == k.0
                && self.index_entries()[i].1 == k.1 by {
            let i = choose|i: int| 0 <= i < self.index_keys().len() && self.index_keys()[i] == k;
            assert(self.index_entries()[i].0 == k.0 && self.index_entries()[i].1 == k.1);
        }
    }

    /// An empty snapshot at version 0.
    pub fn new() -> (s: Snapshot)
        ensures
            s.wf(),
            s.at_version() == 0,
            s.rows() == Map::<(EntityKind, u128), Row>::empty(),
            s.index() == Map::<(EntityKind, Seq<char>), u128>::empty(),
            s.index_entries() == Seq::<(EntityKind, Seq<char>, u128)>::empty(),
    {
        let s = Snapshot { version: 0, rows: Vec::new(), index: Vec::new() };
        assert(s.rows() =~= Map::<(EntityKind, u128), Row>::empty());
        assert(s.index() =~= Map::<(EntityKind, Seq<char>), u128>::empty());
        assert(s.index_entries() =~= Seq::<(EntityKind, Seq<char>, u128)>::empty());
        s
    }

    /// Where `(kind, id)` sits or belongs in the row order, and whether it is
    /// there.
    fn find_row(&self, kind: EntityKind, id: u128) -> (r: (usize, bool))
        requires
            self.ordered(),
        ensures
            r.0 <= self.rows@.len(),
            forall|j: int| 0 <= j < r.0 ==> row_lt(#[trigger] self.row_keys()[j], (kind, id)),
            r.1 ==> r.0 < self.rows@.len() && self.row_keys()[r.0 as int] == (kind, id),
            !r.1 ==> forall|j: int| r.0 <= j < self.rows@.len() ==> row_lt((kind, id), #[trigger] self.row_keys()[j]),
    {
        let rank = kind.rank();
        let mut i: usize = 0;
        while i < self.rows.len()
            invariant
                self.ordered(),
                rank == kind_rank(kind),
                i <= self.rows@.len(),
                forall|j: int| 0 <= j < i ==> row_lt(#[trigger] self.row_keys()[j], (kind, id)),
            decreases self.rows@.len() - i,
        {
            let e = &self.rows[i];
            let er = e.kind.rank();
            if er > rank || (er == rank && e.id >= id) {
                proof {
                    lemma_kind_rank_injective(e.kind, kind);
                    assert forall|j: int| i < j < self.rows@.len() implies row_lt((kind, id), #[trigger] self.row_keys()[j]) by {
                        assert(row_order()(self.row_keys()[i as int], self.row_keys()[j]));
                    }
                }
                return (i, er == rank && e.id == id);
            }
            i = i + 1;
        }
        (i, false)
    }

    /// Where `(kind, key)` sits or belongs in the index order, and whether it
    /// is there.
    fn find_key(&self, kind: EntityKind, key: &[char]) -> (r: (usize, bool))
        requires
            self.ordered(),
        ensures
            r.0 <= self.index@.len(),
            forall|j: int| 0 <= j < r.0 ==> key_lt(#[trigger] self.index_keys()[j], (kind, key@)),
            r.1 ==> r.0 < self.index@.len() && self.index_keys()[r.0 as int] == (kind, key@),
            !r.1 ==> forall|j: int| r.0 <= j < self.index@.len() ==> key_lt((kind, key@), #[trigger] self.index_keys()[j]),
    {
        proof {
            lemma_key_order_is_strict();
        }
        let rank = kind.rank();
        let mut i: usize = 0;
        while i < self.index.len()
            invariant
                self.ordered(),
                strict_order(key_order()),
                rank == kind_rank(kind),
                i <= self.index@.len(),
                forall|j: int| 0 <= j < i ==> key_lt(#[trigger] self.index_keys()[j], (kind, key@)),
            decreases self.index@.len() - i,
        {
            let e = &self.index[i];
            let er = e.kind.rank();
            if er > rank {
                proof {
                    assert forall|j: int| i < j < self.index@.len() implies key_lt((kind, key@), #[trigger] self.index_keys()[j]) by {
                        assert(key_order()(self.index_keys()[i as int], self.index_keys()[j]));
                    }
                }
                return (i, false);
            }
            if er == rank {
                let c = lex_compare(e.key.as_slice(), key);
                match c {
                    KeyOrder::Less => {},
                    _ => {
                        proof {
                            lemma_kind_rank_injective(e.kind, kind);
                            assert forall|j: int| i < j < self.index@.len() implies key_lt((kind, key@), #[trigger] self.index_keys()[j]) by {
                                assert(key_order()(self.index_keys()[i as int], self.index_keys()[j]));
                                if c == KeyOrder::Greater {
                                    assert(key_order()((kind, key@), self.index_keys()[i as int]));
                                }
                            }
                        }
                        return (i, c == KeyOrder::Equal);
                    },
                }
            }
            i = i + 1;
        }
        (i, false)
    }

    /// The row `id` of `kind`, if present.
    pub fn get(&self, kind: EntityKind, id: u128) -> (r: Option<&Row>)
        requires
            self.wf(),
        ensures
            match r {
                Some(x) => self.rows().contains_key((kind, id)) && *x == self.rows()[(kind, id)],
                None => !self.rows().contains_key((kind, id)),
            },
    {
        let (pos, found) = self.find_row(kind, id);
        proof {
            lemma_row_order_is_strict();
        }
        if found {
            proof {
                lemma_keyed_map_at(self.row_keys(), self.row_vals(), row_order(), pos as int);
            }
            Some(&self.rows[pos].row)
        } else {
            proof {
                if self.rows().contains_key((kind, id)) {
                    let j = choose|j: int| 0 <= j < self.row_keys().len() && self.row_keys()[j] == (kind, id);
                    if j < pos {
                        assert(row_lt(self.row_keys()[j], (kind, id)));
                    } else {
                        assert(row_lt((kind, id), self.row_keys()[j]));
                    }
                }
            }
            None
        }
    }

    fn lookup_key(&self, kind: EntityKind, key: &[char]) -> (r: Option<u128>)
        requires
            self.wf(),
        ensures
            match r {
                Some(id) => self.index().contains_key((kind, key@)) && id == self.index()[(kind, key@)],
                None => !self.index().contains_key((kind, key@)),
            },
    {
        let (pos, found) = self.find_key(kind, key);
        proof {
            lemma_key_order_is_strict();
        }
        if found {
            proof {
                lemma_keyed_map_at(self.index_keys(), self.index_ids(), key_order(), pos as int);
            }
            Some(self.index[pos].id)
        } else {
            proof {
                if self.index().contains_key((kind, key@)) {
                    let j = choose|j: int| 0 <= j < self.index_keys().len() && self.index_keys()[j] == (kind, key@);
                    if j < pos {
                        assert(key_order()(self.index_keys()[j], (kind, key@)));
                    } else {
                        assert(key_order()((kind, key@), self.index_keys()[j]));
                    }
                }
            }
            None
        }
    }

    /// The id the natural key `key` of `kind` maps to, if any.
    pub fn id_by_natural_key(&self, kind: EntityKind, key: &str) -> (r: Option<u128>)
        requires
            self.wf(),
        ensures
            match r {
                Some(id) => self.index().contains_key((kind, key@)) && id == self.index()[(kind, key@)],
                None => !self.index().contains_key((kind, key@)),
            },
    {
        let k = chars_of(key);
        self.lookup_key(kind, k.as_slice())
    }

    /// The row the natural key `key` of `kind` maps to, if any. Such a row
    /// always has that natural key.
    pub fn get_by_natural_key(&self, kind: EntityKind, key: &str) -> (r: Option<&Row>)
        requires
            self.wf(),
        ensures
            match r {
                Some(x) => {
                    &&& self.index().contains_key((kind, key@))
                    &&& self.rows().contains_key((kind, self.index()[(kind, key@)]))
                    &&& *x == self.rows()[(kind, self.index()[(kind, key@)])]
                    &&& natural_key_of(*x) == Some(key@)
                },
                None => !self.index().contains_key((kind, key@)),
            },
    {
        match self.id_by_natural_key(kind, key) {
            Some(id) => {
                let r = self.get(kind, id);
                assert(r.is_some());
                r
            },
            None => None,
        }
    }
}

impl Snapshot {
    /// Drop the index entry for `(kind, key)`, if any.
    fn index_remove(&mut self, kind: EntityKind, key: &[char])
        requires
            old(self).ordered(),
        ensures
            final(self).ordered(),
            final(self).version == old(self).version,
            final(self).rows@ == old(self).rows@,
            final(self).index() == old(self).index().remove((kind, key@)),
    {
        let (pos, found) = self.find_key(kind, key);
        proof {
            lemma_key_order_is_strict();
        }
        if found {
            let ghost keys = self.index_keys();
            let ghost ids = self.index_ids();
            proof {
                lemma_keyed_map_remove(keys, ids, key_order(), pos as int);
            }
            self.index.remove(pos);
            assert(self.index_keys() =~= keys.remove(pos as int));
            assert(self.index_ids() =~= ids.remove(pos as int));
        } else {
            assert(!self.index_keys().contains((kind, key@))) by {
                if self.index_keys().contains((kind, key@)) {
                    let j = choose|j: int| 0 <= j < self.index_keys().len() && self.index_keys()[j] == (kind, key@);
                    if j < pos {
                        assert(key_order()(self.index_keys()[j], (kind, key@)));
                    } else {
                        assert(key_order()((kind, key@), self.index_keys()[j]));
                    }
                }
            }
            assert(self.index() =~= self.index().remove((kind, key@)));
        }
    }

    /// Point the index entry `(kind, key)` at `id`.
    fn index_put(&mut self, kind: EntityKind, key: Vec<char>, id: u128)
        requires
            old(self).ordered(),
        ensures
            final(self).ordered(),
            final(self).version == old(self).version,
            final(self).rows@ == old(self).rows@,
            final(self).index() == old(self).index().insert((kind, key@), id),
    {
        let (pos, found) = self.find_key(kind, key.as_slice());
        proof {
            lemma_key_order_is_strict();
        }
        let ghost keys = self.index_keys();
        let ghost ids = self.index_ids();
        let ghost k = key@;
        let e = IndexEntry { kind, key, id };
        if found {
            proof {
                lemma_keyed_map_update(keys, ids, key_order(), pos as int, id);
            }
            self.index.set(pos, e);
            assert(self.index_keys() =~= keys);
            assert(self.index_ids() =~= ids.update(pos as int, id));
        } else {
            proof {
                lemma_keyed_map_insert(keys, ids, key_order(), pos as int, (kind, k), id);
            }
            self.index.insert(pos, e);
            assert(self.index_keys() =~= keys.insert(pos as int, (kind, k)));
            assert(self.index_ids() =~= ids.insert(pos as int, id));
        }
    }

    /// Store `row` as the row `id` of `kind`.
    fn row_put(&mut self, kind: EntityKind, id: u128, row: Row)
        requires
            old(self).ordered(),
        ensures
            final(self).ordered(),
            final(self).version == old(self).version,
            final(self).index@ == old(self).index@,
            final(self).rows() == old(self).rows().insert((kind, id), row),
    {
        let (pos, found) = self.find_row(kind, id);
        proof {
            lemma_row_order_is_strict();
        }
        let ghost keys = self.row_keys();
        let ghost vals = self.row_vals();
        let ghost r = row;
        let e = StoredRow { kind, id, row };
        if found {
            proof {
                lemma_keyed_map_update(keys, vals, row_order(), pos as int, r);
            }
            self.rows.set(pos, e);
            assert(self.row_keys() =~= keys);
            assert(self.row_vals() =~= vals.update(pos as int, r));
        } else {
            proof {
                lemma_keyed_map_insert(keys, vals, row_order(), pos as int, (kind, id), r);
            }
            self.rows.insert(pos, e);
            assert(self.row_keys() =~= keys.insert(pos as int, (kind, id)));
            assert(self.row_vals() =~= vals.insert(pos as int, r));
        }
    }

    /// Apply one action. Deterministic and total: replaying the same actions
    /// from the same state always yields the same state.
    pub fn apply(&mut self, act: &Action)
        requires
            old(self).wf(),
            well_kinded(*act),
        ensures
            final(self).wf(),
            final(self).at_version() == old(self).at_version(),
            final(self).rows() == apply_rows(old(self).rows(), *act),
            final(self).index() == apply_index(old(self).rows(), old(self).index(), *act),
    {
        let ghost rows0 = self.rows();
        let ghost index0 = self.index();
        proof {
            lemma_row_order_is_strict();
        }
        match act {
            Action::Upsert { kind, id, body } => {
                let (pos, found) = self.find_row(*kind, *id);
                if found {
                    proof {
                        lemma_keyed_map_at(self.row_keys(), self.row_vals(), row_order(), pos as int);
                    }
                    let old_key = natural_key_chars(&self.rows[pos].row);
                    match old_key {
                        Some(k) => self.index_remove(*kind, k.as_slice()),
                        None => {},
                    }
                } else {
                    proof {
                        if rows0.contains_key((*kind, *id)) {
                            let j = choose|j: int| 0 <= j < self.row_keys().len() && self.row_keys()[j] == (*kind, *id);
                            if j < pos {
                                assert(row_order()(self.row_keys()[j], (*kind, *id)));
                            } else {
                                assert(row_order()((*kind, *id), self.row_keys()[j]));
                            }
                        }
                    }
                }
                assert(self.index() == drop_old_key(rows0, index0, *kind, *id));
                match natural_key_chars(body) {
                    Some(k) => self.index_put(*kind, k, *id),
                    None => {},
                }
                self.row_put(*kind, *id, body.clone());
                proof {
                    let rows1 = self.rows();
                    let idx1 = self.index();
                    assert forall|k: (EntityKind, Seq<char>)| #[trigger] idx1.contains_key(k) implies rows1.contains_key(
                        (k.0, idx1[k]),
                    ) && natural_key_of(rows1[(k.0, idx1[k])]) == Some(k.1) by {
                        if natural_key_of(*body) == Some(k.1) && k.0 == *kind {
                        } else {
                            assert(index0.contains_key(k));
                            if (k.0, idx1[k]) == (*kind, *id) {
                                assert(natural_key_of(rows0[(*kind, *id)]) == Some(k.1));
                            }
                        }
                    }
                }
            },
            Action::Remove { kind, id } => {
                let (pos, found) = self.find_row(*kind, *id);
                if found {
                    proof {
                        lemma_keyed_map_at(self.row_keys(), self.row_vals(), row_order(), pos as int);
                    }
                    let old_key = natural_key_chars(&self.rows[pos].row);
                    let ghost keys = self.row_keys();
                    let ghost vals = self.row_vals();
                    proof {
                        lemma_keyed_map_remove(keys, vals, row_order(), pos as int);
                    }
                    self.rows.remove(pos);
                    assert(self.row_keys() =~= keys.remove(pos as int));
                    assert(self.row_vals() =~= vals.remove(pos as int));
                    match old_key {
                        Some(k) => self.index_remove(*kind, k.as_slice()),
                        None => {},
                    }
                    proof {
                        let rows1 = self.rows();
                        let idx1 = self.index();
                        assert forall|k: (EntityKind, Seq<char>)| #[trigger] idx1.contains_key(k) implies rows1.contains_key(
                            (k.0, idx1[k]),
                        ) && natural_key_of(rows1[(k.0, idx1[k])]) == Some(k.1) by {
                            assert(index0.contains_key(k));
                            if (k.0, idx1[k]) == (*kind, *id) {
                                assert(natural_key_of(rows0[(*kind, *id)]) == Some(k.1));
                            }
                        }
                    }
                } else {
                    proof {
                        if rows0.contains_key((*kind, *id)) {
                            let j = choose|j: int| 0 <= j < self.row_keys().len() && self.row_keys()[j] == (*kind, *id);
                            if j < pos {
                                assert(row_order()(self.row_keys()[j], (*kind, *id)));
                            } else {
                                assert(row_order()((*kind, *id), self.row_keys()[j]));
                            }
                        }
                        assert(rows0.remove((*kind, *id)) =~= rows0);
                    }
                }
            },
        }
    }
}

/// The rows a sequence of references points at.
pub open spec fn deref_rows(r: Seq<&Row>) -> Seq<Row> {
    r.map_values(|x: &Row| *x)
}

/// The rows of `kind` with the given ids, in the ids' order.
pub open spec fn rows_for(rows: Map<(EntityKind, u128), Row>, kind: EntityKind, ids: Seq<u128>) -> Seq<Row> {
    ids.map_values(|id: u128| rows[(kind, id)])
}

/// Every id names a present row of `kind`.
pub open spec fn ids_present(rows: Map<(EntityKind, u128), Row>, kind: EntityKind, ids: Seq<u128>) -> bool {
    forall|j: int| 0 <= j < ids.len() ==> rows.contains_key((kind, #[trigger] ids[j]))
}

/// A sound index only selects ids of present rows.
pub proof fn lemma_select_ids_present(
    entries: Seq<(EntityKind, Seq<char>, u128)>,
    rows: Map<(EntityKind, u128), Row>,
    index: Map<(EntityKind, Seq<char>), u128>,
    kind: EntityKind,
    prefix: Seq<char>,
    after: Option<Seq<char>>,
)
    requires
        index_sound(rows, index),
        forall|x: int|
            0 <= x < entries.len() ==> index.contains_key(((#[trigger] entries[x]).0, entries[x].1))
                && index[(entries[x].0, entries[x].1)] == entries[x].2,
    ensures
        ids_present(rows, kind, select_ids(entries, kind, prefix, after)),
{
    let ids = select_ids(entries, kind, prefix, after);
    assert forall|j: int| 0 <= j < ids.len() implies rows.contains_key((kind, #[trigger] ids[j])) by {
        lemma_select_ids_from_entries(entries, kind, prefix, after, j);
        let i = choose|i: int|
            0 <= i < entries.len() && entries[i].0 == kind && entries[i].2 == ids[j] && entry_matches(entries[i], kind, prefix, after);
        let k = (entries[i].0, entries[i].1);
        assert(index.contains_key(k));
    }
}

/// Selecting over a longer prefix of the entries only extends the selection.
pub proof fn lemma_select_ids_prefix(
    entries: Seq<(EntityKind, Seq<char>, u128)>,
    kind: EntityKind,
    prefix: Seq<char>,
    after: Option<Seq<char>>,
    i: int,
    j: int,
)
    requires
        0 <= i <= j <= entries.len(),
    ensures
        select_ids(entries.take(i), kind, prefix, after).len() <= select_ids(entries.take(j), kind, prefix, after).len(),
        select_ids(entries.take(i), kind, prefix, after) == select_ids(entries.take(j), kind, prefix, after).take(
            select_ids(entries.take(i), kind, prefix, after).len() as int,
        ),
    decreases j - i,
{
    if i < j {
        lemma_select_ids_prefix(entries, kind, prefix, after, i, j - 1);
        assert(entries.take(j).drop_last() =~= entries.take(j - 1));
        let a = select_ids(entries.take(i), kind, prefix, after);
        let b = select_ids(entries.take(j - 1), kind, prefix, after);
        let c = select_ids(entries.take(j), kind, prefix, after);
        assert(c.take(a.len() as int) =~= b.take(a.len() as int));
    } else {
        let a = select_ids(entries.take(i), kind, prefix, after);
        assert(a.take(a.len() as int) =~= a);
    }
}

/// Every selected id comes from an entry of the scanned kind.
pub proof fn lemma_select_ids_from_entries(
    entries: Seq<(EntityKind, Seq<char>, u128)>,
    kind: EntityKind,
    prefix: Seq<char>,
    after: Option<Seq<char>>,
    x: int,
)
    requires
        0 <= x < select_ids(entries, kind, prefix, after).len(),
    ensures
        exists|i: int|
            0 <= i < entries.len() && entries[i].0 == kind && entries[i].2 == select_ids(
                entries,
                kind,
                prefix,
                after,
            )[x] && entry_matches(entries[i], kind, prefix, after),
    decreases entries.len(),
{
    let init = select_ids(entries.drop_last(), kind, prefix, after);
    if x < init.len() {
        lemma_select_ids_from_entries(entries.drop_last(), kind, prefix, after, x);
        let i = choose|i: int|
            0 <= i < entries.drop_last().len() && entries.drop_last()[i].0 == kind
                && entries.drop_last()[i].2 == init[x] && entry_matches(entries.drop_last()[i], kind, prefix, after);
        assert(entries[i] == entries.drop_last()[i]);
    } else {
        assert(entries[entries.len() - 1] == entries.last());
    }
}

/// Every matching entry's id is selected.
pub proof fn lemma_select_ids_complete(
    entries: Seq<(EntityKind, Seq<char>, u128)>,
    kind: EntityKind,
    prefix: Seq<char>,
    after: Option<Seq<char>>,
    i: int,
)
    requires
        0 <= i < entries.len(),
        entry_matches(entries[i], kind, prefix, after),
    ensures
        select_ids(entries, kind, prefix, after).contains(entries[i].2),
    decreases entries.len(),
{
    let init = select_ids(entries.drop_last(), kind, prefix, after);
    if i < entries.len() - 1 {
        assert(entries.drop_last()[i] == entries[i]);
        lemma_select_ids_complete(entries.drop_last(), kind, prefix, after, i);
        let x = choose|x: int| 0 <= x < init.len() && init[x] == entries[i].2;
        if entry_matches(entries.last(), kind, prefix, after) {
            assert(init.push(entries.last().2)[x] == entries[i].2);
        }
    } else {
        assert(init.push(entries.last().2)[init.len() as int] == entries[i].2);
    }
}

/// Matching entries with distinct ids select distinct ids.
pub proof fn lemma_select_ids_distinct(
    entries: Seq<(EntityKind, Seq<char>, u128)>,
    kind: EntityKind,
    prefix: Seq<char>,
    after: Option<Seq<char>>,
)
    requires
        forall|i: int, j: int|
            0 <= i < j < entries.len() && entry_matches(#[trigger] entries[i], kind, prefix, after)
                && entry_matches(#[trigger] entries[j], kind, prefix, after) ==> entries[i].2 != entries[j].2,
    ensures
        forall|x: int, y: int|
            0 <= x < y < select_ids(entries, kind, prefix, after).len() ==> select_ids(entries, kind, prefix, after)[x]
                != select_ids(entries, kind, prefix, after)[y],
    decreases entries.len(),
{
    if entries.len() > 0 {
        let d = entries.drop_last();
        assert forall|i: int, j: int|
            0 <= i < j < d.len() && entry_matches(#[trigger] d[i], kind, prefix, after)
                && entry_matches(#[trigger] d[j], kind, prefix, after) implies d[i].2 != d[j].2 by {
            assert(d[i] == entries[i] && d[j] == entries[j]);
        }
        lemma_select_ids_distinct(d, kind, prefix, after);
        let init = select_ids(d, kind, prefix, after);
        if entry_matches(entries.last(), kind, prefix, after) {
            let all = init.push(entries.last().2);
            assert forall|x: int, y: int| 0 <= x < y < all.len() implies all[x] != all[y] by {
                if y == init.len() {
                    lemma_select_ids_from_entries(d, kind, prefix, after, x);
                    let i = choose|i: int|
                        0 <= i < d.len() && d[i].0 == kind && d[i].2 == init[x] && entry_matches(d[i], kind, prefix, after);
                    assert(d[i] == entries[i]);
                    assert(entries[entries.len() - 1] == entries.last());
                }
            }
        }
    }
}

/// The natural key the row of `kind` with id `id` is indexed under.
pub open spec fn row_key(snap: Snapshot, kind: EntityKind, id: u128) -> Seq<char> {
    natural_key_of(snap.rows()[(kind, id)])->0
}

/// The part of a key after `prefix`: what a scan's cursor is compared with.
pub open spec fn key_rest(key: Seq<char>, prefix: Seq<char>) -> Seq<char> {
    key.subrange(prefix.len() as int, key.len() as int)
}

/// Each id a scan selects is that of a present row, indexed under its
/// natural key by a matching entry.
pub proof fn lemma_selected_row_key(
    snap: Snapshot,
    kind: EntityKind,
    prefix: Seq<char>,
    after: Option<Seq<char>>,
    x: int,
)
    requires
        snap.wf(),
        0 <= x < select_ids(snap.index_entries(), kind, prefix, after).len(),
    ensures
        ({
            let id = select_ids(snap.index_entries(), kind, prefix, after)[x];
            &&& snap.rows().contains_key((kind, id))
            &&& natural_key_of(snap.rows()[(kind, id)]) is Some
            &&& entry_matches((kind, row_key(snap, kind, id), id), kind, prefix, after)
            &&& exists|i: int|
                0 <= i < snap.index_entries().len() && snap.index_entries()[i] == (kind, row_key(snap, kind, id), id)
        }),
{
    let entries = snap.index_entries();
    let ids = select_ids(entries, kind, prefix, after);
    lemma_select_ids_from_entries(entries, kind, prefix, after, x);
    let i = choose|i: int|
        0 <= i < entries.len() && entries[i].0 == kind && entries[i].2 == ids[x] && entry_matches(entries[i], kind, prefix, after);
    snap.lemma_entries_describe_index();
    let k = (entries[i].0, entries[i].1);
    assert(snap.index().contains_key(k));
    assert(snap.index()[k] == ids[x]);
    assert(entries[i] == (kind, row_key(snap, kind, ids[x]), ids[x]));
}

/// The ids a scan selects come in strictly increasing natural-key order.
pub proof fn lemma_selected_keys_increase(
    snap: Snapshot,
    entries: Seq<(EntityKind, Seq<char>, u128)>,
    kind: EntityKind,
    prefix: Seq<char>,
    after: Option<Seq<char>>,
)
    requires
        snap.wf(),
        entries.len() <= snap.index_entries().len(),
        entries == snap.index_entries().take(entries.len() as int),
    ensures
        forall|x: int, y: int|
            0 <= x < y < select_ids(entries, kind, prefix, after).len() ==> lex_lt(
                row_key(snap, kind, #[trigger] select_ids(entries, kind, prefix, after)[x]),
                row_key(snap, kind, #[trigger] select_ids(entries, kind, prefix, after)[y]),
            ),
    decreases entries.len(),
{
    if entries.len() > 0 {
        let all = snap.index_entries();
        let d = entries.drop_last();
        assert(d =~= all.take(d.len() as int));
        lemma_selected_keys_increase(snap, d, kind, prefix, after);
        let init = select_ids(d, kind, prefix, after);
        let last = entries.last();
        if entry_matches(last, kind, prefix, after) {
            let sel = init.push(last.2);
            snap.lemma_entries_describe_index();
            snap.lemma_index_entries_sorted();
            let n = entries.len() - 1;
            assert(all[n] == last);
            assert(row_key(snap, kind, last.2) == last.1) by {
                let k = (all[n].0, all[n].1);
                assert(snap.index().contains_key(k));
                assert(snap.index()[k] == last.2);
            }
            assert forall|x: int, y: int| 0 <= x < y < sel.len() implies lex_lt(
                row_key(snap, kind, #[trigger] sel[x]),
                row_key(snap, kind, #[trigger] sel[y]),
            ) by {
                if y < init.len() {
                    assert(sel[x] == init[x] && sel[y] == init[y]);
                } else {
                    lemma_select_ids_from_entries(d, kind, prefix, after, x);
                    let i = choose|i: int|
                        0 <= i < d.len() && d[i].0 == kind && d[i].2 == init[x] && entry_matches(d[i], kind, prefix, after);
                    assert(d[i] == all[i]);
                    let k = (all[i].0, all[i].1);
                    assert(snap.index().contains_key(k));
                    assert(snap.index()[k] == init[x]);
                    assert(row_key(snap, kind, init[x]) == all[i].1);
                    assert(key_lt((all[i].0, all[i].1), (all[n].0, all[n].1)));
                    assert(sel[x] == init[x]);
                    assert(sel[y] == last.2);
                }
            }
        }
    }
}

/// Two sequences of ids, each strictly increasing by natural key, that hold
/// the same ids are equal.
pub proof fn lemma_increasing_ids_equal(snap: Snapshot, kind: EntityKind, a: Seq<u128>, b: Seq<u128>)
    requires
        forall|x: int, y: int| 0 <= x < y < a.len() ==> lex_lt(row_key(snap, kind, #[trigger] a[x]), row_key(snap, kind, #[trigger] a[y])),
        forall|x: int, y: int| 0 <= x < y < b.len() ==> lex_lt(row_key(snap, kind, #[trigger] b[x]), row_key(snap, kind, #[trigger] b[y])),
        forall|id: u128| a.contains(id) <==> b.contains(id),
    ensures
        a == b,
    decreases a.len() + b.len(),
{
    if a.len() == 0 {
        if b.len() > 0 {
            assert(b.contains(b[0]));
        }
        assert(a =~= b);
    } else if b.len() == 0 {
        assert(a.contains(a[0]));
    } else {
        assert(a.contains(a[0]));
        let j = choose|j: int| 0 <= j < b.len() && b[j] == a[0];
        assert(b.contains(b[0]));
        let i = choose|i: int| 0 <= i < a.len() && a[i] == b[0];
        if j > 0 {
            if i > 0 {
                lemma_lex_asymmetric(row_key(snap, kind, a[0]), row_key(snap, kind, a[i]));
            } else {
                lemma_lex_irreflexive(row_key(snap, kind, b[0]));
            }
        }
        assert(a[0] == b[0]);
        let a1 = a.drop_first();
        let b1 = b.drop_first();
        assert forall|x: int, y: int| 0 <= x < y < a1.len() implies lex_lt(
            row_key(snap, kind, #[trigger] a1[x]),
            row_key(snap, kind, #[trigger] a1[y]),
        ) by {
            assert(a1[x] == a[x + 1] && a1[y] == a[y + 1]);
        }
        assert forall|x: int, y: int| 0 <= x < y < b1.len() implies lex_lt(
            row_key(snap, kind, #[trigger] b1[x]),
            row_key(snap, kind, #[trigger] b1[y]),
        ) by {
            assert(b1[x] == b[x + 1] && b1[y] == b[y + 1]);
        }
        assert forall|id: u128| a1.contains(id) <==> b1.contains(id) by {
            if a1.contains(id) {
                let x = choose|x: int| 0 <= x < a1.len() && a1[x] == id;
                assert(a.contains(id) && a[x + 1] == id);
                let y = choose|y: int| 0 <= y < b.len() && b[y] == id;
                if y == 0 {
                    lemma_lex_irreflexive(row_key(snap, kind, a[0]));
                    assert(lex_lt(row_key(snap, kind, a[0]), row_key(snap, kind, a[x + 1])));
                }
                assert(b1[y - 1] == id);
            }
            if b1.contains(id) {
                let y = choose|y: int| 0 <= y < b1.len() && b1[y] == id;
                assert(b.contains(id) && b[y + 1] == id);
                let x = choose|x: int| 0 <= x < a.len() && a[x] == id;
                if x == 0 {
                    lemma_lex_irreflexive(row_key(snap, kind, b[0]));
                    assert(lex_lt(row_key(snap, kind, b[0]), row_key(snap, kind, b[y + 1])));
                }
                assert(a1[x - 1] == id);
            }
        }
        lemma_increasing_ids_equal(snap, kind, a1, b1);
        assert(a =~= seq![a[0]] + a1);
        assert(b =~= seq![b[0]] + b1);
    }
}

/// Scans resume where they stopped: past the `n`-th id a scan selects, a
/// scan under the same prefix whose cursor is that row's key (past the
/// prefix) selects exactly the ids that followed it, whatever the first
/// scan's cursor was.
pub proof fn lemma_scan_resumes(snap: Snapshot, kind: EntityKind, prefix: Seq<char>, after: Option<Seq<char>>, n: int)
    requires
        snap.wf(),
        0 < n <= select_ids(snap.index_entries(), kind, prefix, after).len(),
    ensures
        ({
            let ids = select_ids(snap.index_entries(), kind, prefix, after);
            let cursor = key_rest(row_key(snap, kind, ids[n - 1]), prefix);
            select_ids(snap.index_entries(), kind, prefix, Some(cursor)) == ids.skip(n)
        }),
{
    let entries = snap.index_entries();
    let ids = select_ids(entries, kind, prefix, after);
    let cursor = key_rest(row_key(snap, kind, ids[n - 1]), prefix);
    let next = select_ids(entries, kind, prefix, Some(cursor));
    let rest = ids.skip(n);
    assert(entries =~= entries.take(entries.len() as int));
    lemma_selected_keys_increase(snap, entries, kind, prefix, after);
    lemma_selected_keys_increase(snap, entries, kind, prefix, Some(cursor));
    lemma_selected_row_key(snap, kind, prefix, after, n - 1);
    // Keys under a common prefix compare as their rests do.
    assert forall|k1: Seq<char>, k2: Seq<char>|
        starts_with(k1, prefix) && starts_with(k2, prefix) implies (lex_lt(k1, k2) <==> lex_lt(
            #[trigger] key_rest(k1, prefix),
            #[trigger] key_rest(k2, prefix),
        )) by {
        assert(k1 =~= prefix + key_rest(k1, prefix));
        assert(k2 =~= prefix + key_rest(k2, prefix));
        crate::text::lemma_lex_common_prefix(prefix, key_rest(k1, prefix), key_rest(k2, prefix));
    }
    assert forall|x: int, y: int| 0 <= x < y < rest.len() implies lex_lt(
        row_key(snap, kind, #[trigger] rest[x]),
        row_key(snap, kind, #[trigger] rest[y]),
    ) by {
        assert(rest[x] == ids[x + n] && rest[y] == ids[y + n]);
    }
    assert forall|id: u128| next.contains(id) <==> rest.contains(id) by {
        if next.contains(id) {
            let y = choose|y: int| 0 <= y < next.len() && next[y] == id;
            lemma_selected_row_key(snap, kind, prefix, Some(cursor), y);
            let k = row_key(snap, kind, id);
            let i = choose|i: int| 0 <= i < entries.len() && entries[i] == (kind, k, id);
            // It matches the first scan too: its rest is past the cursor, which
            // is past the first scan's cursor.
            if after is Some {
                lemma_lex_transitive(after->0, cursor, key_rest(k, prefix));
            }
            assert(entry_matches(entries[i], kind, prefix, after));
            lemma_select_ids_complete(entries, kind, prefix, after, i);
            let x = choose|x: int| 0 <= x < ids.len() && ids[x] == id;
            if x < n - 1 {
                assert(lex_lt(row_key(snap, kind, ids[x]), row_key(snap, kind, ids[n - 1])));
                lemma_lex_asymmetric(cursor, key_rest(k, prefix));
            } else if x == n - 1 {
                lemma_lex_irreflexive(cursor);
            }
            assert(rest[x - n] == id);
        }
        if rest.contains(id) {
            let z = choose|z: int| 0 <= z < rest.len() && rest[z] == id;
            let x = z + n;
            assert(ids[x] == id);
            lemma_selected_row_key(snap, kind, prefix, after, x);
            let k = row_key(snap, kind, id);
            let i = choose|i: int| 0 <= i < entries.len() && entries[i] == (kind, k, id);
            assert(lex_lt(row_key(snap, kind, ids[n - 1]), row_key(snap, kind, ids[x])));
            assert(starts_with(k, prefix));
            assert(starts_with(row_key(snap, kind, ids[n - 1]), prefix));
            assert(lex_lt(key_rest(row_key(snap, kind, ids[n - 1]), prefix), key_rest(k, prefix)));
            assert(entry_matches(entries[i], kind, prefix, Some(cursor)));
            lemma_select_ids_complete(entries, kind, prefix, Some(cursor), i);
        }
    }
    lemma_increasing_ids_equal(snap, kind, next, rest);
}

/// Whether removing the rows `ids` of `kind` drops the index key `kk`: it is
/// the natural key of one of them.
pub open spec fn dropped_by(
    rows: Map<(EntityKind, u128), Row>,
    kind: EntityKind,
    ids: Seq<u128>,
    kk: (EntityKind, Seq<char>),
) -> bool {
    kk.0 == kind && exists|j: int| 0 <= j < ids.len() && natural_key_of(rows[(kind, ids[j])]) == Some(kk.1)
}

/// Removing present rows one by one, each once, removes exactly them and
/// drops exactly their natural keys from the index.
pub proof fn lemma_remove_all_effect(
    rows: Map<(EntityKind, u128), Row>,
    index: Map<(EntityKind, Seq<char>), u128>,
    kind: EntityKind,
    ids: Seq<u128>,
)
    requires
        forall|i: int, j: int| 0 <= i < j < ids.len() ==> ids[i] != ids[j],
        forall|i: int| 0 <= i < ids.len() ==> rows.contains_key((kind, #[trigger] ids[i])),
    ensures
        forall|key: (EntityKind, u128)|
            #[trigger] apply_all_rows(rows, removals_of(kind, ids)).contains_key(key) <==> rows.contains_key(key) && !(
            key.0 == kind && ids.contains(key.1)),
        forall|key: (EntityKind, u128)|
            #[trigger] apply_all_rows(rows, removals_of(kind, ids)).contains_key(key) ==> apply_all_rows(
                rows,
                removals_of(kind, ids),
            )[key] == rows[key],
        forall|kk: (EntityKind, Seq<char>)|
            #[trigger] apply_all_index(rows, index, removals_of(kind, ids)).contains_key(kk) <==> index.contains_key(kk)
                && !dropped_by(rows, kind, ids, kk),
        forall|kk: (EntityKind, Seq<char>)|
            #[trigger] apply_all_index(rows, index, removals_of(kind, ids)).contains_key(kk) ==> apply_all_index(
                rows,
                index,
                removals_of(kind, ids),
            )[kk] == index[kk],
    decreases ids.len(),
{
    let acts = removals_of(kind, ids);
    if ids.len() == 0 {
        assert forall|key: (EntityKind, u128)| #[trigger] apply_all_rows(rows, acts).contains_key(key) <==> rows.contains_key(key) && !(
        key.0 == kind && ids.contains(key.1)) by {
        }
        assert forall|kk: (EntityKind, Seq<char>)| #[trigger] apply_all_index(rows, index, acts).contains_key(kk) <==> index.contains_key(kk)
            && !dropped_by(rows, kind, ids, kk) by {
        }
    } else {
        let d = ids.drop_last();
        let x = ids.last();
        assert(acts.drop_last() =~= removals_of(kind, d));
        assert(acts.last() == Action::Remove { kind, id: x });
        lemma_remove_all_effect(rows, index, kind, d);
        let r0 = apply_all_rows(rows, removals_of(kind, d));
        let i0 = apply_all_index(rows, index, removals_of(kind, d));
        assert(!d.contains(x)) by {
            if d.contains(x) {
                let j = choose|j: int| 0 <= j < d.len() && d[j] == x;
                assert(ids[j] == x && ids[ids.len() - 1] == x);
            }
        }
        assert(rows.contains_key((kind, x))) by {
            assert(ids[ids.len() - 1] == x);
        }
        assert(r0.contains_key((kind, x)));
        assert(r0[(kind, x)] == rows[(kind, x)]);
        assert forall|key: (EntityKind, u128)| #[trigger] apply_all_rows(rows, acts).contains_key(key) <==> rows.contains_key(key) && !(
        key.0 == kind && ids.contains(key.1)) by {
            if key.0 == kind && key.1 == x {
                assert(ids[ids.len() - 1] == x);
            }
            if key.0 == kind && d.contains(key.1) {
                let j = choose|j: int| 0 <= j < d.len() && d[j] == key.1;
                assert(ids[j] == key.1);
            }
            if key.0 == kind && ids.contains(key.1) && key.1 != x {
                let j = choose|j: int| 0 <= j < ids.len() && ids[j] == key.1;
                assert(d[j] == key.1);
            }
        }
        assert forall|kk: (EntityKind, Seq<char>)| #[trigger] apply_all_index(rows, index, acts).contains_key(kk) <==> index.contains_key(kk)
            && !dropped_by(rows, kind, ids, kk) by {
            if dropped_by(rows, kind, d, kk) {
                let j = choose|j: int| 0 <= j < d.len() && natural_key_of(rows[(kind, d[j])]) == Some(kk.1);
                assert(ids[j] == d[j]);
            }
            if kk.0 == kind && natural_key_of(rows[(kind, x)]) == Some(kk.1) {
                assert(ids[ids.len() - 1] == x);
            }
            if dropped_by(rows, kind, ids, kk) {
                let j = choose|j: int| 0 <= j < ids.len() && natural_key_of(rows[(kind, ids[j])]) == Some(kk.1);
                if j < ids.len() - 1 {
                    assert(d[j] == ids[j]);
                }
            }
        }
    }
}

/// Upserting rows under fresh ids, one by one, adds exactly them, and makes
/// their natural keys point at them.
pub proof fn lemma_upsert_fresh_effect(
    rows: Map<(EntityKind, u128), Row>,
    index: Map<(EntityKind, Seq<char>), u128>,
    kind: EntityKind,
    ids: Seq<u128>,
    bodies: Seq<Row>,
    keys: Seq<Seq<char>>,
)
    requires
        ids.len() == bodies.len(),
        keys.len() == bodies.len(),
        forall|i: int, j: int| 0 <= i < j < ids.len() ==> ids[i] != ids[j],
        forall|i: int, j: int| 0 <= i < j < keys.len() ==> keys[i] != keys[j],
        forall|i: int| 0 <= i < ids.len() ==> !rows.contains_key((kind, #[trigger] ids[i])),
        forall|i: int| 0 <= i < bodies.len() ==> natural_key_of(#[trigger] bodies[i]) == Some(keys[i]),
    ensures
        forall|key: (EntityKind, u128)|
            #[trigger] apply_all_rows(rows, upserts_at(kind, ids, bodies)).contains_key(key) <==> rows.contains_key(key) || (
            key.0 == kind && ids.contains(key.1)),
        forall|key: (EntityKind, u128)|
            rows.contains_key(key) && !(key.0 == kind && ids.contains(key.1)) ==> #[trigger] apply_all_rows(
                rows,
                upserts_at(kind, ids, bodies),
            )[key] == rows[key],
        forall|i: int|
            0 <= i < ids.len() ==> apply_all_rows(rows, upserts_at(kind, ids, bodies))[(kind, #[trigger] ids[i])]
                == bodies[i],
        forall|kk: (EntityKind, Seq<char>)|
            #[trigger] apply_all_index(rows, index, upserts_at(kind, ids, bodies)).contains_key(kk) <==> index.contains_key(kk)
                || (kk.0 == kind && keys.contains(kk.1)),
        forall|kk: (EntityKind, Seq<char>)|
            index.contains_key(kk) && !(kk.0 == kind && keys.contains(kk.1)) ==> #[trigger] apply_all_index(
                rows,
                index,
                upserts_at(kind, ids, bodies),
            )[kk] == index[kk],
        forall|i: int|
            0 <= i < keys.len() ==> apply_all_index(rows, index, upserts_at(kind, ids, bodies))[(kind, #[trigger] keys[i])]
                == ids[i],
    decreases ids.len(),
{
    let acts = upserts_at(kind, ids, bodies);
    if ids.len() > 0 {
        let n = ids.len() - 1;
        let di = ids.drop_last();
        let db = bodies.drop_last();
        let dk = keys.drop_last();
        assert(acts.drop_last() =~= upserts_at(kind, di, db));
        assert(acts.last() == Action::Upsert { kind, id: ids[n], body: bodies[n] });
        assert forall|i: int| 0 <= i < db.len() implies natural_key_of(#[trigger] db[i]) == Some(dk[i]) by {
            assert(db[i] == bodies[i] && dk[i] == keys[i]);
        }
        assert forall|i: int| 0 <= i < di.len() implies !rows.contains_key((kind, #[trigger] di[i])) by {
            assert(di[i] == ids[i]);
        }
        assert forall|i: int, j: int| 0 <= i < j < di.len() implies di[i] != di[j] by {
            assert(di[i] == ids[i] && di[j] == ids[j]);
        }
        assert forall|i: int, j: int| 0 <= i < j < dk.len() implies dk[i] != dk[j] by {
            assert(dk[i] == keys[i] && dk[j] == keys[j]);
        }
        lemma_upsert_fresh_effect(rows, index, kind, di, db, dk);
        let r0 = apply_all_rows(rows, upserts_at(kind, di, db));
        let i0 = apply_all_index(rows, index, upserts_at(kind, di, db));
        assert(!di.contains(ids[n])) by {
            if di.contains(ids[n]) {
                let j = choose|j: int| 0 <= j < di.len() && di[j] == ids[n];
                assert(ids[j] == ids[n]);
            }
        }
        assert(!dk.contains(keys[n])) by {
            if dk.contains(keys[n]) {
                let j = choose|j: int| 0 <= j < dk.len() && dk[j] == keys[n];
                assert(keys[j] == keys[n]);
            }
        }
        assert(!rows.contains_key((kind, ids[n])));
        assert(!r0.contains_key((kind, ids[n])));
        assert(natural_key_of(bodies[n]) == Some(keys[n]));
        assert forall|key: (EntityKind, u128)| #[trigger] apply_all_rows(rows, acts).contains_key(key) <==> rows.contains_key(key) || (
        key.0 == kind && ids.contains(key.1)) by {
            if key.0 == kind && ids.contains(key.1) && key.1 != ids[n] {
                let j = choose|j: int| 0 <= j < ids.len() && ids[j] == key.1;
                assert(di[j] == key.1);
            }
            if key.0 == kind && di.contains(key.1) {
                let j = choose|j: int| 0 <= j < di.len() && di[j] == key.1;
                assert(ids[j] == key.1);
            }
            if key.0 == kind && key.1 == ids[n] {
                assert(ids.contains(ids[n]));
            }
        }
        assert forall|key: (EntityKind, u128)| rows.contains_key(key) && !(key.0 == kind && ids.contains(key.1)) implies #[trigger] apply_all_rows(
            rows,
            acts,
        )[key] == rows[key] by {
            if key.0 == kind && di.contains(key.1) {
                let j = choose|j: int| 0 <= j < di.len() && di[j] == key.1;
                assert(ids[j] == key.1);
            }
            if key.0 == kind && key.1 == ids[n] {
                assert(ids.contains(ids[n]));
            }
        }
        assert forall|i: int| 0 <= i < ids.len() implies apply_all_rows(rows, acts)[(kind, #[trigger] ids[i])] == bodies[i] by {
            if i < n {
                assert(di[i] == ids[i] && db[i] == bodies[i]);
            }
        }
        assert forall|kk: (EntityKind, Seq<char>)| #[trigger] apply_all_index(rows, index, acts).contains_key(kk) <==> index.contains_key(kk)
            || (kk.0 == kind && keys.contains(kk.1)) by {
            if kk.0 == kind && keys.contains(kk.1) && kk.1 != keys[n] {
                let j = choose|j: int| 0 <= j < keys.len() && keys[j] == kk.1;
                assert(dk[j] == kk.1);
            }
            if kk.0 == kind && dk.contains(kk.1) {
                let j = choose|j: int| 0 <= j < dk.len() && dk[j] == kk.1;
                assert(keys[j] == kk.1);
            }
            if kk.0 == kind && kk.1 == keys[n] {
                assert(keys.contains(keys[n]));
            }
        }
        assert forall|kk: (EntityKind, Seq<char>)| index.contains_key(kk) && !(kk.0 == kind && keys.contains(kk.1)) implies #[trigger] apply_all_index(
            rows,
            index,
            acts,
        )[kk] == index[kk] by {
            if kk.0 == kind && dk.contains(kk.1) {
                let j = choose|j: int| 0 <= j < dk.len() && dk[j] == kk.1;
                assert(keys[j] == kk.1);
            }
            if kk.0 == kind && kk.1 == keys[n] {
                assert(keys.contains(keys[n]));
            }
        }
        assert forall|i: int| 0 <= i < keys.len() implies apply_all_index(rows, index, acts)[(kind, #[trigger] keys[i])] == ids[i] by {
            if i < n {
                assert(dk[i] == keys[i] && di[i] == ids[i]);
                assert(keys[i] != keys[n]);
            }
        }
    } else {
        assert forall|key: (EntityKind, u128)| #[trigger] apply_all_rows(rows, acts).contains_key(key) <==> rows.contains_key(key) || (
        key.0 == kind && ids.contains(key.1)) by {
        }
        assert forall|kk: (EntityKind, Seq<char>)| #[trigger] apply_all_index(rows, index, acts).contains_key(kk) <==> index.contains_key(kk)
            || (kk.0 == kind && keys.contains(kk.1)) by {
        }
    }
}

/// Removing the rows `ids` of `kind`, in order.
pub open spec fn removals_of(kind: EntityKind, ids: Seq<u128>) -> Seq<Action> {
    ids.map_values(|id: u128| Action::Remove { kind, id })
}

/// Upserting `bodies` under `ids` of `kind`, in order.
pub open spec fn upserts_at(kind: EntityKind, ids: Seq<u128>, bodies: Seq<Row>) -> Seq<Action> {
    Seq::new(ids.len(), |i: int| Action::Upsert { kind, id: ids[i], body: bodies[i] })
}

impl Snapshot {
    fn entry_matches_exec(&self, i: usize, kind: EntityKind, prefix: &[char], after: Option<&[char]>) -> (r: bool)
        requires
            i < self.index@.len(),
        ensures
            r == entry_matches(
                self.index_entries()[i as int],
                kind,
                prefix@,
                match after {
                    Some(a) => Some(a@),
                    None => None,
                },
            ),
    {
        let e = &self.index[i];
        if e.kind != kind {
            return false;
        }
        if !has_prefix(e.key.as_slice(), prefix) {
            return false;
        }
        match after {
            None => true,
            Some(a) => {
                let rest = slice_from(e.key.as_slice(), prefix.len());
                lex_compare(a, rest.as_slice()) == KeyOrder::Less
            },
        }
    }

    /// The rows of `kind` whose natural key starts with `prefix` and whose
    /// remainder sorts strictly after `after`, in key order, at most `limit`.
    fn scan_matching(&self, kind: EntityKind, prefix: &[char], after: Option<&[char]>, limit: usize) -> (r: Vec<&Row>)
        requires
            self.wf(),
        ensures
            ({
                let ids = select_ids(
                    self.index_entries(),
                    kind,
                    prefix@,
                    match after {
                        Some(a) => Some(a@),
                        None => None,
                    },
                );
                let n = if ids.len() < limit { ids.len() as int } else { limit as int };
                &&& ids_present(self.rows(), kind, ids)
                &&& deref_rows(r@) == rows_for(self.rows(), kind, ids.take(n))
            }),
    {
        let ghost aft = match after {
            Some(a) => Some(a@),
            None => None,
        };
        let ghost entries = self.index_entries();
        let mut out: Vec<&Row> = Vec::new();
        let mut i: usize = 0;
        proof {
            self.lemma_entries_describe_index();
            assert(entries.take(0) =~= Seq::<(EntityKind, Seq<char>, u128)>::empty());
            assert(deref_rows(out@) =~= rows_for(self.rows(), kind, Seq::empty()));
        }
        while i < self.index.len() && out.len() < limit
            invariant
                self.wf(),
                entries == self.index_entries(),
                entries.len() == self.index@.len(),
                i <= entries.len(),
                aft == (match after {
                    Some(a) => Some(a@),
                    None => None::<Seq<char>>,
                }),
                out@.len() <= limit,
                ids_present(self.rows(), kind, select_ids(entries.take(i as int), kind, prefix@, aft)),
                deref_rows(out@) == rows_for(self.rows(), kind, select_ids(entries.take(i as int), kind, prefix@, aft)),
                forall|x: int|
                    0 <= x < entries.len() ==> self.index().contains_key(((#[trigger] entries[x]).0, entries[x].1))
                        && self.index()[(entries[x].0, entries[x].1)] == entries[x].2,
            decreases entries.len() - i,
        {
            let ghost before = select_ids(entries.take(i as int), kind, prefix@, aft);
            proof {
                assert(entries.take(i as int + 1).drop_last() =~= entries.take(i as int));
                assert(entries.take(i as int + 1).last() == entries[i as int]);
                assert(deref_rows(out@).len() == out@.len());
            }
            let m = self.entry_matches_exec(i, kind, prefix, after);
            if m {
                let id = self.index[i].id;
                proof {
                    let k = (entries[i as int].0, entries[i as int].1);
                    assert(entries[i as int].2 == id);
                    assert(self.index().contains_key(k));
                    assert(index_sound(self.rows(), self.index()));
                    assert(self.rows().contains_key((k.0, self.index()[k])));
                    assert(select_ids(entries.take(i as int + 1), kind, prefix@, aft) == before.push(id));
                }
                let ghost out0 = out@;
                match self.get(kind, id) {
                    Some(row) => {
                        out.push(row);
                    },
                    None => {
                        assert(false);
                    },
                }
                proof {
                    let now = select_ids(entries.take(i as int + 1), kind, prefix@, aft);
                    assert(deref_rows(out@) =~= deref_rows(out0).push(self.rows()[(kind, id)]));
                    assert(rows_for(self.rows(), kind, now) =~= rows_for(self.rows(), kind, before).push(self.rows()[(kind, id)]));
                    assert forall|j: int| 0 <= j < now.len() implies self.rows().contains_key((kind, #[trigger] now[j])) by {
                        if j < before.len() {
                            assert(now[j] == before[j]);
                        }
                    }
                }
            } else {
                assert(select_ids(entries.take(i as int + 1), kind, prefix@, aft) == before);
            }
            i = i + 1;
        }
        proof {
            let all = select_ids(entries, kind, prefix@, aft);
            let cur = select_ids(entries.take(i as int), kind, prefix@, aft);
            lemma_select_ids_prefix(entries, kind, prefix@, aft, i as int, entries.len() as int);
            assert(entries.take(entries.len() as int) =~= entries);
            assert(deref_rows(out@).len() == out@.len());
            if i == entries.len() {
                assert(entries.take(i as int) =~= entries);
                assert(all.take(all.len() as int) =~= all);
            } else {
                assert(out@.len() == limit);
            }
            assert(cur == all.take(cur.len() as int));
            lemma_select_ids_present(self.index_entries(), self.rows(), self.index(), kind, prefix@, aft);
        }
        out
    }

    /// Ordered scan of `kind` for cursor pagination: rows whose natural key
    /// sorts strictly after `after`, in key order, at most `limit`.
    pub fn scan(&self, kind: EntityKind, after: Option<&str>, limit: usize) -> (r: Vec<&Row>)
        requires
            self.wf(),
        ensures
            ({
                let ids = select_ids(
                    self.index_entries(),
                    kind,
                    Seq::empty(),
                    match after {
                        Some(a) => Some(a@),
                        None => None,
                    },
                );
                let n = if ids.len() < limit { ids.len() as int } else { limit as int };
                &&& ids_present(self.rows(), kind, ids)
                &&& deref_rows(r@) == rows_for(self.rows(), kind, ids.take(n))
            }),
    {
        let empty: Vec<char> = Vec::new();
        assert(empty@ =~= Seq::<char>::empty());
        match after {
            Some(a) => {
                let av = chars_of(a);
                self.scan_matching(kind, empty.as_slice(), Some(av.as_slice()), limit)
            },
            None => self.scan_matching(kind, empty.as_slice(), None, limit),
        }
    }

    /// Ordered scan within a natural-key prefix: rows of `kind` whose key
    /// starts with `prefix` and whose remainder sorts strictly after `after`,
    /// in key order, at most `limit`.
    pub fn scan_prefix(&self, kind: EntityKind, prefix: &str, after: Option<&str>, limit: usize) -> (r: Vec<&Row>)
        requires
            self.wf(),
        ensures
            ({
                let ids = select_ids(
                    self.index_entries(),
                    kind,
                    prefix@,
                    match after {
                        Some(a) => Some(a@),
                        None => None,
                    },
                );
                let n = if ids.len() < limit { ids.len() as int } else { limit as int };
                &&& ids_present(self.rows(), kind, ids)
                &&& deref_rows(r@) == rows_for(self.rows(), kind, ids.take(n))
            }),
    {
        let p = chars_of(prefix);
        match after {
            Some(a) => {
                let av = chars_of(a);
                self.scan_matching(kind, p.as_slice(), Some(av.as_slice()), limit)
            },
            None => self.scan_matching(kind, p.as_slice(), None, limit),
        }
    }

    /// Every id indexed under `prefix` for `kind`, in key order, unbounded.
    pub fn ids_under_prefix(&self, kind: EntityKind, prefix: &str) -> (r: Vec<u128>)
        requires
            self.wf(),
        ensures
            r@ == select_ids(self.index_entries(), kind, prefix@, None),
            ids_present(self.rows(), kind, r@),
    {
        let p = chars_of(prefix);
        let ghost entries = self.index_entries();
        let mut out: Vec<u128> = Vec::new();
        let mut i: usize = 0;
        assert(entries.take(0) =~= Seq::<(EntityKind, Seq<char>, u128)>::empty());
        while i < self.index.len()
            invariant
                entries == self.index_entries(),
                entries.len() == self.index@.len(),
                i <= entries.len(),
                p@ == prefix@,
                out@ == select_ids(entries.take(i as int), kind, prefix@, None),
            decreases entries.len() - i,
        {
            proof {
                assert(entries.take(i as int + 1).drop_last() =~= entries.take(i as int));
                assert(entries.take(i as int + 1).last() == entries[i as int]);
            }
            if self.entry_matches_exec(i, kind, p.as_slice(), None) {
                out.push(self.index[i].id);
            }
            i = i + 1;
        }
        assert(entries.take(i as int) =~= entries);
        proof {
            self.lemma_entries_describe_index();
            lemma_select_ids_present(entries, self.rows(), self.index(), kind, prefix@, None);
        }
        out
    }
}

/// The ids of the row keys of `kind`, in order.
pub open spec fn select_kind(keys: Seq<(EntityKind, u128)>, kind: EntityKind) -> Seq<u128>
    decreases keys.len(),
{
    if keys.len() == 0 {
        Seq::empty()
    } else {
        let init = select_kind(keys.drop_last(), kind);
        if keys.last().0 == kind {
            init.push(keys.last().1)
        } else {
            init
        }
    }
}

/// `ids` lists exactly the ids of the rows of `kind`, ascending.
pub open spec fn ids_of_kind_ascending(rows: Map<(EntityKind, u128), Row>, kind: EntityKind, ids: Seq<u128>) -> bool {
    &&& forall|i: int| 0 <= i < ids.len() ==> rows.contains_key((kind, #[trigger] ids[i]))
    &&& forall|i: int, j: int| 0 <= i < j < ids.len() ==> ids[i] < ids[j]
    &&& forall|id: u128| #[trigger] rows.contains_key((kind, id)) ==> ids.contains(id)
}

impl Snapshot {
    /// The ids of the rows of `kind`, ascending.
    pub closed spec fn kind_ids(self, kind: EntityKind) -> Seq<u128> {
        select_kind(self.row_keys(), kind)
    }

    /// `kind_ids` lists exactly the rows of that kind, ascending.
    pub proof fn lemma_kind_ids(self, kind: EntityKind)
        requires
            self.wf(),
        ensures
            ids_of_kind_ascending(self.rows(), kind, self.kind_ids(kind)),
    {
        lemma_row_order_is_strict();
        let keys = self.row_keys();
        lemma_select_kind_props(keys, self.row_vals(), kind);
    }

    /// Every row of `kind` with its id, ordered by id.
    pub fn iter_by_id(&self, kind: EntityKind) -> (r: Vec<(u128, &Row)>)
        requires
            self.wf(),
        ensures
            r@.map_values(|p: (u128, &Row)| p.0) == self.kind_ids(kind),
            forall|i: int| 0 <= i < r@.len() ==> *(#[trigger] r@[i]).1 == self.rows()[(kind, r@[i].0)],
    {
        let ghost keys = self.row_keys();
        let mut out: Vec<(u128, &Row)> = Vec::new();
        let mut i: usize = 0;
        proof {
            lemma_row_order_is_strict();
            assert(keys.take(0) =~= Seq::<(EntityKind, u128)>::empty());
            assert(out@.map_values(|p: (u128, &Row)| p.0) =~= Seq::<u128>::empty());
        }
        while i < self.rows.len()
            invariant
                self.wf(),
                keys == self.row_keys(),
                keys.len() == self.rows@.len(),
                i <= keys.len(),
                strict_order(row_order()),
                out@.map_values(|p: (u128, &Row)| p.0) == select_kind(keys.take(i as int), kind),
                forall|j: int| 0 <= j < out@.len() ==> *(#[trigger] out@[j]).1 == self.rows()[(kind, out@[j].0)],
            decreases keys.len() - i,
        {
            proof {
                assert(keys.take(i as int + 1).drop_last() =~= keys.take(i as int));
                assert(keys.take(i as int + 1).last() == keys[i as int]);
                lemma_keyed_map_at(keys, self.row_vals(), row_order(), i as int);
            }
            let e = &self.rows[i];
            if e.kind == kind {
                let ghost out0 = out@;
                out.push((e.id, &e.row));
                proof {
                    assert(out@.map_values(|p: (u128, &Row)| p.0) =~= out0.map_values(|p: (u128, &Row)| p.0).push(e.id));
                    assert forall|j: int| 0 <= j < out@.len() implies *(#[trigger] out@[j]).1 == self.rows()[(kind, out@[j].0)] by {
                        if j < out0.len() {
                            assert(out@[j] == out0[j]);
                        }
                    }
                }
            } else {
                proof {
                    assert(out@.map_values(|p: (u128, &Row)| p.0) == select_kind(keys.take(i as int + 1), kind));
                }
            }
            i = i + 1;
        }
        assert(keys.take(i as int) =~= keys);
        out
    }

    /// Every row of `kind`, ordered by id.
    pub fn iter(&self, kind: EntityKind) -> (r: Vec<&Row>)
        requires
            self.wf(),
        ensures
            deref_rows(r@) == rows_for(self.rows(), kind, self.kind_ids(kind)),
    {
        let pairs = self.iter_by_id(kind);
        let mut out: Vec<&Row> = Vec::new();
        let mut i: usize = 0;
        let ghost ids = self.kind_ids(kind);
        while i < pairs.len()
            invariant
                i <= pairs@.len(),
                pairs@.map_values(|p: (u128, &Row)| p.0) == ids,
                forall|j: int| 0 <= j < pairs@.len() ==> *(#[trigger] pairs@[j]).1 == self.rows()[(kind, pairs@[j].0)],
                deref_rows(out@) == rows_for(self.rows(), kind, ids.take(i as int)),
            decreases pairs@.len() - i,
        {
            let ghost out0 = out@;
            out.push(pairs[i].1);
            proof {
                assert(ids[i as int] == pairs@[i as int].0);
                assert(ids.take(i as int + 1) =~= ids.take(i as int).push(ids[i as int]));
                assert(deref_rows(out@) =~= deref_rows(out0).push(*pairs@[i as int].1));
                assert(rows_for(self.rows(), kind, ids.take(i as int + 1)) =~= rows_for(self.rows(), kind, ids.take(i as int)).push(self.rows()[(kind, ids[i as int])]));
            }
            i = i + 1;
        }
        proof {
            assert(ids.len() == pairs@.len());
            assert(ids.take(i as int) =~= ids);
        }
        out
    }

    /// Move the snapshot to log version `v`.
    pub fn set_version(&mut self, v: u64)
        requires
            old(self).wf(),
        ensures
            final(self).wf(),
            final(self).at_version() == v,
            final(self).rows() == old(self).rows(),
            final(self).index() == old(self).index(),
            final(self).index_entries() == old(self).index_entries(),
    {
        self.version = v;
    }
}

/// What the selection of a kind's ids satisfies over sorted keys.
proof fn lemma_select_kind_props(keys: Seq<(EntityKind, u128)>, vals: Seq<Row>, kind: EntityKind)
    requires
        sorted_by(keys, row_order()),
        keys.len() == vals.len(),
    ensures
        ids_of_kind_ascending(keyed_map(keys, vals), kind, select_kind(keys, kind)),
        forall|i: int| 0 <= i < select_kind(keys, kind).len() ==> exists|p: int| 0 <= p < keys.len() && keys[p] == (kind, #[trigger] select_kind(keys, kind)[i]),
    decreases keys.len(),
{
    lemma_row_order_is_strict();
    let m = keyed_map(keys, vals);
    let ids = select_kind(keys, kind);
    if keys.len() == 0 {
        assert forall|id: u128| #[trigger] m.contains_key((kind, id)) implies ids.contains(id) by {
        }
    } else {
        let pk = keys.drop_last();
        let pv = vals.drop_last();
        assert(sorted_by(pk, row_order()));
        lemma_select_kind_props(pk, pv, kind);
        let init = select_kind(pk, kind);
        let pm = keyed_map(pk, pv);
        let last = keys.len() - 1;
        assert forall|i: int| 0 <= i < init.len() implies exists|p: int| 0 <= p < keys.len() && keys[p] == (kind, #[trigger] init[i]) by {
            let p = choose|p: int| 0 <= p < pk.len() && pk[p] == (kind, init[i]);
            assert(keys[p] == pk[p]);
        }
        assert forall|i: int| 0 <= i < ids.len() implies exists|p: int| 0 <= p < keys.len() && keys[p] == (kind, #[trigger] ids[i]) by {
            if i < init.len() {
                assert(ids[i] == init[i]);
            } else {
                assert(keys[last] == (kind, ids[i]));
            }
        }
        assert forall|i: int| 0 <= i < ids.len() implies m.contains_key((kind, #[trigger] ids[i])) by {
            let p = choose|p: int| 0 <= p < keys.len() && keys[p] == (kind, ids[i]);
            lemma_keyed_map_at(keys, vals, row_order(), p);
        }
        assert forall|i: int, j: int| 0 <= i < j < ids.len() implies ids[i] < ids[j] by {
            if j < init.len() {
                assert(ids[i] == init[i] && ids[j] == init[j]);
            } else {
                assert(ids[i] == init[i]);
                let p = choose|p: int| 0 <= p < pk.len() && pk[p] == (kind, init[i]);
                assert(keys[p] == (kind, ids[i]));
                assert(keys[last] == (kind, ids[j]));
                assert(row_order()(keys[p], keys[last]));
            }
        }
        assert forall|id: u128| #[trigger] m.contains_key((kind, id)) implies ids.contains(id) by {
            let p = choose|p: int| 0 <= p < keys.len() && keys[p] == (kind, id);
            if p < last {
                assert(pk[p] == (kind, id));
                assert(pm.contains_key((kind, id)));
                let q = choose|q: int| 0 <= q < init.len() && init[q] == id;
                assert(ids[q] == id);
            } else {
                assert(ids[ids.len() - 1] == id);
            }
        }
    }
}

/// The rows after applying `acts` in order.
pub open spec fn apply_all_rows(rows: Map<(EntityKind, u128), Row>, acts: Seq<Action>) -> Map<(EntityKind, u128), Row>
    decreases acts.len(),
{
    if acts.len() == 0 {
        rows
    } else {
        apply_rows(apply_all_rows(rows, acts.drop_last()), acts.last())
    }
}

/// The index after applying `acts` in order.
pub open spec fn apply_all_index(
    rows: Map<(EntityKind, u128), Row>,
    index: Map<(EntityKind, Seq<char>), u128>,
    acts: Seq<Action>,
) -> Map<(EntityKind, Seq<char>), u128>
    decreases acts.len(),
{
    if acts.len() == 0 {
        index
    } else {
        apply_index(
            apply_all_rows(rows, acts.drop_last()),
            apply_all_index(rows, index, acts.drop_last()),
            acts.last(),
        )
    }
}

/// Whether every action is an upsert.
pub open spec fn all_upserts(acts: Seq<Action>) -> bool {
    forall|i: int| 0 <= i < acts.len() ==> (#[trigger] acts[i]) is Upsert
}

impl Snapshot {
    /// Apply actions in order.
    pub fn apply_all(&mut self, acts: &[Action])
        requires
            old(self).wf(),
            all_well_kinded(acts@),
        ensures
            final(self).wf(),
            final(self).at_version() == old(self).at_version(),
            final(self).rows() == apply_all_rows(old(self).rows(), acts@),
            final(self).index() == apply_all_index(old(self).rows(), old(self).index(), acts@),
    {
        let ghost rows0 = self.rows();
        let ghost index0 = self.index();
        let mut i: usize = 0;
        assert(acts@.take(0) =~= Seq::<Action>::empty());
        while i < acts.len()
            invariant
                self.wf(),
                all_well_kinded(acts@),
                self.at_version() == old(self).at_version(),
                rows0 == old(self).rows(),
                index0 == old(self).index(),
                i <= acts@.len(),
                self.rows() == apply_all_rows(rows0, acts@.take(i as int)),
                self.index() == apply_all_index(rows0, index0, acts@.take(i as int)),
            decreases acts@.len() - i,
        {
            proof {
                assert(acts@.take(i as int + 1).drop_last() =~= acts@.take(i as int));
                assert(acts@.take(i as int + 1).last() == acts@[i as int]);
            }
            self.apply(&acts[i]);
            i = i + 1;
        }
        assert(acts@.take(i as int) =~= acts@);
    }

    /// Fold one commit in, if it is the next version: applies its actions and
    /// moves to `target` when `target` is one past the current version, and
    /// changes nothing otherwise. Returns whether it applied.
    pub fn apply_commit(&mut self, target: u64, acts: &[Action]) -> (applied: bool)
        requires
            old(self).wf(),
            all_well_kinded(acts@),
        ensures
            final(self).wf(),
            applied == (old(self).at_version() + 1 == target),
            applied ==> final(self).at_version() == target
                && final(self).rows() == apply_all_rows(old(self).rows(), acts@)
                && final(self).index() == apply_all_index(old(self).rows(), old(self).index(), acts@),
            !applied ==> final(self).at_version() == old(self).at_version()
                && final(self).rows() == old(self).rows()
                && final(self).index() == old(self).index(),
    {
        if self.version < u64::MAX && self.version + 1 == target {
            self.apply_all(acts);
            self.set_version(target);
            true
        } else {
            false
        }
    }

    /// Replay commits read from the log, in order: each commit's actions are
    /// applied and the snapshot moves to its version.
    pub fn replay(&mut self, commits: Vec<(u64, Vec<Action>)>)
        requires
            old(self).wf(),
            forall|i: int| 0 <= i < commits@.len() ==> all_well_kinded((#[trigger] commits@[i]).1@),
        ensures
            final(self).wf(),
            commits@.len() == 0 ==> final(self).at_version() == old(self).at_version(),
            commits@.len() > 0 ==> final(self).at_version() == commits@.last().0,
            final(self).rows() == apply_all_rows(old(self).rows(), flatten_commits(commits@)),
            final(self).index() == apply_all_index(old(self).rows(), old(self).index(), flatten_commits(commits@)),
    {
        let ghost rows0 = self.rows();
        let ghost index0 = self.index();
        let mut i: usize = 0;
        assert(commits@.take(0) =~= Seq::<(u64, Vec<Action>)>::empty());
        while i < commits.len()
            invariant
                self.wf(),
                forall|j: int| 0 <= j < commits@.len() ==> all_well_kinded((#[trigger] commits@[j]).1@),
                rows0 == old(self).rows(),
                index0 == old(self).index(),
                i <= commits@.len(),
                i == 0 ==> self.at_version() == old(self).at_version(),
                i > 0 ==> self.at_version() == commits@[i - 1].0,
                self.rows() == apply_all_rows(rows0, flatten_commits(commits@.take(i as int))),
                self.index() == apply_all_index(rows0, index0, flatten_commits(commits@.take(i as int))),
            decreases commits@.len() - i,
        {
            let ghost before = flatten_commits(commits@.take(i as int));
            proof {
                assert(commits@.take(i as int + 1).drop_last() =~= commits@.take(i as int));
                lemma_apply_all_concat(rows0, index0, before, commits@[i as int].1@);
            }
            let (v, acts) = (commits[i].0, &commits[i].1);
            self.apply_all(acts.as_slice());
            self.set_version(v);
            i = i + 1;
        }
        assert(commits@.take(i as int) =~= commits@);
    }
}

/// The actions of a run of commits, in order.
pub open spec fn flatten_commits(commits: Seq<(u64, Vec<Action>)>) -> Seq<Action>
    decreases commits.len(),
{
    if commits.len() == 0 {
        Seq::empty()
    } else {
        flatten_commits(commits.drop_last()) + commits.last().1@
    }
}

/// Applying `a` then `b` is applying `a + b`.
pub proof fn lemma_apply_all_concat(
    rows: Map<(EntityKind, u128), Row>,
    index: Map<(EntityKind, Seq<char>), u128>,
    a: Seq<Action>,
    b: Seq<Action>,
)
    ensures
        apply_all_rows(apply_all_rows(rows, a), b) == apply_all_rows(rows, a + b),
        apply_all_index(apply_all_rows(rows, a), apply_all_index(rows, index, a), b) == apply_all_index(rows, index, a + b),
    decreases b.len(),
{
    if b.len() == 0 {
        assert(a + b =~= a);
    } else {
        lemma_apply_all_concat(rows, index, a, b.drop_last());
        assert((a + b).drop_last() =~= a + b.drop_last());
        assert((a + b).last() == b.last());
    }
}

/// The kind and id an action touches.
pub open spec fn action_key(a: Action) -> (EntityKind, u128) {
    match a {
        Action::Upsert { kind, id, .. } => (kind, id),
        Action::Remove { kind, id } => (kind, id),
    }
}

/// One upsert per key, carrying the matching row.
pub open spec fn upserts_of(keys: Seq<(EntityKind, u128)>, vals: Seq<Row>) -> Seq<Action> {
    Seq::new(keys.len(), |i: int| Action::Upsert { kind: keys[i].0, id: keys[i].1, body: vals[i] })
}

/// Every row with a natural key is indexed under it.
pub open spec fn index_complete(rows: Map<(EntityKind, u128), Row>, index: Map<(EntityKind, Seq<char>), u128>) -> bool {
    forall|key: (EntityKind, u128)|
        #[trigger] rows.contains_key(key) && natural_key_of(rows[key]) is Some ==> index.contains_key(
            (key.0, natural_key_of(rows[key])->0),
        ) && index[(key.0, natural_key_of(rows[key])->0)] == key.1
}

/// Applying an action keeps a complete index complete, as long as an upsert
/// does not take a natural key another row holds: a removal always does, and
/// so does an upsert whose key is free or already its own. (An upsert onto a
/// key another row holds leaves that row unindexed, which is why every write
/// checks the name first.)
pub proof fn lemma_apply_keeps_index_complete(
    rows: Map<(EntityKind, u128), Row>,
    index: Map<(EntityKind, Seq<char>), u128>,
    act: Action,
)
    requires
        index_complete(rows, index),
        match act {
            Action::Upsert { kind, id, body } => match natural_key_of(body) {
                Some(k) => !index.contains_key((kind, k)) || index[(kind, k)] == id,
                None => true,
            },
            Action::Remove { .. } => true,
        },
    ensures
        index_complete(apply_rows(rows, act), apply_index(rows, index, act)),
{
    let rows2 = apply_rows(rows, act);
    let idx2 = apply_index(rows, index, act);
    match act {
        Action::Upsert { kind, id, body } => {
            assert forall|key: (EntityKind, u128)| #[trigger] rows2.contains_key(key) && natural_key_of(rows2[key]) is Some implies idx2.contains_key(
                (key.0, natural_key_of(rows2[key])->0),
            ) && idx2[(key.0, natural_key_of(rows2[key])->0)] == key.1 by {
                if key != (kind, id) {
                    let k = natural_key_of(rows[key])->0;
                    assert(rows.contains_key(key));
                    assert(index.contains_key((key.0, k)) && index[(key.0, k)] == key.1);
                    if rows.contains_key((kind, id)) && natural_key_of(rows[(kind, id)]) is Some {
                        assert(index[(kind, natural_key_of(rows[(kind, id)])->0)] == id);
                    }
                }
            }
        },
        Action::Remove { kind, id } => {
            assert forall|key: (EntityKind, u128)| #[trigger] rows2.contains_key(key) && natural_key_of(rows2[key]) is Some implies idx2.contains_key(
                (key.0, natural_key_of(rows2[key])->0),
            ) && idx2[(key.0, natural_key_of(rows2[key])->0)] == key.1 by {
                let k = natural_key_of(rows[key])->0;
                assert(rows.contains_key(key));
                assert(index.contains_key((key.0, k)) && index[(key.0, k)] == key.1);
                if rows.contains_key((kind, id)) && natural_key_of(rows[(kind, id)]) is Some {
                    assert(index[(kind, natural_key_of(rows[(kind, id)])->0)] == id);
                }
            }
        },
    }
}

/// Upserting sorted keys one by one into nothing indexes each row that has
/// a natural key under it, when no two rows of a kind share one.
proof fn lemma_upserts_build_index(keys: Seq<(EntityKind, u128)>, vals: Seq<Row>, n: int)
    requires
        sorted_by(keys, row_order()),
        keys.len() == vals.len(),
        0 <= n <= keys.len(),
        forall|i: int, j: int|
            0 <= i < j < keys.len() && keys[i].0 == keys[j].0 && (#[trigger] natural_key_of(vals[i])) is Some
                ==> #[trigger] natural_key_of(vals[j]) != natural_key_of(vals[i]),
    ensures
        forall|kk: (EntityKind, Seq<char>)|
            #[trigger] apply_all_index(Map::empty(), Map::empty(), upserts_of(keys, vals).take(n)).contains_key(kk)
                <==> exists|j: int| 0 <= j < n && keys[j].0 == kk.0 && natural_key_of(vals[j]) == Some(kk.1),
        forall|j: int|
            0 <= j < n && (#[trigger] natural_key_of(vals[j])) is Some ==> apply_all_index(
                Map::empty(),
                Map::empty(),
                upserts_of(keys, vals).take(n),
            )[(keys[j].0, natural_key_of(vals[j])->0)] == keys[j].1,
    decreases n,
{
    lemma_row_order_is_strict();
    let cp = upserts_of(keys, vals);
    if n > 0 {
        lemma_upserts_build_index(keys, vals, n - 1);
        lemma_upserts_build_map(keys, vals, n - 1);
        assert(cp.take(n).drop_last() =~= cp.take(n - 1));
        assert(cp.take(n).last() == Action::Upsert { kind: keys[n - 1].0, id: keys[n - 1].1, body: vals[n - 1] });
        let kp = keys.take(n - 1);
        let r0 = apply_all_rows(Map::empty(), cp.take(n - 1));
        let i0 = apply_all_index(Map::empty(), Map::empty(), cp.take(n - 1));
        let i1 = apply_all_index(Map::empty(), Map::empty(), cp.take(n));
        assert(!kp.contains(keys[n - 1])) by {
            if kp.contains(keys[n - 1]) {
                let j = choose|j: int| 0 <= j < kp.len() && kp[j] == keys[n - 1];
                assert(kp[j] == keys[j]);
                lemma_sorted_unique(keys, row_order(), j, n - 1);
            }
        }
        assert(!r0.contains_key(keys[n - 1]));
        assert(i1 == apply_index(r0, i0, cp.take(n).last()));
        assert forall|kk: (EntityKind, Seq<char>)| #[trigger] i1.contains_key(kk) <==> exists|j: int|
            0 <= j < n && keys[j].0 == kk.0 && natural_key_of(vals[j]) == Some(kk.1) by {
            if exists|j: int| 0 <= j < n && keys[j].0 == kk.0 && natural_key_of(vals[j]) == Some(kk.1) {
                let j = choose|j: int| 0 <= j < n && keys[j].0 == kk.0 && natural_key_of(vals[j]) == Some(kk.1);
                if j < n - 1 {
                    assert(i0.contains_key(kk));
                }
            }
            if i0.contains_key(kk) {
                let j = choose|j: int| 0 <= j < n - 1 && keys[j].0 == kk.0 && natural_key_of(vals[j]) == Some(kk.1);
            }
        }
        assert forall|j: int| 0 <= j < n && (#[trigger] natural_key_of(vals[j])) is Some implies i1[(
            keys[j].0,
            natural_key_of(vals[j])->0,
        )] == keys[j].1 by {
            let k = natural_key_of(vals[j])->0;
            if j < n - 1 {
                if keys[j].0 == keys[n - 1].0 {
                    assert(natural_key_of(vals[n - 1]) != Some(k));
                }
                assert(i0.contains_key((keys[j].0, k)));
            }
        }
    }
}

/// Upserting sorted keys one by one into nothing yields the keyed map.
proof fn lemma_upserts_build_map(keys: Seq<(EntityKind, u128)>, vals: Seq<Row>, n: int)
    requires
        sorted_by(keys, row_order()),
        keys.len() == vals.len(),
        0 <= n <= keys.len(),
    ensures
        apply_all_rows(Map::empty(), upserts_of(keys, vals).take(n)) == keyed_map(keys.take(n), vals.take(n)),
    decreases n,
{
    lemma_row_order_is_strict();
    let cp = upserts_of(keys, vals);
    if n == 0 {
        assert(keyed_map(keys.take(0), vals.take(0)) =~= Map::<(EntityKind, u128), Row>::empty());
    } else {
        lemma_upserts_build_map(keys, vals, n - 1);
        assert(cp.take(n).drop_last() =~= cp.take(n - 1));
        let kn = keys.take(n);
        let vn = vals.take(n);
        let kp = keys.take(n - 1);
        let vp = vals.take(n - 1);
        assert(sorted_by(kn, row_order()));
        assert(sorted_by(kp, row_order()));
        let lhs = keyed_map(kp, vp).insert(keys[n - 1], vals[n - 1]);
        assert(kn[n - 1] == keys[n - 1]);
        assert forall|k: (EntityKind, u128)| #[trigger] lhs.contains_key(k) == keyed_map(kn, vn).contains_key(k) by {
            if kp.contains(k) {
                let j = choose|j: int| 0 <= j < kp.len() && kp[j] == k;
                assert(kn[j] == k);
            }
            if k == keys[n - 1] {
                assert(kn.contains(k));
            }
            if kn.contains(k) {
                let j = choose|j: int| 0 <= j < kn.len() && kn[j] == k;
                if j < n - 1 {
                    assert(kp[j] == k);
                }
            }
        }
        assert forall|k: (EntityKind, u128)| #[trigger] lhs.contains_key(k) implies lhs[k] == keyed_map(kn, vn)[k] by {
            assert(keyed_map(kn, vn).contains_key(k));
            let j = choose|j: int| 0 <= j < kn.len() && kn[j] == k;
            lemma_keyed_map_at(kn, vn, row_order(), j);
            if j < n - 1 {
                lemma_keyed_map_at(kp, vp, row_order(), j);
                assert(kp[j] == k);
                if k == keys[n - 1] {
                    lemma_sorted_unique(kn, row_order(), j, n - 1);
                }
            }
        }
        assert(lhs =~= keyed_map(kn, vn));
    }
}

/// The message a checkpoint line that is not an upsert is refused with.
pub open spec fn not_upsert_message(line: nat, a: Action) -> Seq<char> {
    "checkpoint line "@ + decimal_of(line) + " is not an upsert: Remove { kind: "@ + kind_name(
        action_key(a).0,
    ) + ", id: "@ + uuid_text(action_key(a).1) + " }"@
}

impl Snapshot {
    /// The checkpoint of this snapshot: one upsert per resident row, in row
    /// order (by kind, then by id).
    pub closed spec fn checkpoint_of(self) -> Seq<Action> {
        upserts_of(self.row_keys(), self.row_vals())
    }

    /// A checkpoint is a state dump in a canonical order: only upserts, each
    /// row once, ordered by kind and then id (so two replicas checkpointing
    /// the same state write the same lines), and replaying it into an empty
    /// snapshot restores exactly the resident rows.
    pub proof fn lemma_checkpoint_restores_rows(self)
        requires
            self.wf(),
        ensures
            all_upserts(self.checkpoint_of()),
            forall|i: int, j: int|
                0 <= i < j < self.checkpoint_of().len() ==> row_lt(
                    action_key(#[trigger] self.checkpoint_of()[i]),
                    action_key(#[trigger] self.checkpoint_of()[j]),
                ),
            apply_all_rows(Map::empty(), self.checkpoint_of()) == self.rows(),
    {
        let keys = self.row_keys();
        let vals = self.row_vals();
        let cp = self.checkpoint_of();
        assert forall|i: int, j: int| 0 <= i < j < cp.len() implies row_lt(
            action_key(#[trigger] cp[i]),
            action_key(#[trigger] cp[j]),
        ) by {
            assert(action_key(cp[i]) == keys[i]);
            assert(action_key(cp[j]) == keys[j]);
            assert(row_order()(keys[i], keys[j]));
        }
        lemma_upserts_build_map(keys, vals, keys.len() as int);
        assert(cp.take(keys.len() as int) =~= cp);
        assert(keys.take(keys.len() as int) =~= keys);
        assert(vals.take(vals.len() as int) =~= vals);
    }

    /// A checkpoint also restores the natural-key index, when the index is
    /// complete: the rebuilt index names every row with a natural key under
    /// it, and nothing else. (A snapshot whose index lost a key, because two
    /// rows once shared it, is restored with the key pointing at the later
    /// of them.)
    pub proof fn lemma_checkpoint_restores_index(self)
        requires
            self.wf(),
            index_complete(self.rows(), self.index()),
        ensures
            all_well_kinded(self.checkpoint_of()),
            apply_all_index(Map::empty(), Map::empty(), self.checkpoint_of()) == self.index(),
    {
        lemma_row_order_is_strict();
        let keys = self.row_keys();
        let vals = self.row_vals();
        let cp = self.checkpoint_of();
        let rows = self.rows();
        let index = self.index();
        assert forall|i: int| 0 <= i < keys.len() implies rows.contains_key(#[trigger] keys[i]) && rows[keys[i]] == vals[i] by {
            lemma_keyed_map_at(keys, vals, row_order(), i);
        }
        assert forall|i: int| 0 <= i < cp.len() implies well_kinded(#[trigger] cp[i]) by {
            assert(rows.contains_key(keys[i]));
        }
        assert forall|i: int, j: int|
            0 <= i < j < keys.len() && keys[i].0 == keys[j].0 && (#[trigger] natural_key_of(vals[i])) is Some
                implies #[trigger] natural_key_of(vals[j]) != natural_key_of(vals[i]) by {
            let k = natural_key_of(vals[i])->0;
            if natural_key_of(vals[j]) == Some(k) {
                assert(rows.contains_key(keys[i]) && rows[keys[i]] == vals[i]);
                assert(rows.contains_key(keys[j]) && rows[keys[j]] == vals[j]);
                assert(index[(keys[i].0, k)] == keys[i].1);
                assert(index[(keys[j].0, k)] == keys[j].1);
                assert(keys[i] == keys[j]);
                lemma_sorted_unique(keys, row_order(), i, j);
            }
        }
        lemma_upserts_build_index(keys, vals, keys.len() as int);
        assert(cp.take(keys.len() as int) =~= cp);
        let rebuilt = apply_all_index(Map::empty(), Map::empty(), cp);
        assert forall|kk: (EntityKind, Seq<char>)| #[trigger] rebuilt.contains_key(kk) <==> index.contains_key(kk) by {
            if rebuilt.contains_key(kk) {
                let j = choose|j: int| 0 <= j < keys.len() && keys[j].0 == kk.0 && natural_key_of(vals[j]) == Some(kk.1);
                assert(rows.contains_key(keys[j]) && rows[keys[j]] == vals[j]);
            }
            if index.contains_key(kk) {
                let key = (kk.0, index[kk]);
                assert(rows.contains_key(key));
                assert(keys.contains(key));
                let j = choose|j: int| 0 <= j < keys.len() && keys[j] == key;
                assert(rows[keys[j]] == vals[j]);
                assert(natural_key_of(vals[j]) == Some(kk.1));
            }
        }
        assert forall|kk: (EntityKind, Seq<char>)| #[trigger] rebuilt.contains_key(kk) implies rebuilt[kk] == index[kk] by {
            let j = choose|j: int| 0 <= j < keys.len() && keys[j].0 == kk.0 && natural_key_of(vals[j]) == Some(kk.1);
            assert(rows.contains_key(keys[j]) && rows[keys[j]] == vals[j]);
            assert(natural_key_of(vals[j]) is Some);
            assert(rebuilt[(keys[j].0, natural_key_of(vals[j])->0)] == keys[j].1);
        }
        assert(rebuilt =~= index);
    }

    /// The checkpoint lines of this snapshot.
    pub fn checkpoint_lines(&self) -> (r: Vec<Action>)
        requires
            self.wf(),
        ensures
            r@ == self.checkpoint_of(),
    {
        let mut out: Vec<Action> = Vec::new();
        let mut i: usize = 0;
        while i < self.rows.len()
            invariant
                i <= self.rows@.len(),
                out@ == self.checkpoint_of().take(i as int),
            decreases self.rows@.len() - i,
        {
            let e = &self.rows[i];
            out.push(Action::Upsert { kind: e.kind, id: e.id, body: e.row.clone() });
            proof {
                assert(out@ =~= self.checkpoint_of().take(i as int + 1));
            }
            i = i + 1;
        }
        assert(out@ =~= self.checkpoint_of());
        out
    }

    /// Rebuild a snapshot from checkpoint lines. The natural-key index is
    /// recomputed from the rows rather than stored. A line that is not an
    /// upsert means writer and reader disagree about the format, and is
    /// refused.
    pub fn from_checkpoint(lines: &[Action]) -> (r: Result<Snapshot, UcError>)
        requires
            lines@.len() < u64::MAX,
            all_well_kinded(lines@),
        ensures
            all_upserts(lines@) <==> r is Ok,
            match r {
                Ok(s) => {
                    &&& s.wf()
                    &&& s.at_version() == 0
                    &&& s.rows() == apply_all_rows(Map::empty(), lines@)
                    &&& s.index() == apply_all_index(Map::empty(), Map::empty(), lines@)
                },
                Err(e) => exists|n: int|
                    {
                        &&& 0 <= n < lines@.len()
                        &&& lines@[n] is Remove
                        &&& forall|m: int| 0 <= m < n ==> (#[trigger] lines@[m]) is Upsert
                        &&& e.code == ErrorCode::Internal
                        &&& e.message@ == not_upsert_message((n + 1) as nat, lines@[n])
                    },
            },
    {
        let mut i: usize = 0;
        while i < lines.len()
            invariant
                i <= lines@.len(),
                lines@.len() < u64::MAX,
                forall|m: int| 0 <= m < i ==> (#[trigger] lines@[m]) is Upsert,
            decreases lines@.len() - i,
        {
            match &lines[i] {
                Action::Upsert { .. } => {},
                Action::Remove { kind, id } => {
                    let mut msg = chars_of("checkpoint line ");
                    append_chars(&mut msg, decimal_chars((i as u128) + 1).as_slice());
                    append_chars(&mut msg, chars_of(" is not an upsert: Remove { kind: ").as_slice());
                    append_chars(&mut msg, chars_of(kind.name()).as_slice());
                    append_chars(&mut msg, chars_of(", id: ").as_slice());
                    append_chars(&mut msg, chars_of(uuid_string(*id).as_str()).as_slice());
                    append_chars(&mut msg, chars_of(" }").as_slice());
                    let e = UcError::with_message(ErrorCode::Internal, string_of(msg.as_slice()));
                    proof {
                        assert(e.message@ =~= not_upsert_message((i + 1) as nat, lines@[i as int]));
                    }
                    return Err(e);
                },
            }
            i = i + 1;
        }
        let mut s = Snapshot::new();
        s.apply_all(lines);
        Ok(s)
    }
}

/// Read after write: once an upsert is applied, the row is present under its
/// id with exactly the written body, and, when its kind has a natural key,
/// that key resolves to its id.
pub proof fn lemma_upsert_is_readable(
    rows: Map<(EntityKind, u128), Row>,
    index: Map<(EntityKind, Seq<char>), u128>,
    kind: EntityKind,
    id: u128,
    body: Row,
)
    ensures
        apply_rows(rows, Action::Upsert { kind, id, body }).contains_key((kind, id)),
        apply_rows(rows, Action::Upsert { kind, id, body })[(kind, id)] == body,
        natural_key_of(body) matches Some(k) ==> {
            &&& apply_index(rows, index, Action::Upsert { kind, id, body }).contains_key((kind, k))
            &&& apply_index(rows, index, Action::Upsert { kind, id, body })[(kind, k)] == id
        },
{
}

/// A rename frees the old name: when an upsert changes a row's natural key,
/// the old key no longer resolves to anything, so the old name stays neither
/// reachable nor taken.
pub proof fn lemma_rename_frees_old_key(
    rows: Map<(EntityKind, u128), Row>,
    index: Map<(EntityKind, Seq<char>), u128>,
    kind: EntityKind,
    id: u128,
    body: Row,
    old_key: Seq<char>,
)
    requires
        rows.contains_key((kind, id)),
        natural_key_of(rows[(kind, id)]) == Some(old_key),
        natural_key_of(body) != Some(old_key),
    ensures
        !apply_index(rows, index, Action::Upsert { kind, id, body }).contains_key((kind, old_key)),
{
}

/// A removal leaves nothing behind: the row is gone, and no natural key of
/// its kind resolves to its id any more.
pub proof fn lemma_removed_row_is_unreachable(s: Snapshot, kind: EntityKind, id: u128)
    requires
        s.wf(),
        !s.rows().contains_key((kind, id)),
    ensures
        forall|k: Seq<char>| #[trigger] s.index().contains_key((kind, k)) ==> s.index()[(kind, k)] != id,
{
    assert forall|k: Seq<char>| #[trigger] s.index().contains_key((kind, k)) implies s.index()[(kind, k)] != id by {
        assert(s.rows().contains_key(((kind, k).0, s.index()[(kind, k)])));
    }
}

} // verus!
