//! An in-memory object log: the reference implementation of the log's
//! contract. A conditional put never overwrites, and a listing is exclusive
//! of its cursor and in key order.

use crate::errors::UcError;
use crate::store::log::{drained, wanted, ObjectLog, PutResult};
use crate::store::sorted::{
    keyed_map, lemma_keyed_map_at, lemma_keyed_map_insert, lemma_keyed_map_remove,
    lemma_keyed_map_update, sorted_by, strict_order,
};
use crate::text::{
    chars_of, has_prefix, lemma_lex_irreflexive, lemma_lex_transitive, lex_compare, lex_lt,
    starts_with, string_of, KeyOrder,
};
use vstd::prelude::*;

verus! {

pub open spec fn lex_order() -> spec_fn(Seq<char>, Seq<char>) -> bool {
    |a: Seq<char>, b: Seq<char>| lex_lt(a, b)
}

pub proof fn lemma_lex_order_is_strict()
    ensures
        strict_order(lex_order()),
{
    assert forall|a: Seq<char>| !(#[trigger] lex_order()(a, a)) by {
        lemma_lex_irreflexive(a);
    }
    assert forall|a: Seq<char>, b: Seq<char>, c: Seq<char>|
        #[trigger] lex_order()(a, b) && #[trigger] lex_order()(b, c) implies lex_order()(a, c) by {
        lemma_lex_transitive(a, b, c);
    }
}

/// The keys of `keys` that start with `prefix` and sort strictly after
/// `after`, in order.
pub open spec fn keys_after(keys: Seq<Seq<char>>, prefix: Seq<char>, after: Seq<char>) -> Seq<Seq<char>>
    decreases keys.len(),
{
    if keys.len() == 0 {
        Seq::empty()
    } else {
        let init = keys_after(keys.drop_last(), prefix, after);
        if starts_with(keys.last(), prefix) && lex_lt(after, keys.last()) {
            init.push(keys.last())
        } else {
            init
        }
    }
}

struct Object {
    key: Vec<char>,
    body: Vec<u8>,
}

/// Objects held in memory, in key order.
pub struct MemoryLog {
    objects: Vec<Object>,
}

impl MemoryLog {
    pub closed spec fn keys(self) -> Seq<Seq<char>> {
        self.objects@.map_values(|o: Object| o.key@)
    }

    pub closed spec fn bodies(self) -> Seq<Seq<u8>> {
        self.objects@.map_values(|o: Object| o.body@)
    }

    /// The stored objects, by key.
    pub closed spec fn contents(self) -> Map<Seq<char>, Seq<u8>> {
        keyed_map(self.keys(), self.bodies())
    }

    pub closed spec fn wf(self) -> bool {
        sorted_by(self.keys(), lex_order())
    }

    /// The stored keys in order describe the contents.
    pub proof fn lemma_keys_describe_contents(self)
        requires
            self.wf(),
        ensures
            self.contents().dom() == self.keys().to_set(),
            self.keys().no_duplicates(),
            self.contents().dom().len() == self.keys().len(),
    {
        lemma_lex_order_is_strict();
        assert(self.contents().dom() =~= self.keys().to_set());
        assert forall|i: int, j: int| 0 <= i < self.keys().len() && 0 <= j < self.keys().len() && i != j implies self.keys()[i]
            != self.keys()[j] by {
            if self.keys()[i] == self.keys()[j] {
                crate::store::sorted::lemma_sorted_unique(self.keys(), lex_order(), i, j);
            }
        }
        self.keys().unique_seq_to_set();
    }

    pub fn new() -> (m: MemoryLog)
        ensures
            m.wf(),
            m.contents() == Map::<Seq<char>, Seq<u8>>::empty(),
    {
        let m = MemoryLog { objects: Vec::new() };
        assert(m.contents() =~= Map::<Seq<char>, Seq<u8>>::empty());
        m
    }

    /// The number of stored objects.
    pub fn len(&self) -> (n: usize)
        requires
            self.wf(),
        ensures
            n == self.contents().dom().len(),
    {
        proof {
            self.lemma_keys_describe_contents();
        }
        self.objects.len()
    }

    pub fn is_empty(&self) -> (b: bool)
        requires
            self.wf(),
        ensures
            b == (self.contents().dom().len() == 0),
    {
        self.len() == 0
    }

    fn find(&self, key: &[char]) -> (r: (usize, bool))
        requires
            self.wf(),
        ensures
            r.0 <= self.objects@.len(),
            forall|j: int| 0 <= j < r.0 ==> lex_lt(#[trigger] self.keys()[j], key@),
            r.1 ==> r.0 < self.objects@.len() && self.keys()[r.0 as int] == key@,
            !r.1 ==> forall|j: int| r.0 <= j < self.objects@.len() ==> lex_lt(key@, #[trigger] self.keys()[j]),
            !r.1 ==> !self.contents().contains_key(key@),
    {
        proof {
            lemma_lex_order_is_strict();
        }
        let mut i: usize = 0;
        while i < self.objects.len()
            invariant
                self.wf(),
                strict_order(lex_order()),
                i <= self.objects@.len(),
                forall|j: int| 0 <= j < i ==> lex_lt(#[trigger] self.keys()[j], key@),
            decreases self.objects@.len() - i,
        {
            let c = lex_compare(self.objects[i].key.as_slice(), key);
            match c {
                KeyOrder::Less => {},
                _ => {
                    proof {
                        assert forall|j: int| i < j < self.objects@.len() implies lex_lt(key@, #[trigger] self.keys()[j]) by {
                            assert(lex_order()(self.keys()[i as int], self.keys()[j]));
                            if c == KeyOrder::Greater {
                                assert(lex_order()(key@, self.keys()[i as int]));
                            }
                        }
                        if c == KeyOrder::Greater {
                            self.lemma_absent(key@, i as int);
                        }
                    }
                    return (i, c == KeyOrder::Equal);
                },
            }
            i = i + 1;
        }
        proof {
            self.lemma_absent(key@, i as int);
        }
        (i, false)
    }

    proof fn lemma_absent(self, key: Seq<char>, pos: int)
        requires
            self.wf(),
            0 <= pos <= self.keys().len(),
            forall|j: int| 0 <= j < pos ==> lex_lt(#[trigger] self.keys()[j], key),
            forall|j: int| pos <= j < self.keys().len() ==> lex_lt(key, #[trigger] self.keys()[j]),
        ensures
            !self.contents().contains_key(key),
    {
        lemma_lex_order_is_strict();
        if self.contents().contains_key(key) {
            let j = choose|j: int| 0 <= j < self.keys().len() && self.keys()[j] == key;
            if j < pos {
                assert(lex_order()(key, key));
            } else {
                assert(lex_order()(key, key));
            }
        }
    }

    /// Create `key` with `body` unless it exists. Never overwrites: an existing
    /// object is left as it was and reported.
    pub fn create_if_absent(&mut self, key: &str, body: Vec<u8>) -> (r: PutResult)
        requires
            old(self).wf(),
        ensures
            final(self).wf(),
            old(self).contents().contains_key(key@) ==> r == PutResult::AlreadyExists && final(self).contents() == old(self).contents(),
            !old(self).contents().contains_key(key@) ==> r == PutResult::Created && final(self).contents() == old(self).contents().insert(key@, body@),
    {
        let k = chars_of(key);
        let (pos, found) = self.find(k.as_slice());
        proof {
            lemma_lex_order_is_strict();
        }
        if found {
            proof {
                lemma_keyed_map_at(self.keys(), self.bodies(), lex_order(), pos as int);
            }
            return PutResult::AlreadyExists;
        }
        let ghost keys = self.keys();
        let ghost bodies = self.bodies();
        let ghost b = body@;
        proof {
            lemma_keyed_map_insert(keys, bodies, lex_order(), pos as int, k@, b);
        }
        self.objects.insert(pos, Object { key: k, body });
        assert(self.keys() =~= keys.insert(pos as int, key@));
        assert(self.bodies() =~= bodies.insert(pos as int, b));
        PutResult::Created
    }

    /// The body stored under `key`, if any.
    pub fn read(&self, key: &str) -> (r: Option<Vec<u8>>)
        requires
            self.wf(),
        ensures
            match r {
                Some(b) => self.contents().contains_key(key@) && b@ == self.contents()[key@],
                None => !self.contents().contains_key(key@),
            },
    {
        let k = chars_of(key);
        let (pos, found) = self.find(k.as_slice());
        if found {
            proof {
                lemma_lex_order_is_strict();
                lemma_keyed_map_at(self.keys(), self.bodies(), lex_order(), pos as int);
            }
            Some(self.objects[pos].body.clone())
        } else {
            None
        }
    }

    /// Store `body` under `key`, replacing any existing object.
    pub fn write(&mut self, key: &str, body: Vec<u8>)
        requires
            old(self).wf(),
        ensures
            final(self).wf(),
            final(self).contents() == old(self).contents().insert(key@, body@),
    {
        let k = chars_of(key);
        let (pos, found) = self.find(k.as_slice());
        proof {
            lemma_lex_order_is_strict();
        }
        let ghost keys = self.keys();
        let ghost bodies = self.bodies();
        let ghost b = body@;
        if found {
            proof {
                lemma_keyed_map_update(keys, bodies, lex_order(), pos as int, b);
            }
            self.objects.set(pos, Object { key: k, body });
            assert(self.keys() =~= keys);
            assert(self.bodies() =~= bodies.update(pos as int, b));
        } else {
            proof {
                lemma_keyed_map_insert(keys, bodies, lex_order(), pos as int, k@, b);
            }
            self.objects.insert(pos, Object { key: k, body });
            assert(self.keys() =~= keys.insert(pos as int, key@));
            assert(self.bodies() =~= bodies.insert(pos as int, b));
        }
    }

    /// Remove an object, returning its body, to simulate a hole or a pruned
    /// commit.
    pub fn remove(&mut self, key: &str) -> (r: Option<Vec<u8>>)
        requires
            old(self).wf(),
        ensures
            final(self).wf(),
            final(self).contents() == old(self).contents().remove(key@),
            match r {
                Some(b) => old(self).contents().contains_key(key@) && b@ == old(self).contents()[key@],
                None => !old(self).contents().contains_key(key@),
            },
    {
        let k = chars_of(key);
        let (pos, found) = self.find(k.as_slice());
        proof {
            lemma_lex_order_is_strict();
        }
        if !found {
            assert(self.contents().remove(key@) =~= self.contents());
            return None;
        }
        let ghost keys = self.keys();
        let ghost bodies = self.bodies();
        proof {
            lemma_keyed_map_at(keys, bodies, lex_order(), pos as int);
            lemma_keyed_map_remove(keys, bodies, lex_order(), pos as int);
        }
        let o = self.objects.remove(pos);
        assert(self.keys() =~= keys.remove(pos as int));
        assert(self.bodies() =~= bodies.remove(pos as int));
        Some(o.body)
    }

    /// The keys under `prefix` that sort strictly after `start_after`, in key
    /// order. Returns the whole set in one page.
    pub fn keys_page(&self, prefix: &str, start_after: &str) -> (r: Vec<String>)
        requires
            self.wf(),
        ensures
            r@.map_values(|k: String| k@) == keys_after(self.keys(), prefix@, start_after@),
    {
        let p = chars_of(prefix);
        let a = chars_of(start_after);
        let ghost keys = self.keys();
        let mut out: Vec<String> = Vec::new();
        let mut i: usize = 0;
        assert(keys.take(0) =~= Seq::<Seq<char>>::empty());
        assert(out@.map_values(|k: String| k@) =~= Seq::<Seq<char>>::empty());
        while i < self.objects.len()
            invariant
                keys == self.keys(),
                i <= keys.len(),
                keys.len() == self.objects@.len(),
                p@ == prefix@,
                a@ == start_after@,
                out@.map_values(|k: String| k@) == keys_after(keys.take(i as int), prefix@, start_after@),
            decreases keys.len() - i,
        {
            proof {
                assert(keys.take(i as int + 1).drop_last() =~= keys.take(i as int));
                assert(keys.take(i as int + 1).last() == keys[i as int]);
            }
            let key = &self.objects[i].key;
            if has_prefix(key.as_slice(), p.as_slice()) && lex_compare(a.as_slice(), key.as_slice()) == KeyOrder::Less {
                let ghost out0 = out@;
                out.push(string_of(key.as_slice()));
                assert(out@.map_values(|k: String| k@) =~= out0.map_values(|k: String| k@).push(keys[i as int]));
            }
            i = i + 1;
        }
        assert(keys.take(i as int) =~= keys);
        out
    }
}

/// A listing is in strictly increasing key order.
pub proof fn lemma_keys_after_sorted(keys: Seq<Seq<char>>, prefix: Seq<char>, after: Seq<char>)
    requires
        sorted_by(keys, lex_order()),
    ensures
        sorted_by(keys_after(keys, prefix, after), lex_order()),
        forall|i: int| 0 <= i < keys_after(keys, prefix, after).len() ==> keys.contains(#[trigger] keys_after(keys, prefix, after)[i]),
    decreases keys.len(),
{
    if keys.len() > 0 {
        let pk = keys.drop_last();
        lemma_keys_after_sorted(pk, prefix, after);
        let init = keys_after(pk, prefix, after);
        let r = keys_after(keys, prefix, after);
        assert forall|i: int| 0 <= i < init.len() implies keys.contains(#[trigger] init[i]) by {
            let j = choose|j: int| 0 <= j < pk.len() && pk[j] == init[i];
            assert(keys[j] == init[i]);
        }
        assert forall|i: int| 0 <= i < r.len() implies keys.contains(#[trigger] r[i]) by {
            if i < init.len() {
                assert(r[i] == init[i]);
            } else {
                assert(keys[keys.len() - 1] == r[i]);
            }
        }
        assert forall|i: int, j: int| 0 <= i < j < r.len() implies lex_order()(r[i], r[j]) by {
            if j < init.len() {
                assert(r[i] == init[i] && r[j] == init[j]);
            } else {
                assert(r[i] == init[i]);
                let x = choose|x: int| 0 <= x < pk.len() && pk[x] == init[i];
                assert(keys[x] == r[i]);
                assert(lex_order()(keys[x], keys[keys.len() - 1]));
            }
        }
    }
}

/// A listing holds exactly the keys that start with the prefix and sort
/// after the cursor.
pub proof fn lemma_keys_after_exact(keys: Seq<Seq<char>>, prefix: Seq<char>, after: Seq<char>)
    ensures
        forall|i: int|
            0 <= i < keys_after(keys, prefix, after).len() ==> starts_with(
                #[trigger] keys_after(keys, prefix, after)[i],
                prefix,
            ) && lex_lt(after, keys_after(keys, prefix, after)[i]),
        forall|k: Seq<char>|
            #[trigger] keys.contains(k) && starts_with(k, prefix) && lex_lt(after, k) ==> keys_after(keys, prefix, after).contains(k),
    decreases keys.len(),
{
    if keys.len() > 0 {
        let pk = keys.drop_last();
        lemma_keys_after_exact(pk, prefix, after);
        let init = keys_after(pk, prefix, after);
        let r = keys_after(keys, prefix, after);
        assert forall|i: int| 0 <= i < r.len() implies starts_with(#[trigger] r[i], prefix) && lex_lt(after, r[i]) by {
            if i < init.len() {
                assert(r[i] == init[i]);
            }
        }
        assert forall|k: Seq<char>| #[trigger] keys.contains(k) && starts_with(k, prefix) && lex_lt(after, k) implies r.contains(k) by {
            let j = choose|j: int| 0 <= j < keys.len() && keys[j] == k;
            if j < pk.len() {
                assert(pk[j] == k);
                assert(pk.contains(k));
                let m = choose|m: int| 0 <= m < init.len() && init[m] == k;
                assert(r[m] == k);
            } else {
                assert(r[r.len() - 1] == k);
            }
        }
    }
}

impl ObjectLog for MemoryLog {
    open spec fn objects(&self) -> Map<Seq<char>, Seq<u8>> {
        self.contents()
    }

    open spec fn inv(&self) -> bool {
        self.wf()
    }

    fn put_if_absent(&mut self, key: &str, body: Vec<u8>) -> (r: Result<PutResult, UcError>)
        ensures
            r == Ok::<PutResult, UcError>(
                if old(self).objects().contains_key(key@) {
                    PutResult::AlreadyExists
                } else {
                    PutResult::Created
                },
            ),
    {
        Ok(MemoryLog::create_if_absent(self, key, body))
    }

    fn get(&self, key: &str) -> (r: Result<Option<Vec<u8>>, UcError>)
        ensures
            r is Ok,
    {
        Ok(MemoryLog::read(self, key))
    }

    fn list_after(&self, prefix: &str, start_after: &str) -> (r: Result<Vec<String>, UcError>)
        ensures
            r matches Ok(keys) && keys@.map_values(|k: String| k@) == keys_after(self.keys(), prefix@, start_after@),
            r matches Ok(keys) && drained(self.objects(), prefix@, start_after@, None, keys@.map_values(|k: String| k@)),
    {
        let keys = MemoryLog::keys_page(self, prefix, start_after);
        proof {
            let page = keys@.map_values(|k: String| k@);
            let all = keys_after(self.keys(), prefix@, start_after@);
            assert(page == all);
            lemma_keys_after_sorted(self.keys(), prefix@, start_after@);
            lemma_keys_after_exact(self.keys(), prefix@, start_after@);
            self.lemma_keys_describe_contents();
            assert forall|i: int| 0 <= i < page.len() implies self.contents().contains_key(#[trigger] page[i]) by {
                assert(self.keys().contains(all[i]));
                assert(self.keys().to_set().contains(all[i]));
            }
            assert forall|k: Seq<char>| #[trigger] self.contents().contains_key(k) && starts_with(k, prefix@) && lex_lt(start_after@, k) implies page.contains(k) by {
                assert(self.keys().to_set().contains(k));
                assert(self.keys().contains(k));
            }
            assert forall|i: int, j: int| 0 <= i < j < page.len() implies lex_lt(#[trigger] page[i], #[trigger] page[j]) by {
                assert(lex_order()(all[i], all[j]));
            }
            assert forall|k: Seq<char>| #[trigger] page.contains(k) <==> wanted(self.objects(), prefix@, start_after@, None, k) by {
                if page.contains(k) {
                    let i = choose|i: int| 0 <= i < page.len() && page[i] == k;
                    assert(self.contents().contains_key(page[i]));
                }
            }
        }
        Ok(keys)
    }

    fn put(&mut self, key: &str, body: Vec<u8>) -> (r: Result<(), UcError>)
        ensures
            r is Ok,
    {
        MemoryLog::write(self, key, body);
        Ok(())
    }
}

} // verus!
