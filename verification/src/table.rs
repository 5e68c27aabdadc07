//! A table from byte strings to values, kept in ascending order of its keys.
use vstd::prelude::*;

use crate::asn1::copy_of;
use crate::order::{bytes_less, lex_less};
use crate::text::bytes_eq;

verus! {

/// The keys stand in strictly ascending order, each beside its value.
pub struct Table<V> {
    keys: Vec<Vec<u8>>,
    values: Vec<V>,
}

impl<V> Table<V> {
    /// As many keys as values, the keys strictly ascending.
    pub closed spec fn wf(self) -> bool {
        &&& self.keys@.len() == self.values@.len()
        &&& forall|i: int, j: int|
            0 <= i < j < self.keys@.len() ==> lex_less(
                (#[trigger] self.keys@[i])@,
                (#[trigger] self.keys@[j])@,
            )
    }

    /// How many keys there are.
    pub closed spec fn len(self) -> nat {
        self.keys@.len()
    }

    /// The key at a position.
    pub closed spec fn key_at(self, i: int) -> Seq<u8> {
        self.keys@[i]@
    }

    /// The value at a position.
    pub closed spec fn value_at(self, i: int) -> V {
        self.values@[i]
    }

    /// The key is in the table.
    pub open spec fn has(self, key: Seq<u8>) -> bool {
        exists|i: int| 0 <= i < self.len() && #[trigger] self.key_at(i) == key
    }

    /// The position of a key.
    pub open spec fn position(self, key: Seq<u8>) -> int {
        choose|i: int| 0 <= i < self.len() && #[trigger] self.key_at(i) == key
    }

    /// The table as a map.
    pub open spec fn map(self) -> Map<Seq<u8>, V> {
        Map::new(|key: Seq<u8>| self.has(key), |key: Seq<u8>| self.value_at(self.position(key)))
    }

    /// The keys ascend, so that each has one position.
    pub proof fn ascends(self)
        requires
            self.wf(),
        ensures
            forall|i: int, j: int|
                0 <= i < j < self.len() ==> lex_less(
                    #[trigger] self.key_at(i),
                    #[trigger] self.key_at(j),
                ),
            forall|i: int| 0 <= i < self.len() ==> self.position(#[trigger] self.key_at(i)) == i,
            forall|i: int|
                0 <= i < self.len() ==> self.map().dom().contains(#[trigger] self.key_at(i))
                    && self.map()[self.key_at(i)] == self.value_at(i),
    {
        assert forall|i: int, j: int| 0 <= i < j < self.len() implies lex_less(
            #[trigger] self.key_at(i),
            #[trigger] self.key_at(j),
        ) by {
            assert(lex_less(self.keys@[i]@, self.keys@[j]@));
        }
        assert forall|i: int| 0 <= i < self.len() implies self.position(#[trigger] self.key_at(i))
            == i by {
            let p = self.position(self.key_at(i));
            assert(self.key_at(p) == self.key_at(i));
            crate::order::lex_irreflexive(self.key_at(i));
            if p < i {
                assert(lex_less(self.key_at(p), self.key_at(i)));
            } else if i < p {
                assert(lex_less(self.key_at(i), self.key_at(p)));
            }
        }
    }

    /// A table without keys.
    pub fn new() -> (r: Table<V>)
        ensures
            r.wf(),
            r.len() == 0,
            r.map() == Map::<Seq<u8>, V>::empty(),
    {
        let r = Table { keys: Vec::new(), values: Vec::new() };
        assert(r.map() =~= Map::<Seq<u8>, V>::empty());
        r
    }

    /// The number of keys.
    pub fn count(&self) -> (r: usize)
        ensures
            r == self.len(),
    {
        self.keys.len()
    }

    /// The value at a position.
    pub fn value(&self, i: usize) -> (r: &V)
        requires
            self.wf(),
            i < self.len(),
        ensures
            *r == self.value_at(i as int),
    {
        &self.values[i]
    }

    /// The first position whose key is not below the given one.
    fn lower_bound(&self, key: &[u8]) -> (r: usize)
        requires
            self.wf(),
        ensures
            r <= self.len(),
            forall|i: int| 0 <= i < r ==> lex_less((#[trigger] self.keys@[i])@, key@),
            r < self.len() ==> !lex_less(self.keys@[r as int]@, key@),
    {
        let mut p: usize = 0;
        while p < self.keys.len() && bytes_less(self.keys[p].as_slice(), key)
            invariant
                p <= self.keys@.len(),
                forall|i: int| 0 <= i < p ==> lex_less((#[trigger] self.keys@[i])@, key@),
            decreases self.keys.len() - p,
        {
            p += 1;
        }
        p
    }

    /// The value of a key.
    pub fn get(&self, key: &[u8]) -> (r: Option<&V>)
        requires
            self.wf(),
        ensures
            match r {
                Some(v) => self.map().dom().contains(key@) && *v == self.map()[key@],
                None => !self.map().dom().contains(key@),
            },
    {
        let p = self.lower_bound(key);
        proof {
            self.ascends();
        }
        if p < self.keys.len() && bytes_eq(self.keys[p].as_slice(), key) {
            assert(self.key_at(p as int) == key@);
            Some(&self.values[p])
        } else {
            proof {
                self.absent(key@, p as int);
            }
            None
        }
    }

    proof fn absent(self, key: Seq<u8>, p: int)
        requires
            self.wf(),
            0 <= p <= self.len(),
            forall|i: int| 0 <= i < p ==> lex_less((#[trigger] self.keys@[i])@, key),
            p < self.len() ==> !lex_less(self.keys@[p]@, key) && self.keys@[p]@ != key,
        ensures
            !self.has(key),
            forall|i: int| p <= i < self.len() ==> lex_less(key, (#[trigger] self.keys@[i])@),
    {
        assert forall|i: int| p <= i < self.len() implies lex_less(
            key,
            (#[trigger] self.keys@[i])@,
        ) by {
            crate::order::lex_total(self.keys@[p]@, key);
            if i > p {
                assert(lex_less(self.keys@[p]@, self.keys@[i]@));
                crate::order::lex_transitive(key, self.keys@[p]@, self.keys@[i]@);
            }
        }
        if self.has(key) {
            let i = self.position(key);
            assert(self.key_at(i) == key);
            crate::order::lex_irreflexive(key);
            if i < p {
                assert(lex_less(self.keys@[i]@, key));
            } else {
                assert(lex_less(key, self.keys@[i]@));
            }
        }
    }

    /// Sets the value of a key, which is new or not.
    pub fn insert(&mut self, key: &[u8], value: V)
        requires
            old(self).wf(),
        ensures
            final(self).wf(),
            final(self).map() == old(self).map().insert(key@, value),
    {
        let ghost before = *self;
        let p = self.lower_bound(key);
        proof {
            before.ascends();
        }
        if p < self.keys.len() && bytes_eq(self.keys[p].as_slice(), key) {
            self.values.set(p, value);
            proof {
                let after = *self;
                assert(forall|i: int| after.key_at(i) == before.key_at(i));
                assert(before.key_at(p as int) == key@);
                after.ascends();
                assert forall|k: Seq<u8>| after.has(k) <==> before.has(k) by {
                    if after.has(k) {
                        assert(before.key_at(after.position(k)) == k);
                    }
                    if before.has(k) {
                        assert(after.key_at(before.position(k)) == k);
                    }
                }
                assert forall|k: Seq<u8>| after.has(k) implies after.map()[k]
                    == before.map().insert(key@, value)[k] by {
                    let i = after.position(k);
                    assert(after.key_at(i) == k);
                    assert(before.key_at(i) == k);
                    assert(before.position(before.key_at(i)) == i);
                    if i != p {
                        assert(before.position(before.key_at(p as int)) == p);
                        assert(k != key@);
                        assert(after.value_at(i) == before.value_at(i));
                    }
                }
                assert(before.has(key@));
                assert(after.map() =~= before.map().insert(key@, value));
            }
        } else {
            proof {
                before.absent(key@, p as int);
            }
            let owned = copy_of(key);
            self.keys.insert(p, owned);
            self.values.insert(p, value);
            proof {
                let after = *self;
                assert(after.keys@ == before.keys@.insert(p as int, owned));
                assert(after.values@ == before.values@.insert(p as int, value));
                assert forall|i: int, j: int| 0 <= i < j < after.keys@.len() implies lex_less(
                    (#[trigger] after.keys@[i])@,
                    (#[trigger] after.keys@[j])@,
                ) by {
                    let oi = if i < p { i } else { i - 1 };
                    let oj = if j < p { j } else { j - 1 };
                    if i == p {
                        assert(after.keys@[j] == before.keys@[oj]);
                        assert(lex_less(key@, before.keys@[oj]@));
                    } else if j == p {
                        assert(after.keys@[i] == before.keys@[oi]);
                        assert(lex_less(before.keys@[oi]@, key@));
                    } else {
                        assert(after.keys@[i] == before.keys@[oi]);
                        assert(after.keys@[j] == before.keys@[oj]);
                        assert(lex_less(before.keys@[oi]@, before.keys@[oj]@));
                    }
                }
                after.ascends();
                assert(after.key_at(p as int) == key@);
                assert forall|k: Seq<u8>| after.has(k) <==> before.has(k) || k == key@ by {
                    if after.has(k) {
                        let i = after.position(k);
                        assert(after.key_at(i) == k);
                        if i != p {
                            assert(before.key_at(if i < p { i } else { i - 1 }) == k);
                        }
                    }
                    if before.has(k) {
                        let i = before.position(k);
                        assert(before.key_at(i) == k);
                        assert(after.key_at(if i < p { i } else { i + 1 }) == k);
                    }
                }
                assert forall|k: Seq<u8>| after.has(k) implies after.map()[k]
                    == before.map().insert(key@, value)[k] by {
                    let i = after.position(k);
                    assert(after.key_at(i) == k);
                    if i != p {
                        let o = if i < p { i } else { i - 1 };
                        assert(before.key_at(o) == k);
                        assert(before.position(before.key_at(o)) == o);
                        assert(after.position(after.key_at(p as int)) == p);
                        assert(k != key@);
                        assert(after.value_at(i) == before.value_at(o));
                    }
                }
                assert(after.map() =~= before.map().insert(key@, value));
            }
        }
    }
}

} // verus!
