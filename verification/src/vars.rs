//! The variable table of one task activation: a mapping from argument names
//! to resolved string values, modelled as a `Map<Seq<char>, Seq<char>>`.
//!
//! The table is kept as an association list with unique keys, so that every
//! operation has an exact map-level contract.
use vstd::prelude::*;

verus! {

/// The map described by an association list, later entries winning.
pub open spec fn pairs_as_map(pairs: Seq<(Seq<char>, Seq<char>)>) -> Map<Seq<char>, Seq<char>>
    decreases pairs.len(),
{
    if pairs.len() == 0 {
        Map::empty()
    } else {
        pairs_as_map(pairs.drop_last()).insert(pairs.last().0, pairs.last().1)
    }
}

/// Compares two strings character for character.
pub fn string_eq(a: &String, b: &String) -> (r: bool)
    ensures
        r == (a@ == b@),
{
    *a == *b
}

/// A table of argument name / value bindings with unique names.
#[derive(Debug)]
pub struct VarMap {
    pairs: Vec<(String, String)>,
}

impl View for VarMap {
    type V = Map<Seq<char>, Seq<char>>;

    closed spec fn view(&self) -> Map<Seq<char>, Seq<char>> {
        pairs_as_map(self.pairs.deep_view())
    }
}

impl VarMap {
    /// The entries in insertion order.
    pub closed spec fn spec_pairs(&self) -> Seq<(Seq<char>, Seq<char>)> {
        self.pairs.deep_view()
    }

    /// No two entries share a name.
    pub open spec fn wf(&self) -> bool {
        forall|i: int, j: int|
            0 <= i < j < self.spec_pairs().len() ==> self.spec_pairs()[i].0
                != self.spec_pairs()[j].0
    }

    /// An empty table.
    pub fn new() -> (r: VarMap)
        ensures
            r@ == Map::<Seq<char>, Seq<char>>::empty(),
            r.spec_pairs() == Seq::<(Seq<char>, Seq<char>)>::empty(),
            r.wf(),
    {
        let r = VarMap { pairs: Vec::new() };
        proof {
            assert(r.pairs.deep_view() =~= Seq::<(Seq<char>, Seq<char>)>::empty());
        }
        r
    }

    /// The number of entries.
    pub fn num_entries(&self) -> (r: usize)
        ensures
            r == self.spec_pairs().len(),
    {
        self.pairs.len()
    }

    /// The name of the `i`-th entry.
    pub fn key_at(&self, i: usize) -> (r: &String)
        requires
            i < self.spec_pairs().len(),
        ensures
            r@ == self.spec_pairs()[i as int].0,
    {
        &self.pairs[i].0
    }

    /// The value of the `i`-th entry.
    pub fn value_at(&self, i: usize) -> (r: &String)
        requires
            i < self.spec_pairs().len(),
        ensures
            r@ == self.spec_pairs()[i as int].1,
    {
        &self.pairs[i].1
    }

    /// In a table with unique names, each entry is exactly what the map view
    /// yields for its name, and every name in the map comes from an entry.
    pub proof fn lemma_entries_match_view(&self)
        requires
            self.wf(),
        ensures
            forall|i: int|
                0 <= i < self.spec_pairs().len() ==> #[trigger] self@.contains_key(
                    self.spec_pairs()[i].0,
                ) && self@[self.spec_pairs()[i].0] == self.spec_pairs()[i].1,
            forall|k: Seq<char>|
                self@.contains_key(k) ==> exists|i: int|
                    0 <= i < self.spec_pairs().len() && #[trigger] self.spec_pairs()[i].0 == k,
            self@.dom().finite(),
    {
        lemma_pairs_as_map(self.spec_pairs());
    }

    /// Looks a name up.
    pub fn get(&self, key: &String) -> (r: Option<&String>)
        requires
            self.wf(),
        ensures
            match r {
                Some(v) => self@.contains_key(key@) && v@ == self@[key@],
                None => !self@.contains_key(key@),
            },
    {
        proof {
            self.lemma_entries_match_view();
        }
        let n = self.pairs.len();
        let mut i: usize = 0;
        while i < n
            invariant
                i <= n,
                n == self.spec_pairs().len(),
                self.wf(),
                forall|j: int| 0 <= j < i ==> self.spec_pairs()[j].0 != key@,
                forall|j: int|
                    0 <= j < self.spec_pairs().len() ==> #[trigger] self@.contains_key(
                        self.spec_pairs()[j].0,
                    ) && self@[self.spec_pairs()[j].0] == self.spec_pairs()[j].1,
                forall|k: Seq<char>|
                    self@.contains_key(k) ==> exists|j: int|
                        0 <= j < self.spec_pairs().len() && #[trigger] self.spec_pairs()[j].0 == k,
            decreases n - i,
        {
            if self.pairs[i].0 == *key {
                proof {
                    assert(self.spec_pairs()[i as int].0 == key@);
                    assert(self@.contains_key(self.spec_pairs()[i as int].0));
                }
                return Some(&self.pairs[i].1);
            }
            proof {
                assert(self.spec_pairs()[i as int].0 != key@);
            }
            i = i + 1;
        }
        None
    }

    /// Tells whether a name is bound.
    pub fn contains_key(&self, key: &String) -> (r: bool)
        requires
            self.wf(),
        ensures
            r == self@.contains_key(key@),
    {
        match self.get(key) {
            Some(_) => true,
            None => false,
        }
    }

    /// Binds a name to a value, replacing any existing binding of that name.
    pub fn upsert(&mut self, key: String, value: String)
        requires
            old(self).wf(),
        ensures
            final(self).wf(),
            final(self)@ == old(self)@.insert(key@, value@),
    {
        let ghost gk = key@;
        let ghost gv = value@;
        let n = self.pairs.len();
        let mut i: usize = 0;
        while i < n
            invariant
                i <= n,
                n == self.spec_pairs().len(),
                self.wf(),
                self.spec_pairs() == old(self).spec_pairs(),
                gk == key@,
                gv == value@,
                forall|j: int| 0 <= j < i ==> self.spec_pairs()[j].0 != gk,
            decreases n - i,
        {
            if string_eq(&self.pairs[i].0, &key) {
                proof {
                    assert(self.spec_pairs()[i as int].0 == gk);
                }
                let ghost vb = self.pairs@;
                let ghost dvb = self.pairs.deep_view();
                self.pairs.remove(i);
                self.pairs.insert(i, (key, value));
                proof {
                    assert(self.pairs@ =~= vb.update(i as int, self.pairs@[i as int]));
                    assert forall|j: int| 0 <= j < self.pairs.deep_view().len() implies
                        self.pairs.deep_view()[j] == dvb.update(i as int, (gk, gv))[j] by {
                        if j != i {
                            assert(self.pairs@[j] == vb[j]);
                        }
                    }
                    assert(self.pairs.deep_view() =~= dvb.update(i as int, (gk, gv)));
                    assert(dvb[i as int].0 == gk);
                    assert(dvb.update(i as int, (gk, gv)) =~= dvb.update(
                        i as int,
                        (dvb[i as int].0, gv),
                    ));
                    lemma_as_map_update(dvb, i as int, gv);
                    assert forall|x: int, y: int|
                        0 <= x < y < self.spec_pairs().len() implies self.spec_pairs()[x].0
                        != self.spec_pairs()[y].0 by {
                        assert(self.spec_pairs()[x].0 == dvb[x].0);
                        assert(self.spec_pairs()[y].0 == dvb[y].0);
                    }
                }
                return ;
            }
            proof {
                assert(self.spec_pairs()[i as int].0 != gk);
            }
            i = i + 1;
        }
        let ghost dvb = self.pairs.deep_view();
        self.pairs.push((key, value));
        proof {
            assert forall|j: int| 0 <= j < self.pairs.deep_view().len() implies
                self.pairs.deep_view()[j] == dvb.push((gk, gv))[j] by {}
            assert(self.pairs.deep_view() =~= dvb.push((gk, gv)));
            assert(self.pairs.deep_view().drop_last() =~= dvb);
        }
    }

    /// Binds every entry of `other`, replacing existing bindings of the same
    /// names: the result is `other` layered over `self`.
    pub fn upsert_all(&mut self, other: &VarMap)
        requires
            old(self).wf(),
            other.wf(),
        ensures
            final(self).wf(),
            final(self)@ == old(self)@.union_prefer_right(other@),
    {
        let n = other.pairs.len();
        let mut i: usize = 0;
        proof {
            assert(self@.union_prefer_right(pairs_as_map(other.spec_pairs().take(0))) =~= self@)
                by {
                assert(other.spec_pairs().take(0) =~= Seq::<(Seq<char>, Seq<char>)>::empty());
            }
        }
        while i < n
            invariant
                i <= n,
                n == other.spec_pairs().len(),
                other.wf(),
                self.wf(),
                self@ == old(self)@.union_prefer_right(
                    pairs_as_map(other.spec_pairs().take(i as int)),
                ),
            decreases n - i,
        {
            let key = other.pairs[i].0.clone();
            let value = other.pairs[i].1.clone();
            let ghost prior = self@;
            self.upsert(key, value);
            proof {
                let taken = other.spec_pairs().take(i + 1);
                assert(taken.drop_last() =~= other.spec_pairs().take(i as int));
                assert(taken.last() == other.spec_pairs()[i as int]);
                assert(self@ =~= old(self)@.union_prefer_right(pairs_as_map(taken)));
            }
            i = i + 1;
        }
        proof {
            assert(other.spec_pairs().take(n as int) =~= other.spec_pairs());
        }
    }
}

impl Clone for VarMap {
    /// Copies the table entry by entry; the copy has the same entries.
    fn clone(&self) -> (r: Self)
        ensures
            r.spec_pairs() == self.spec_pairs(),
            r@ == self@,
            r.wf() == self.wf(),
    {
        let n = self.pairs.len();
        let mut pairs: Vec<(String, String)> = Vec::new();
        let mut i: usize = 0;
        while i < n
            invariant
                i <= n,
                n == self.pairs@.len(),
                pairs@ == self.pairs@.take(i as int),
            decreases n - i,
        {
            let key = self.pairs[i].0.clone();
            let value = self.pairs[i].1.clone();
            pairs.push((key, value));
            proof {
                assert(pairs@ =~= self.pairs@.take(i + 1));
            }
            i = i + 1;
        }
        proof {
            assert(self.pairs@.take(n as int) =~= self.pairs@);
        }
        VarMap { pairs }
    }
}

proof fn lemma_pairs_as_map(pairs: Seq<(Seq<char>, Seq<char>)>)
    requires
        forall|i: int, j: int| 0 <= i < j < pairs.len() ==> pairs[i].0 != pairs[j].0,
    ensures
        forall|i: int|
            0 <= i < pairs.len() ==> #[trigger] pairs_as_map(pairs).contains_key(pairs[i].0)
                && pairs_as_map(pairs)[pairs[i].0] == pairs[i].1,
        forall|k: Seq<char>|
            pairs_as_map(pairs).contains_key(k) ==> exists|i: int|
                0 <= i < pairs.len() && #[trigger] pairs[i].0 == k,
        pairs_as_map(pairs).dom().finite(),
    decreases pairs.len(),
{
    if pairs.len() > 0 {
        lemma_pairs_as_map(pairs.drop_last());
        assert forall|i: int|
            0 <= i < pairs.len() implies #[trigger] pairs_as_map(pairs).contains_key(pairs[i].0)
            && pairs_as_map(pairs)[pairs[i].0] == pairs[i].1 by {
            if i < pairs.len() - 1 {
                assert(pairs.drop_last()[i] == pairs[i]);
                assert(pairs[i].0 != pairs.last().0);
            }
        }
        assert forall|k: Seq<char>| pairs_as_map(pairs).contains_key(k) implies exists|i: int|
            0 <= i < pairs.len() && #[trigger] pairs[i].0 == k by {
            if k == pairs.last().0 {
                assert(pairs[pairs.len() - 1].0 == k);
            } else {
                assert(pairs_as_map(pairs.drop_last()).contains_key(k));
                let i = choose|i: int|
                    0 <= i < pairs.drop_last().len() && #[trigger] pairs.drop_last()[i].0 == k;
                assert(pairs[i].0 == k);
            }
        }
    }
}

proof fn lemma_as_map_update(pairs: Seq<(Seq<char>, Seq<char>)>, i: int, value: Seq<char>)
    requires
        forall|x: int, y: int| 0 <= x < y < pairs.len() ==> pairs[x].0 != pairs[y].0,
        0 <= i < pairs.len(),
    ensures
        pairs_as_map(pairs.update(i, (pairs[i].0, value))) == pairs_as_map(pairs).insert(
            pairs[i].0,
            value,
        ),
    decreases pairs.len(),
{
    let updated = pairs.update(i, (pairs[i].0, value));
    if i == pairs.len() - 1 {
        assert(updated.drop_last() =~= pairs.drop_last());
        assert(pairs_as_map(updated) =~= pairs_as_map(pairs).insert(pairs[i].0, value));
    } else {
        lemma_as_map_update(pairs.drop_last(), i, value);
        assert(updated.drop_last() =~= pairs.drop_last().update(i, (pairs[i].0, value)));
        assert(updated.last() == pairs.last());
        assert(pairs[i].0 != pairs.last().0);
        assert(pairs_as_map(updated) =~= pairs_as_map(pairs).insert(pairs[i].0, value));
    }
}

/// Binds `key` to `value` in the table, replacing any existing binding.
pub fn upsert_into_hash_map(key: String, value: String, hashmap: &mut VarMap)
    requires
        old(hashmap).wf(),
    ensures
        final(hashmap).wf(),
        final(hashmap)@ == old(hashmap)@.insert(key@, value@),
{
    hashmap.upsert(key, value);
}

} // verus!
