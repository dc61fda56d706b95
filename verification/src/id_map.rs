//! A small map keyed by string identifiers.
//!
//! Rows, columns and cached results are all found by a string identifier.
//! `IdMap` keeps its entries in a vector, in the order in which their
//! identifiers were first inserted, and guarantees that no identifier occurs
//! twice. Its mathematical model is the sequence of `(identifier, value)`
//! pairs; its view is the map that this sequence denotes.

use vstd::prelude::*;

verus! {

/// No identifier occurs twice among the pairs.
pub open spec fn distinct_ids<V>(s: Seq<(Seq<char>, V)>) -> bool {
    forall|i: int, j: int| 0 <= i < j < s.len() ==> (#[trigger] s[i]).0 != (#[trigger] s[j]).0
}

/// Some pair of `s` is keyed by `id`.
pub open spec fn has_id<V>(s: Seq<(Seq<char>, V)>, id: Seq<char>) -> bool {
    exists|i: int| 0 <= i < s.len() && (#[trigger] s[i]).0 == id
}

/// One of the first `n` pairs of `s` is keyed by `id`.
pub open spec fn has_id_before<V>(s: Seq<(Seq<char>, V)>, n: int, id: Seq<char>) -> bool {
    exists|i: int| 0 <= i < n && (#[trigger] s[i]).0 == id
}

/// Looking at one more pair finds the identifiers found so far and that
/// pair's own.
pub proof fn lemma_has_id_before_step<V>(s: Seq<(Seq<char>, V)>, n: int, id: Seq<char>)
    requires
        0 <= n < s.len(),
    ensures
        has_id_before(s, n + 1, id) <==> (has_id_before(s, n, id) || s[n].0 == id),
{
    if has_id_before(s, n + 1, id) {
        let i = choose|i: int| 0 <= i < n + 1 && (#[trigger] s[i]).0 == id;
        if i < n {
            assert(0 <= i < n && s[i].0 == id);
        }
    }
    if has_id_before(s, n, id) {
        let i = choose|i: int| 0 <= i < n && (#[trigger] s[i]).0 == id;
        assert(0 <= i < n + 1 && s[i].0 == id);
    }
    if s[n].0 == id {
        assert(0 <= n < n + 1 && s[n].0 == id);
    }
}

/// A position at which `id` occurs in `s` (meaningful when `has_id(s, id)`).
pub open spec fn position_of<V>(s: Seq<(Seq<char>, V)>, id: Seq<char>) -> int {
    choose|i: int| 0 <= i < s.len() && (#[trigger] s[i]).0 == id
}

/// The map that a sequence of pairs denotes.
pub open spec fn pairs_to_map<V>(s: Seq<(Seq<char>, V)>) -> Map<Seq<char>, V> {
    Map::new(|id: Seq<char>| has_id(s, id), |id: Seq<char>| s[position_of(s, id)].1)
}

/// With distinct identifiers, the pair at position `i` is what the map holds
/// for its identifier.
pub proof fn lemma_pair_in_map<V>(s: Seq<(Seq<char>, V)>, i: int)
    requires
        distinct_ids(s),
        0 <= i < s.len(),
    ensures
        has_id(s, s[i].0),
        position_of(s, s[i].0) == i,
        pairs_to_map(s).dom().contains(s[i].0),
        pairs_to_map(s)[s[i].0] == s[i].1,
{
    let id = s[i].0;
    assert(has_id(s, id));
    let p = position_of(s, id);
    assert(0 <= p < s.len() && s[p].0 == id);
    if p < i {
        assert(s[p].0 != s[i].0);
    }
    if i < p {
        assert(s[i].0 != s[p].0);
    }
}

/// Every identifier in the map's domain is found at some position.
pub proof fn lemma_map_has_position<V>(s: Seq<(Seq<char>, V)>, id: Seq<char>)
    requires
        pairs_to_map(s).dom().contains(id),
    ensures
        0 <= position_of(s, id) < s.len(),
        s[position_of(s, id)].0 == id,
        pairs_to_map(s)[id] == s[position_of(s, id)].1,
{
    assert(has_id(s, id));
}

/// Appending a pair with a new identifier inserts it into the map.
pub proof fn lemma_push_pair<V>(s: Seq<(Seq<char>, V)>, id: Seq<char>, value: V)
    requires
        distinct_ids(s),
        !has_id(s, id),
    ensures
        distinct_ids(s.push((id, value))),
        pairs_to_map(s.push((id, value))) == pairs_to_map(s).insert(id, value),
{
    let t = s.push((id, value));
    assert forall|i: int, j: int| 0 <= i < j < t.len() implies (#[trigger] t[i]).0 != (
    #[trigger] t[j]).0 by {
        if j < s.len() {
            assert(s[i].0 != s[j].0);
        } else {
            assert(t[i] == s[i]);
        }
    }
    assert forall|k: Seq<char>| has_id(t, k) <==> (k == id || has_id(s, k)) by {
        if has_id(t, k) {
            let p = position_of(t, k);
            if p < s.len() {
                assert(s[p].0 == k);
            }
        }
        if has_id(s, k) {
            let p = position_of(s, k);
            assert(t[p].0 == k);
        }
        if k == id {
            assert(t[s.len() as int].0 == k);
        }
    }
    assert forall|k: Seq<char>| has_id(t, k) implies pairs_to_map(t)[k] == pairs_to_map(s).insert(
        id,
        value,
    )[k] by {
        let p = position_of(t, k);
        lemma_pair_in_map(t, p);
        if p < s.len() {
            assert(s[p] == t[p]);
            lemma_pair_in_map(s, p);
        }
    }
    assert(pairs_to_map(t) =~= pairs_to_map(s).insert(id, value));
}

/// Replacing the value at position `i` replaces it in the map.
pub proof fn lemma_update_pair<V>(s: Seq<(Seq<char>, V)>, i: int, value: V)
    requires
        distinct_ids(s),
        0 <= i < s.len(),
    ensures
        distinct_ids(s.update(i, (s[i].0, value))),
        pairs_to_map(s.update(i, (s[i].0, value))) == pairs_to_map(s).insert(s[i].0, value),
{
    let id = s[i].0;
    let t = s.update(i, (id, value));
    assert forall|a: int, b: int| 0 <= a < b < t.len() implies (#[trigger] t[a]).0 != (
    #[trigger] t[b]).0 by {
        assert(t[a].0 == s[a].0);
        assert(t[b].0 == s[b].0);
    }
    assert forall|k: Seq<char>| has_id(t, k) <==> has_id(s, k) by {
        if has_id(t, k) {
            let p = position_of(t, k);
            assert(s[p].0 == k);
        }
        if has_id(s, k) {
            let p = position_of(s, k);
            assert(t[p].0 == k);
        }
    }
    assert(has_id(s, id));
    assert forall|k: Seq<char>| has_id(t, k) implies pairs_to_map(t)[k] == pairs_to_map(s).insert(
        id,
        value,
    )[k] by {
        let p = position_of(t, k);
        lemma_pair_in_map(t, p);
        if p != i {
            assert(s[p] == t[p]);
            lemma_pair_in_map(s, p);
            lemma_pair_in_map(s, i);
        }
    }
    assert(pairs_to_map(t) =~= pairs_to_map(s).insert(id, value));
}

/// Taking out the pair at position `i` removes its identifier from the map.
pub proof fn lemma_remove_pair<V>(s: Seq<(Seq<char>, V)>, i: int)
    requires
        distinct_ids(s),
        0 <= i < s.len(),
    ensures
        distinct_ids(s.remove(i)),
        pairs_to_map(s.remove(i)) == pairs_to_map(s).remove(s[i].0),
{
    let id = s[i].0;
    let t = s.remove(i);
    assert forall|a: int, b: int| 0 <= a < b < t.len() implies (#[trigger] t[a]).0 != (
    #[trigger] t[b]).0 by {
        let first = if a < i { a } else { a + 1 };
        let second = if b < i { b } else { b + 1 };
        assert(t[a] == s[first]);
        assert(t[b] == s[second]);
        assert(s[first].0 != s[second].0);
    }
    assert forall|k: Seq<char>| has_id(t, k) <==> (k != id && has_id(s, k)) by {
        if has_id(t, k) {
            let p = position_of(t, k);
            let origin = if p < i { p } else { p + 1 };
            assert(t[p] == s[origin]);
            assert(s[origin].0 == k);
            if origin < i {
                assert(s[origin].0 != s[i].0);
            } else {
                assert(s[i].0 != s[origin].0);
            }
        }
        if k != id && has_id(s, k) {
            let p = position_of(s, k);
            let q = if p < i { p } else { p - 1 };
            assert(t[q] == s[p]);
            assert(t[q].0 == k);
        }
    }
    assert forall|k: Seq<char>| has_id(t, k) implies pairs_to_map(t)[k] == pairs_to_map(s).remove(
        id,
    )[k] by {
        let p = position_of(t, k);
        let origin = if p < i { p } else { p + 1 };
        assert(t[p] == s[origin]);
        lemma_pair_in_map(t, p);
        lemma_pair_in_map(s, origin);
    }
    assert(pairs_to_map(t) =~= pairs_to_map(s).remove(id));
}

/// The pairs that a vector of stored entries stands for.
spec fn stored_pairs<V>(entries: Seq<(String, V)>) -> Seq<(Seq<char>, V)> {
    Seq::new(entries.len(), |i: int| (entries[i].0@, entries[i].1))
}

/// A map from string identifiers to values of type `V`.
///
/// The entries keep the order in which their identifiers were first
/// inserted. No identifier occurs twice; this is a type invariant, so every
/// value of the type satisfies it.
#[derive(Debug)]
pub struct IdMap<V> {
    entries: Vec<(String, V)>,
}

impl<V> View for IdMap<V> {
    type V = Map<Seq<char>, V>;

    open spec fn view(&self) -> Map<Seq<char>, V> {
        pairs_to_map(self.pairs())
    }
}

impl<V> IdMap<V> {
    #[verifier::type_invariant]
    spec fn well_formed(self) -> bool {
        distinct_ids(self.pairs())
    }

    /// The entries as a sequence of `(identifier, value)` pairs, in order.
    pub closed spec fn pairs(&self) -> Seq<(Seq<char>, V)> {
        stored_pairs(self.entries@)
    }

    /// The identifiers of the entries, in order.
    pub open spec fn ids(&self) -> Seq<Seq<char>> {
        Seq::new(self.pairs().len(), |i: int| self.pairs()[i].0)
    }

    /// An empty map.
    pub fn new() -> (m: Self)
        ensures
            m.pairs() == Seq::<(Seq<char>, V)>::empty(),
            m@ == Map::<Seq<char>, V>::empty(),
    {
        let m = IdMap { entries: Vec::new() };
        assert(m.pairs() =~= Seq::<(Seq<char>, V)>::empty());
        assert(m@ =~= Map::<Seq<char>, V>::empty());
        m
    }

    /// The number of entries. Also tells the caller that the identifiers are
    /// distinct, which is what lets positions and the view be related.
    pub fn len(&self) -> (n: usize)
        ensures
            n == self.pairs().len(),
            distinct_ids(self.pairs()),
            n == self@.dom().len(),
            self@.dom().finite(),
    {
        proof {
            use_type_invariant(&*self);
            lemma_domain_size(self.pairs());
        }
        self.entries.len()
    }

    /// Whether the map has no entry.
    pub fn is_empty(&self) -> (b: bool)
        ensures
            b == (self.pairs().len() == 0),
            b == (self@ == Map::<Seq<char>, V>::empty()),
            !b ==> exists|id: Seq<char>| self@.dom().contains(id),
    {
        proof {
            if self.pairs().len() == 0 {
                assert(self@ =~= Map::<Seq<char>, V>::empty());
            } else {
                assert(has_id(self.pairs(), self.pairs()[0].0));
                assert(self@.dom().contains(self.pairs()[0].0));
            }
        }
        self.entries.len() == 0
    }

    /// The identifier of the entry at position `i`.
    pub fn key_at(&self, i: usize) -> (id: &String)
        requires
            i < self.pairs().len(),
        ensures
            id@ == self.pairs()[i as int].0,
            self@.dom().contains(id@),
            self@[id@] == self.pairs()[i as int].1,
    {
        proof {
            use_type_invariant(&*self);
            lemma_pair_in_map(self.pairs(), i as int);
        }
        &self.entries[i].0
    }

    /// The value of the entry at position `i`.
    pub fn value_at(&self, i: usize) -> (value: &V)
        requires
            i < self.pairs().len(),
        ensures
            *value == self.pairs()[i as int].1,
            self@.dom().contains(self.pairs()[i as int].0),
            self@[self.pairs()[i as int].0] == *value,
    {
        proof {
            use_type_invariant(&*self);
            lemma_pair_in_map(self.pairs(), i as int);
        }
        &self.entries[i].1
    }

    /// The position of the entry keyed by `id`, if there is one.
    pub fn position(&self, id: &String) -> (r: Option<usize>)
        ensures
            match r {
                Some(i) => i < self.pairs().len() && self.pairs()[i as int].0 == id@
                    && self@.dom().contains(id@) && self@[id@] == self.pairs()[i as int].1,
                None => !self@.dom().contains(id@),
            },
    {
        proof {
            use_type_invariant(&*self);
        }
        let mut i: usize = 0;
        while i < self.entries.len()
            invariant
                i <= self.entries@.len(),
                self.entries@.len() == self.pairs().len(),
                distinct_ids(self.pairs()),
                forall|j: int| 0 <= j < i ==> (#[trigger] self.pairs()[j]).0 != id@,
            decreases self.entries@.len() - i,
        {
            if self.entries[i].0 == *id {
                proof {
                    lemma_pair_in_map(self.pairs(), i as int);
                }
                return Some(i);
            }
            i = i + 1;
        }
        None
    }

    /// Whether some entry is keyed by `id`.
    pub fn contains_key(&self, id: &String) -> (b: bool)
        ensures
            b == self@.dom().contains(id@),
    {
        self.position(id).is_some()
    }

    /// The value keyed by `id`, if there is one.
    pub fn get(&self, id: &String) -> (r: Option<&V>)
        ensures
            r == (if self@.dom().contains(id@) {
                Some(&self@[id@])
            } else {
                None
            }),
    {
        match self.position(id) {
            Some(i) => Some(&self.entries[i].1),
            None => None,
        }
    }

    /// Sets the value keyed by `id`. An existing entry keeps its position; a
    /// new one goes to the end.
    pub fn insert(&mut self, id: String, value: V)
        ensures
            final(self)@ == old(self)@.insert(id@, value),
            old(self)@.dom().contains(id@) ==> final(self).ids() == old(self).ids(),
            !old(self)@.dom().contains(id@) ==> final(self).pairs() == old(self).pairs().push(
                (id@, value),
            ),
    {
        proof {
            use_type_invariant(&*self);
        }
        let found = self.position(&id);
        let ghost before = self.pairs();
        let mut entries: Vec<(String, V)> = Vec::new();
        std::mem::swap(&mut entries, &mut self.entries);
        match found {
            Some(i) => {
                entries.set(i, (id, value));
                proof {
                    lemma_update_pair(before, i as int, value);
                    assert(stored_pairs(entries@) =~= before.update(
                        i as int,
                        (before[i as int].0, value),
                    ));
                }
                self.entries = entries;
                assert(self.ids() =~= old(self).ids());
            },
            None => {
                entries.push((id, value));
                proof {
                    lemma_push_pair(before, id@, value);
                    assert(stored_pairs(entries@) =~= before.push((id@, value)));
                }
                self.entries = entries;
            },
        }
    }

    /// Takes out the entry keyed by `id` and returns its value. The entries
    /// that stay keep their order.
    pub fn remove(&mut self, id: &String) -> (r: Option<V>)
        ensures
            final(self)@ == old(self)@.remove(id@),
            r == (if old(self)@.dom().contains(id@) {
                Some(old(self)@[id@])
            } else {
                None
            }),
            !old(self)@.dom().contains(id@) ==> final(self).pairs() == old(self).pairs(),
            old(self)@.dom().contains(id@) ==> final(self).pairs() == old(self).pairs().remove(
                position_of(old(self).pairs(), id@),
            ),
    {
        proof {
            use_type_invariant(&*self);
        }
        let found = self.position(id);
        let ghost before = self.pairs();
        match found {
            Some(i) => {
                let mut entries: Vec<(String, V)> = Vec::new();
                std::mem::swap(&mut entries, &mut self.entries);
                let taken = entries.remove(i);
                proof {
                    lemma_pair_in_map(before, i as int);
                    lemma_remove_pair(before, i as int);
                    assert(stored_pairs(entries@) =~= before.remove(i as int));
                }
                self.entries = entries;
                Some(taken.1)
            },
            None => {
                assert(self@ =~= old(self)@.remove(id@));
                None
            },
        }
    }
}

impl<V: Clone> Clone for IdMap<V> {
    /// A map with the same identifiers in the same order, each value cloned.
    fn clone(&self) -> (copy: Self)
        ensures
            copy.ids() == self.ids(),
            forall|i: int|
                0 <= i < self.pairs().len() ==> cloned::<V>(
                    self.pairs()[i].1,
                    #[trigger] copy.pairs()[i].1,
                ),
    {
        proof {
            use_type_invariant(&*self);
        }
        let mut entries: Vec<(String, V)> = Vec::new();
        let mut i: usize = 0;
        while i < self.entries.len()
            invariant
                i <= self.entries@.len(),
                entries@.len() == i,
                forall|j: int|
                    0 <= j < i ==> (#[trigger] entries@[j]).0@ == self.entries@[j].0@ && cloned::<
                        V,
                    >(self.entries@[j].1, entries@[j].1),
            decreases self.entries@.len() - i,
        {
            let id = self.entries[i].0.clone();
            let value = self.entries[i].1.clone();
            entries.push((id, value));
            i = i + 1;
        }
        proof {
            let mine = self.pairs();
            let theirs = stored_pairs(entries@);
            assert forall|a: int, b: int| 0 <= a < b < theirs.len() implies (#[trigger] theirs[a]).0
                != (#[trigger] theirs[b]).0 by {
                assert(theirs[a].0 == entries@[a].0@);
                assert(theirs[b].0 == entries@[b].0@);
                assert(mine[a].0 != mine[b].0);
            }
        }
        let copy = IdMap { entries };
        proof {
            assert(copy.ids() =~= self.ids()) by {
                assert forall|j: int| 0 <= j < copy.ids().len() implies copy.ids()[j]
                    == self.ids()[j] by {
                    assert(entries@[j].0@ == self.entries@[j].0@);
                }
            }
            assert forall|j: int| 0 <= j < self.pairs().len() implies cloned::<V>(
                self.pairs()[j].1,
                #[trigger] copy.pairs()[j].1,
            ) by {
                assert(cloned::<V>(self.entries@[j].1, entries@[j].1));
            }
        }
        copy
    }
}

/// With distinct identifiers, the map has as many keys as there are pairs.
pub proof fn lemma_domain_size<V>(s: Seq<(Seq<char>, V)>)
    requires
        distinct_ids(s),
    ensures
        pairs_to_map(s).dom().finite(),
        pairs_to_map(s).dom().len() == s.len(),
    decreases s.len(),
{
    if s.len() == 0 {
        assert(pairs_to_map(s).dom() =~= Set::<Seq<char>>::empty());
    } else {
        let t = s.drop_last();
        assert forall|i: int, j: int| 0 <= i < j < t.len() implies (#[trigger] t[i]).0 != (
        #[trigger] t[j]).0 by {
            assert(t[i] == s[i]);
            assert(t[j] == s[j]);
        }
        lemma_domain_size(t);
        let last = s.last();
        if has_id(t, last.0) {
            let p = position_of(t, last.0);
            assert(s[p] == t[p]);
            assert(s[p].0 != s[s.len() - 1].0);
        }
        lemma_push_pair(t, last.0, last.1);
        assert(t.push((last.0, last.1)) =~= s);
        assert(pairs_to_map(s).dom() =~= pairs_to_map(t).dom().insert(last.0));
    }
}

} // verus!
