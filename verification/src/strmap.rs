//! A string-keyed mapping kept as an association list in insertion order.
//!
//! Header and cookie mappings are small, so a vector of pairs with unique
//! keys is enough; its view is the mathematical `Map` that later inserts
//! overwrite earlier ones in.

use vstd::prelude::*;

verus! {

/// The mapping an association list denotes: later pairs overwrite earlier
/// ones with the same key.
pub open spec fn map_of(pairs: Seq<(Seq<char>, Seq<char>)>) -> Map<Seq<char>, Seq<char>>
    decreases pairs.len(),
{
    if pairs.len() == 0 {
        Map::empty()
    } else {
        map_of(pairs.drop_last()).insert(pairs.last().0, pairs.last().1)
    }
}

/// No two pairs share a key.
pub open spec fn unique_keys(pairs: Seq<(Seq<char>, Seq<char>)>) -> bool {
    forall|i: int, j: int| 0 <= i < j < pairs.len() ==> pairs[i].0 != pairs[j].0
}

/// A key that no pair holds is not in the denoted mapping.
pub proof fn lemma_map_of_absent(pairs: Seq<(Seq<char>, Seq<char>)>, k: Seq<char>)
    requires
        forall|i: int| 0 <= i < pairs.len() ==> pairs[i].0 != k,
    ensures
        !map_of(pairs).contains_key(k),
    decreases pairs.len(),
{
    if pairs.len() > 0 {
        assert forall|i: int| 0 <= i < pairs.drop_last().len() implies pairs.drop_last()[i].0
            != k by {
            assert(pairs.drop_last()[i] == pairs[i]);
        }
        lemma_map_of_absent(pairs.drop_last(), k);
        assert(pairs.last() == pairs[pairs.len() - 1]);
    }
}

/// Under unique keys, the pair at any index gives the mapping's value for
/// its key.
pub proof fn lemma_map_of_present(pairs: Seq<(Seq<char>, Seq<char>)>, i: int)
    requires
        0 <= i < pairs.len(),
        unique_keys(pairs),
    ensures
        map_of(pairs).contains_key(pairs[i].0),
        map_of(pairs)[pairs[i].0] == pairs[i].1,
    decreases pairs.len(),
{
    if i == pairs.len() - 1 {
        assert(pairs.last() == pairs[i]);
    } else {
        assert forall|p: int, q: int|
            0 <= p < q < pairs.drop_last().len() implies pairs.drop_last()[p].0
            != pairs.drop_last()[q].0 by {
            assert(pairs.drop_last()[p] == pairs[p]);
            assert(pairs.drop_last()[q] == pairs[q]);
        }
        assert(pairs.drop_last()[i] == pairs[i]);
        lemma_map_of_present(pairs.drop_last(), i);
        assert(pairs.last() == pairs[pairs.len() - 1]);
        assert(pairs[pairs.len() - 1].0 != pairs[i].0);
    }
}

/// Under unique keys, removing the one pair that holds a key removes that
/// key from the denoted mapping and changes nothing else.
pub proof fn lemma_map_of_remove(pairs: Seq<(Seq<char>, Seq<char>)>, j: int)
    requires
        0 <= j < pairs.len(),
        unique_keys(pairs),
    ensures
        map_of(pairs.remove(j)) == map_of(pairs).remove(pairs[j].0),
    decreases pairs.len(),
{
    let k = pairs[j].0;
    let dl = pairs.drop_last();
    assert forall|p: int, q: int| 0 <= p < q < dl.len() implies dl[p].0 != dl[q].0 by {
        assert(dl[p] == pairs[p]);
        assert(dl[q] == pairs[q]);
    }
    if j == pairs.len() - 1 {
        assert(pairs.last() == pairs[j]);
        assert forall|i: int| 0 <= i < dl.len() implies dl[i].0 != k by {
            assert(dl[i] == pairs[i]);
        }
        lemma_map_of_absent(dl, k);
        assert(pairs.remove(j) =~= dl);
        assert(map_of(pairs).remove(k) =~= map_of(dl));
    } else {
        let r = pairs.remove(j);
        assert(r.len() == pairs.len() - 1);
        assert(r.last() == pairs.last());
        assert(r.drop_last() =~= dl.remove(j));
        assert(dl[j] == pairs[j]);
        lemma_map_of_remove(dl, j);
        assert(pairs.last() == pairs[pairs.len() - 1]);
        assert(pairs.last().0 != k);
        assert(map_of(dl).remove(k).insert(pairs.last().0, pairs.last().1) =~= map_of(
            dl,
        ).insert(pairs.last().0, pairs.last().1).remove(k));
    }
}

/// A string-to-string mapping with unique keys, kept in insertion order.
pub struct StringMap {
    pub entries: Vec<(String, String)>,
}

impl View for StringMap {
    type V = Map<Seq<char>, Seq<char>>;

    open spec fn view(&self) -> Map<Seq<char>, Seq<char>> {
        map_of(self.pairs())
    }
}

impl StringMap {
    /// The pairs held, in order, as sequences of characters.
    pub open spec fn pairs(&self) -> Seq<(Seq<char>, Seq<char>)> {
        Seq::new(self.entries@.len(), |i: int| (self.entries@[i].0@, self.entries@[i].1@))
    }

    /// Well-formed: no two pairs share a key.
    pub open spec fn wf(&self) -> bool {
        unique_keys(self.pairs())
    }

    /// The empty mapping.
    pub fn new() -> (r: StringMap)
        ensures
            r.wf(),
            r.pairs().len() == 0,
            r@ == Map::<Seq<char>, Seq<char>>::empty(),
    {
        StringMap { entries: Vec::new() }
    }

    /// How many pairs are held.
    pub fn len(&self) -> (r: usize)
        ensures
            r == self.pairs().len(),
    {
        self.entries.len()
    }

    /// Whether no pair is held.
    pub fn is_empty(&self) -> (r: bool)
        ensures
            r == (self.pairs().len() == 0),
    {
        self.entries.len() == 0
    }

    /// The pair at an index, copied out.
    pub fn entry_at(&self, i: usize) -> (r: (String, String))
        requires
            i < self.pairs().len(),
        ensures
            (r.0@, r.1@) == self.pairs()[i as int],
    {
        let p = &self.entries[i];
        (p.0.clone(), p.1.clone())
    }

    fn find_key(&self, k: &str) -> (r: Option<usize>)
        ensures
            match r {
                Some(i) => i < self.pairs().len() && self.pairs()[i as int].0 == k@,
                None => forall|i: int| 0 <= i < self.pairs().len() ==> self.pairs()[i].0 != k@,
            },
    {
        let n = self.entries.len();
        let mut i: usize = 0;
        while i < n
            invariant
                i <= n,
                n == self.pairs().len(),
                forall|j: int| 0 <= j < i ==> self.pairs()[j].0 != k@,
            decreases n - i,
        {
            if crate::strutil::str_eq(self.entries[i].0.as_str(), k) {
                return Some(i);
            }
            i = i + 1;
        }
        None
    }

    /// Insert a pair; a pair under the same key is fully replaced
    /// (last write wins).
    pub fn insert(&mut self, k: String, v: String)
        requires
            old(self).wf(),
        ensures
            final(self).wf(),
            final(self)@ == old(self)@.insert(k@, v@),
    {
        let ghost pairs0 = self.pairs();
        match self.find_key(k.as_str()) {
            Some(j) => {
                proof {
                    lemma_map_of_remove(pairs0, j as int);
                }
                self.entries.remove(j);
                proof {
                    assert(self.pairs() =~= pairs0.remove(j as int));
                    assert forall|p: int, q: int|
                        0 <= p < q < self.pairs().len() implies self.pairs()[p].0
                        != self.pairs()[q].0 by {
                        assert(pairs0.remove(j as int)[p] == if p < j {
                            pairs0[p]
                        } else {
                            pairs0[p + 1]
                        });
                    }
                }
                let ghost pairs1 = self.pairs();
                self.entries.push((k, v));
                proof {
                    assert(self.pairs() =~= pairs1.push((k@, v@)));
                    assert(self.pairs().drop_last() =~= pairs1);
                    assert forall|i: int|
                        0 <= i < pairs1.len() implies pairs1[i].0 != k@ by {
                        assert(pairs1[i] == if i < j { pairs0[i] } else { pairs0[i + 1] });
                    }
                    assert(self@ =~= old(self)@.insert(k@, v@));
                }
            },
            None => {
                self.entries.push((k, v));
                proof {
                    assert(self.pairs() =~= pairs0.push((k@, v@)));
                    assert(self.pairs().drop_last() =~= pairs0);
                    assert(self@ =~= old(self)@.insert(k@, v@));
                }
            },
        }
    }

    /// Look a key up; `Some` holds the value exactly when the key is in the
    /// mapping.
    pub fn get(&self, k: &str) -> (r: Option<String>)
        requires
            self.wf(),
        ensures
            match r {
                Some(v) => self@.contains_key(k@) && v@ == self@[k@],
                None => !self@.contains_key(k@),
            },
    {
        match self.find_key(k) {
            Some(i) => {
                proof {
                    lemma_map_of_present(self.pairs(), i as int);
                }
                Some(self.entries[i].1.clone())
            },
            None => {
                proof {
                    lemma_map_of_absent(self.pairs(), k@);
                }
                None
            },
        }
    }
}

} // verus!
