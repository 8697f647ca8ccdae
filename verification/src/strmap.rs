//! A string-keyed map held as a vector of pairs, with a mathematical
//! `Map<Seq<char>, Seq<char>>` view. Used for the process environment and
//! for the known-libs index (file name to canonical path).

use vstd::prelude::*;

verus! {

use crate::strutil::str_eq;

/// A later pair with the same key shadows an earlier one.
pub open spec fn map_of(ps: Seq<(Seq<char>, Seq<char>)>) -> Map<Seq<char>, Seq<char>>
    decreases ps.len(),
{
    if ps.len() == 0 {
        Map::empty()
    } else {
        map_of(ps.drop_last()).insert(ps.last().0, ps.last().1)
    }
}

/// The binding a key has in `ps`: the value of the last pair carrying it.
pub open spec fn assoc_last(ps: Seq<(Seq<char>, Seq<char>)>, k: Seq<char>) -> Option<Seq<char>>
    decreases ps.len(),
{
    if ps.len() == 0 {
        None
    } else if ps.last().0 == k {
        Some(ps.last().1)
    } else {
        assoc_last(ps.drop_last(), k)
    }
}

/// `assoc_last` agrees with the map view.
pub proof fn lemma_assoc_last_map_of(ps: Seq<(Seq<char>, Seq<char>)>, k: Seq<char>)
    ensures
        match assoc_last(ps, k) {
            Some(v) => map_of(ps).contains_key(k) && map_of(ps)[k] == v,
            None => !map_of(ps).contains_key(k),
        },
    decreases ps.len(),
{
    if ps.len() > 0 {
        lemma_assoc_last_map_of(ps.drop_last(), k);
    }
}

/// A key is in the map exactly when some pair carries it.
pub proof fn lemma_map_of_dom(ps: Seq<(Seq<char>, Seq<char>)>, k: Seq<char>)
    ensures
        map_of(ps).contains_key(k) <==> exists|i: int| 0 <= i < ps.len() && (#[trigger] ps[i]).0
            == k,
    decreases ps.len(),
{
    if ps.len() > 0 {
        lemma_map_of_dom(ps.drop_last(), k);
        if ps.last().0 != k {
            assert(forall|i: int|
                0 <= i < ps.len() - 1 ==> (#[trigger] ps.drop_last()[i]) == ps[i]);
            if exists|i: int| 0 <= i < ps.len() && (#[trigger] ps[i]).0 == k {
                let i = choose|i: int| 0 <= i < ps.len() && (#[trigger] ps[i]).0 == k;
                assert(i < ps.len() - 1);
                assert(ps.drop_last()[i].0 == k);
            }
        } else {
            assert(ps[ps.len() - 1].0 == k);
        }
    }
}

/// A map from strings to strings.
#[derive(Clone)]
pub struct StrMap {
    pub pairs: Vec<(String, String)>,
}

impl StrMap {
    /// The pairs as sequences of characters.
    pub open spec fn pairs_view(&self) -> Seq<(Seq<char>, Seq<char>)> {
        self.pairs@.map_values(|p: (String, String)| (p.0@, p.1@))
    }

    /// The mathematical map this value denotes.
    pub open spec fn view(&self) -> Map<Seq<char>, Seq<char>> {
        map_of(self.pairs_view())
    }

    /// The empty map.
    pub fn new() -> (r: StrMap)
        ensures
            r@ == Map::<Seq<char>, Seq<char>>::empty(),
            r.pairs@.len() == 0,
    {
        let r = StrMap { pairs: Vec::new() };
        proof {
            assert(r.pairs_view() =~= Seq::<(Seq<char>, Seq<char>)>::empty());
        }
        r
    }

    /// Bind `k` to `v`, shadowing any earlier binding.
    pub fn insert(&mut self, k: String, v: String)
        ensures
            final(self)@ == old(self)@.insert(k@, v@),
            final(self).pairs_view() == old(self).pairs_view().push((k@, v@)),
    {
        let ghost oldp = self.pairs_view();
        self.pairs.push((k, v));
        proof {
            assert(self.pairs_view() =~= oldp.push((k@, v@)));
            assert(self.pairs_view().drop_last() =~= oldp);
        }
    }

    /// The value bound to `k`, if any.
    pub fn get(&self, k: &str) -> (r: Option<&String>)
        ensures
            match r {
                Some(v) => self@.contains_key(k@) && self@[k@] == v@,
                None => !self@.contains_key(k@),
            },
    {
        proof {
            lemma_assoc_last_map_of(self.pairs_view(), k@);
            assert(self.pairs_view().take(self.pairs@.len() as int) =~= self.pairs_view());
        }
        let n: usize = self.pairs.len();
        let mut i: usize = n;
        while i > 0
            invariant
                i <= n,
                n == self.pairs@.len(),
                assoc_last(self.pairs_view(), k@) == assoc_last(
                    self.pairs_view().take(i as int),
                    k@,
                ),
            decreases i,
    {
            let ghost pre = self.pairs_view().take(i as int);
            if str_eq(self.pairs[i - 1].0.as_str(), k) {
                proof {
                    lemma_assoc_last_map_of(self.pairs_view(), k@);
                    assert(self.pairs_view()[i - 1] == (
                        self.pairs@[i - 1].0@,
                        self.pairs@[i - 1].1@,
                    ));
                    assert(pre.last() == self.pairs_view()[i - 1]);
                    assert(assoc_last(pre, k@) == Some(self.pairs@[i - 1].1@));
                    assert(assoc_last(self.pairs_view(), k@) == Some(self.pairs@[i - 1].1@));
                    assert(map_of(self.pairs_view()).contains_key(k@));
                    assert(map_of(self.pairs_view())[k@] == self.pairs@[i - 1].1@);
                }
                return Some(&self.pairs[i - 1].1);
            }
            proof {
                assert(pre.last() == self.pairs_view()[i - 1]);
                assert(pre.drop_last() =~= self.pairs_view().take(i - 1));
            }
            i = i - 1;
        }
        proof {
            assert(self.pairs_view().take(0) =~= Seq::<(Seq<char>, Seq<char>)>::empty());
        }
        None
    }

    /// The keys, in pair order.
    pub open spec fn keys_seq(&self) -> Seq<String> {
        self.pairs@.map_values(|p: (String, String)| p.0)
    }

    /// The keys, in pair order; every key is bound in the map.
    pub fn keys(&self) -> (r: Vec<String>)
        ensures
            r@.len() == self.pairs@.len(),
            forall|i: int| 0 <= i < r@.len() ==> (#[trigger] r@[i])@ == self.pairs_view()[i].0,
            forall|i: int| 0 <= i < r@.len() ==> self@.contains_key((#[trigger] r@[i])@),
    {
        let mut out: Vec<String> = Vec::new();
        let mut i: usize = 0;
        while i < self.pairs.len()
            invariant
                i <= self.pairs@.len(),
                out@.len() == i,
                forall|j: int| 0 <= j < i ==> (#[trigger] out@[j])@ == self.pairs_view()[j].0,
            decreases self.pairs@.len() - i,
        {
            let k: String = self.pairs[i].0.clone();
            out.push(k);
            i = i + 1;
        }
        proof {
            assert forall|i: int| 0 <= i < out@.len() implies self@.contains_key(
                (#[trigger] out@[i])@,
            ) by {
                lemma_map_of_dom(self.pairs_view(), out@[i]@);
                assert(self.pairs_view()[i].0 == out@[i]@);
            }
        }
        out
    }

    /// Whether `k` is bound.
    pub fn contains_key(&self, k: &str) -> (r: bool)
        ensures
            r == self@.contains_key(k@),
    {
        match self.get(k) {
            Some(_) => true,
            None => false,
        }
    }
}

} // verus!
