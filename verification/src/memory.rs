//! A word-addressed model of the mutable process memory that relocation
//! rewrites. The relocation engine's sole side effect is overwriting 64-bit
//! words at computed addresses; this model records exactly those words, as
//! a map from address to value, so that every write the engine performs is
//! visible in its contract. Committing the recorded words to the real
//! address space is the caller's narrow, unverified duty.

use vstd::prelude::*;

verus! {

/// The map denoted by a sequence of (address, word) pairs, later pairs
/// overriding earlier ones.
pub open spec fn map_of(s: Seq<(u64, u64)>) -> Map<u64, u64>
    decreases s.len(),
{
    if s.len() == 0 {
        Map::empty()
    } else {
        map_of(s.drop_last()).insert(s.last().0, s.last().1)
    }
}

/// A key is in the map exactly when some pair carries it.
pub proof fn lemma_map_of_domain(s: Seq<(u64, u64)>, a: u64)
    ensures
        map_of(s).contains_key(a) <==> exists|i: int| 0 <= i < s.len() && s[i].0 == a,
    decreases s.len(),
{
    if s.len() > 0 {
        lemma_map_of_domain(s.drop_last(), a);
        if map_of(s).contains_key(a) && s.last().0 != a {
            let i = choose|i: int| 0 <= i < s.drop_last().len() && s.drop_last()[i].0 == a;
            assert(s[i].0 == a);
        }
        if exists|i: int| 0 <= i < s.len() && s[i].0 == a {
            let i = choose|i: int| 0 <= i < s.len() && s[i].0 == a;
            if i < s.len() - 1 {
                assert(s.drop_last()[i].0 == a);
            }
        }
    }
}

/// When keys are unique, the pair at a key gives the map's value there.
pub proof fn lemma_map_of_value(s: Seq<(u64, u64)>, i: int)
    requires
        forall|p: int, q: int| 0 <= p < q < s.len() ==> s[p].0 != s[q].0,
        0 <= i < s.len(),
    ensures
        map_of(s).contains_key(s[i].0),
        map_of(s)[s[i].0] == s[i].1,
    decreases s.len(),
{
    if i == s.len() - 1 {
        lemma_map_of_domain(s, s[i].0);
    } else {
        lemma_map_of_value(s.drop_last(), i);
        assert(s.drop_last()[i] == s[i]);
        assert(s.last().0 != s[i].0);
    }
}

/// When keys are unique, overwriting the pair at a key updates the map at
/// exactly that key.
pub proof fn lemma_map_of_update(s: Seq<(u64, u64)>, i: int, v: u64)
    requires
        forall|p: int, q: int| 0 <= p < q < s.len() ==> s[p].0 != s[q].0,
        0 <= i < s.len(),
    ensures
        map_of(s.update(i, (s[i].0, v))) == map_of(s).insert(s[i].0, v),
    decreases s.len(),
{
    let t = s.update(i, (s[i].0, v));
    if i == s.len() - 1 {
        assert(t.drop_last() =~= s.drop_last());
        assert(map_of(t) =~= map_of(s).insert(s[i].0, v));
    } else {
        lemma_map_of_update(s.drop_last(), i, v);
        assert(t.drop_last() =~= s.drop_last().update(i, (s[i].0, v)));
        assert(s.drop_last()[i] == s[i]);
        assert(s.last().0 != s[i].0);
        assert(map_of(t) =~= map_of(s).insert(s[i].0, v));
    }
}

/// The words of the address space that relocation has written, or that the
/// caller seeded from the mapped images. Viewed as a map from 64-bit
/// address to the 64-bit word stored there.
pub struct Memory {
    words: Vec<(u64, u64)>,
}

impl View for Memory {
    type V = Map<u64, u64>;

    closed spec fn view(&self) -> Map<u64, u64> {
        map_of(self.words@)
    }
}

impl Memory {
    /// Internal shape: no address occurs twice.
    pub closed spec fn wf(&self) -> bool {
        forall|p: int, q: int| 0 <= p < q < self.words@.len() ==> self.words@[p].0
            != self.words@[q].0
    }

    /// A memory with no word recorded yet.
    pub fn new() -> (r: Memory)
        ensures
            r.wf(),
            r@ == Map::<u64, u64>::empty(),
    {
        Memory { words: Vec::new() }
    }

    /// The word most recently written at `addr`, if any.
    pub fn read_word(&self, addr: u64) -> (r: Option<u64>)
        requires
            self.wf(),
        ensures
            r == if self@.contains_key(addr) {
                Some(self@[addr])
            } else {
                None::<u64>
            },
    {
        let n = self.words.len();
        let mut i: usize = 0;
        while i < n
            invariant
                n == self.words@.len(),
                0 <= i <= n,
                self.wf(),
                forall|t: int| 0 <= t < i ==> self.words@[t].0 != addr,
            decreases n - i,
        {
            if self.words[i].0 == addr {
                proof {
                    lemma_map_of_value(self.words@, i as int);
                }
                return Some(self.words[i].1);
            }
            i = i + 1;
        }
        proof {
            lemma_map_of_domain(self.words@, addr);
        }
        None
    }

    /// Overwrites the word at `addr`, recording it if it was never written.
    pub fn write_word(&mut self, addr: u64, value: u64)
        requires
            old(self).wf(),
        ensures
            final(self).wf(),
            final(self)@ == old(self)@.insert(addr, value),
    {
        let n = self.words.len();
        let mut i: usize = 0;
        while i < n
            invariant
                n == self.words@.len(),
                0 <= i <= n,
                self.wf(),
                self.words@ == old(self).words@,
                forall|t: int| 0 <= t < i ==> self.words@[t].0 != addr,
            decreases n - i,
        {
            if self.words[i].0 == addr {
                proof {
                    lemma_map_of_update(self.words@, i as int, value);
                }
                let ghost olds = self.words@;
                self.words[i] = (addr, value);
                proof {
                    assert(self.words@ =~= olds.update(i as int, (olds[i as int].0, value)));
                    assert forall|p: int, q: int|
                        0 <= p < q < self.words@.len() implies self.words@[p].0
                        != self.words@[q].0 by {
                        assert(self.words@[p].0 == olds[p].0);
                        assert(self.words@[q].0 == olds[q].0);
                    }
                }
                return ;
            }
            i = i + 1;
        }
        proof {
            lemma_map_of_domain(self.words@, addr);
        }
        self.words.push((addr, value));
        proof {
            assert(self.words@.drop_last() =~= old(self).words@);
            assert forall|p: int, q: int|
                0 <= p < q < self.words@.len() implies self.words@[p].0 != self.words@[q].0 by {
                if q < self.words@.len() - 1 {
                    assert(old(self).words@[p].0 != old(self).words@[q].0);
                } else {
                    assert(old(self).words@[p].0 != addr);
                }
            }
        }
    }

    /// The recorded words, for the caller that commits them to the real
    /// address space: each pair's address maps to its word, no address
    /// twice.
    pub fn words(&self) -> (r: &Vec<(u64, u64)>)
        requires
            self.wf(),
        ensures
            map_of(r@) == self@,
            forall|p: int, q: int| 0 <= p < q < r@.len() ==> r@[p].0 != r@[q].0,
    {
        &self.words
    }
}

} // verus!
