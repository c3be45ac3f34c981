//! The broker's last-value cache: topic bytes to the most recent payload
//! frame published on that topic.
//!
//! The cache is a plain vector of key/value pairs with pairwise-distinct
//! keys; its view is the finite map the pairs denote, so callers reason
//! about it as a `Map` while every operation is verified down to the loop.

use vstd::prelude::*;

verus! {

/// The map denoted by a sequence of key/value pairs; a later pair for the
/// same key wins.
pub open spec fn map_of(s: Seq<(Vec<u8>, Vec<u8>)>) -> Map<Seq<u8>, Seq<u8>>
    decreases s.len(),
{
    if s.len() == 0 {
        Map::empty()
    } else {
        map_of(s.drop_last()).insert(s.last().0@, s.last().1@)
    }
}

/// All keys in the sequence are pairwise distinct.
pub open spec fn unique_keys(s: Seq<(Vec<u8>, Vec<u8>)>) -> bool {
    forall|i: int, j: int| 0 <= i < j < s.len() ==> s[i].0@ != s[j].0@
}

proof fn lemma_map_of_contains(s: Seq<(Vec<u8>, Vec<u8>)>, k: Seq<u8>)
    ensures
        map_of(s).contains_key(k) <==> exists|i: int| 0 <= i < s.len() && s[i].0@ == k,
    decreases s.len(),
{
    if s.len() > 0 {
        lemma_map_of_contains(s.drop_last(), k);
        if s.last().0@ == k {
            assert(s[s.len() - 1].0@ == k);
        } else if map_of(s).contains_key(k) {
            let i = choose|i: int| 0 <= i < s.drop_last().len() && s.drop_last()[i].0@ == k;
            assert(s[i].0@ == k);
        } else if exists|i: int| 0 <= i < s.len() && s[i].0@ == k {
            let i = choose|i: int| 0 <= i < s.len() && s[i].0@ == k;
            assert(s.drop_last()[i].0@ == k);
        }
    }
}

proof fn lemma_map_of_value(s: Seq<(Vec<u8>, Vec<u8>)>, i: int)
    requires
        unique_keys(s),
        0 <= i < s.len(),
    ensures
        map_of(s).contains_key(s[i].0@),
        map_of(s)[s[i].0@] == s[i].1@,
    decreases s.len(),
{
    if i < s.len() - 1 {
        assert(s.drop_last()[i] == s[i]);
        lemma_map_of_value(s.drop_last(), i);
        assert(s[i].0@ != s.last().0@);
    }
}

proof fn lemma_map_of_remove(s: Seq<(Vec<u8>, Vec<u8>)>, i: int)
    requires
        unique_keys(s),
        0 <= i < s.len(),
    ensures
        map_of(s.remove(i)) == map_of(s).remove(s[i].0@),
    decreases s.len(),
{
    let k = s[i].0@;
    if i == s.len() - 1 {
        assert(s.remove(i) =~= s.drop_last());
        lemma_map_of_contains(s.drop_last(), k);
        assert(forall|j: int| 0 <= j < s.drop_last().len() ==> s.drop_last()[j].0@ != k);
        assert(map_of(s.drop_last()) =~= map_of(s).remove(k));
    } else {
        lemma_map_of_remove(s.drop_last(), i);
        assert(s.remove(i).drop_last() =~= s.drop_last().remove(i));
        assert(s.remove(i).last() == s.last());
        assert(k != s.last().0@);
        assert(map_of(s.remove(i)) == map_of(s.drop_last()).remove(k).insert(
            s.last().0@,
            s.last().1@,
        ));
        assert(map_of(s.drop_last()).remove(k).insert(s.last().0@, s.last().1@)
            =~= map_of(s.drop_last()).insert(s.last().0@, s.last().1@).remove(k));
    }
}

/// Compare two byte strings for equality of contents.
pub fn bytes_eq(a: &[u8], b: &[u8]) -> (r: bool)
    ensures
        r <==> a@ == b@,
{
    if a.len() != b.len() {
        return false;
    }
    let n = a.len();
    let mut i: usize = 0;
    while i < n
        invariant
            n == a@.len(),
            n == b@.len(),
            i <= n,
            forall|j: int| 0 <= j < i ==> a@[j] == b@[j],
        decreases n - i,
    {
        if a[i] != b[i] {
            return false;
        }
        i += 1;
    }
    proof {
        assert(a@ =~= b@);
    }
    true
}

/// The broker's topic-to-last-payload mapping, owned by one broker
/// instance; never shared and never global.
pub struct TopicCache {
    entries: Vec<(Vec<u8>, Vec<u8>)>,
}

impl View for TopicCache {
    type V = Map<Seq<u8>, Seq<u8>>;

    closed spec fn view(&self) -> Map<Seq<u8>, Seq<u8>> {
        map_of(self.entries@)
    }
}

impl TopicCache {
    /// The cache's internal invariant: one entry per distinct topic.
    pub closed spec fn wf(&self) -> bool {
        unique_keys(self.entries@)
    }

    /// An empty cache.
    pub fn new() -> (c: TopicCache)
        ensures
            c.wf(),
            c@ == Map::<Seq<u8>, Seq<u8>>::empty(),
    {
        TopicCache { entries: Vec::new() }
    }

    /// The position of the entry for `topic`, if one exists.
    fn find(&self, topic: &[u8]) -> (r: Option<usize>)
        ensures
            r matches Some(i) ==> i < self.entries@.len() && self.entries@[i as int].0@ == topic@,
            r is None ==> forall|j: int| 0 <= j < self.entries@.len()
                ==> self.entries@[j].0@ != topic@,
    {
        let n = self.entries.len();
        let mut i: usize = 0;
        while i < n
            invariant
                n == self.entries@.len(),
                i <= n,
                forall|j: int| 0 <= j < i ==> self.entries@[j].0@ != topic@,
            decreases n - i,
        {
            if bytes_eq(self.entries[i].0.as_slice(), topic) {
                return Some(i);
            }
            i += 1;
        }
        None
    }

    /// Record `payload` as the last value for `topic`, overwriting any
    /// earlier value: last write wins.
    pub fn insert(&mut self, topic: Vec<u8>, payload: Vec<u8>)
        requires
            old(self).wf(),
        ensures
            final(self).wf(),
            final(self)@ == old(self)@.insert(topic@, payload@),
    {
        match self.find(topic.as_slice()) {
            Some(i) => {
                proof {
                    lemma_map_of_remove(self.entries@, i as int);
                    self.entries@.remove_ensures(i as int);
                }
                let ghost removed = self.entries@.remove(i as int);
                let _ = self.entries.remove(i);
                proof {
                    assert(unique_keys(removed)) by {
                        assert forall|a: int, b: int| 0 <= a < b < removed.len() implies removed[a].0@
                            != removed[b].0@ by {
                            assert(removed[a] == if a < i { old(self).entries@[a] } else {
                                old(self).entries@[a + 1]
                            });
                            assert(removed[b] == if b < i { old(self).entries@[b] } else {
                                old(self).entries@[b + 1]
                            });
                        }
                    }
                    assert forall|j: int| 0 <= j < removed.len() implies removed[j].0@ != topic@ by {
                        assert(removed[j] == if j < i { old(self).entries@[j] } else {
                            old(self).entries@[j + 1]
                        });
                    }
                }
                self.entries.push((topic, payload));
                proof {
                    assert(self.entries@.drop_last() =~= removed);
                    assert(self@ =~= old(self)@.insert(topic@, payload@));
                }
            },
            None => {
                self.entries.push((topic, payload));
                proof {
                    assert(self.entries@.drop_last() =~= old(self).entries@);
                }
            },
        }
    }

    /// The last payload recorded for `topic`, if any was ever published.
    pub fn get(&self, topic: &[u8]) -> (r: Option<&Vec<u8>>)
        requires
            self.wf(),
        ensures
            r is Some <==> self@.contains_key(topic@),
            r matches Some(v) ==> self@.contains_key(topic@) && v@ == self@[topic@],
    {
        proof {
            lemma_map_of_contains(self.entries@, topic@);
        }
        match self.find(topic) {
            Some(i) => {
                proof {
                    lemma_map_of_value(self.entries@, i as int);
                }
                Some(&self.entries[i].1)
            },
            None => None,
        }
    }
}

} // verus!
