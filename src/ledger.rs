//! The back-off ledger: for each target identity, the instant until which
//! requests to it are held back.
use vstd::prelude::*;

use crate::clock::WallTime;

verus! {

/// Whether `k` is the key of some entry of `s`.
pub open spec fn has_key(s: Seq<(Seq<char>, WallTime)>, k: Seq<char>) -> bool {
    exists|i: int| 0 <= i < s.len() && #[trigger] s[i].0 == k
}

/// No two entries of `s` share a key.
pub open spec fn unique_keys(s: Seq<(Seq<char>, WallTime)>) -> bool {
    forall|i: int, j: int| 0 <= i < s.len() && 0 <= j < s.len() && i != j ==> s[i].0 != s[j].0
}

/// The map that a list of entries with unique keys stands for.
pub open spec fn map_of(s: Seq<(Seq<char>, WallTime)>) -> Map<Seq<char>, WallTime> {
    Map::new(
        |k: Seq<char>| has_key(s, k),
        |k: Seq<char>| s[choose|i: int| 0 <= i < s.len() && s[i].0 == k].1,
    )
}

proof fn lemma_map_of_at(s: Seq<(Seq<char>, WallTime)>, i: int)
    requires
        unique_keys(s),
        0 <= i < s.len(),
    ensures
        map_of(s).contains_key(s[i].0),
        map_of(s)[s[i].0] == s[i].1,
{
    let k = s[i].0;
    assert(has_key(s, k));
    let j = choose|j: int| 0 <= j < s.len() && s[j].0 == k;
    assert(j == i);
}

/// The map from target identity to release instant.
pub struct Ledger {
    entries: Vec<(String, WallTime)>,
}

impl Ledger {
    /// The entries as plain values, in storage order.
    pub closed spec fn pairs(&self) -> Seq<(Seq<char>, WallTime)> {
        Seq::new(self.entries@.len(), |i: int| (self.entries@[i].0@, self.entries@[i].1))
    }

    /// The ledger's invariant: at most one entry per identity.
    pub closed spec fn wf(&self) -> bool {
        unique_keys(self.pairs())
    }

    /// Where `key` is stored, if anywhere.
    fn position(&self, key: &String) -> (r: Option<usize>)
        ensures
            match r {
                Some(i) => i < self.pairs().len() && self.pairs()[i as int].0 == key@,
                None => !has_key(self.pairs(), key@),
            },
    {
        let mut i: usize = 0;
        while i < self.entries.len()
            invariant
                0 <= i <= self.entries@.len(),
                forall|j: int| 0 <= j < i ==> self.pairs()[j].0 != key@,
            decreases self.entries@.len() - i,
        {
            if self.entries[i].0 == *key {
                return Some(i);
            }
            i = i + 1;
        }
        None
    }

    /// An empty ledger.
    pub fn new() -> (r: Ledger)
        ensures
            r.wf(),
            r@ == Map::<Seq<char>, WallTime>::empty(),
    {
        let r = Ledger { entries: Vec::new() };
        assert(r@ =~= Map::<Seq<char>, WallTime>::empty());
        r
    }

    /// The release instant stored for `identity`, if any.
    pub fn peek(&self, identity: &str) -> (r: Option<WallTime>)
        requires
            self.wf(),
        ensures
            r == (if self@.contains_key(identity@) {
                Some(self@[identity@])
            } else {
                None
            }),
    {
        let key = identity.to_owned();
        match self.position(&key) {
            Some(i) => {
                proof {
                    lemma_map_of_at(self.pairs(), i as int);
                }
                Some(self.entries[i].1)
            },
            None => None,
        }
    }

    /// Stores `release` for `identity`, replacing whatever was there.
    pub fn set(&mut self, identity: &str, release: WallTime)
        requires
            old(self).wf(),
        ensures
            final(self).wf(),
            final(self)@ == old(self)@.insert(identity@, release),
    {
        let key = identity.to_owned();
        let ghost before = self.pairs();
        match self.position(&key) {
            Some(i) => {
                self.entries.set(i, (key, release));
                let ghost after = self.pairs();
                assert(after =~= before.update(i as int, (identity@, release)));
                assert(self.wf());
                assert forall|k: Seq<char>| #[trigger]
                    map_of(after).contains_key(k) == map_of(before).insert(
                        identity@,
                        release,
                    ).contains_key(k) by {
                    if k != identity@ {
                        if has_key(after, k) {
                            let j = choose|j: int| 0 <= j < after.len() && after[j].0 == k;
                            assert(before[j].0 == k);
                        }
                        if has_key(before, k) {
                            let j = choose|j: int| 0 <= j < before.len() && before[j].0 == k;
                            assert(after[j].0 == k);
                        }
                    } else {
                        assert(after[i as int].0 == k);
                    }
                }
                assert forall|k: Seq<char>| #[trigger]
                    map_of(after).contains_key(k) implies map_of(after)[k] == map_of(
                        before,
                    ).insert(identity@, release)[k] by {
                    let j = choose|j: int| 0 <= j < after.len() && after[j].0 == k;
                    lemma_map_of_at(after, j);
                    if j != i {
                        lemma_map_of_at(before, j);
                    }
                }
                assert(map_of(after) =~= map_of(before).insert(identity@, release));
            },
            None => {
                self.entries.push((key, release));
                let ghost after = self.pairs();
                assert(after =~= before.push((identity@, release)));
                assert(self.wf());
                assert forall|k: Seq<char>| #[trigger]
                    map_of(after).contains_key(k) == map_of(before).insert(
                        identity@,
                        release,
                    ).contains_key(k) by {
                    if has_key(before, k) {
                        let j = choose|j: int| 0 <= j < before.len() && before[j].0 == k;
                        assert(after[j].0 == k);
                    }
                    if has_key(after, k) && k != identity@ {
                        let j = choose|j: int| 0 <= j < after.len() && after[j].0 == k;
                        assert(before[j].0 == k);
                    }
                    if k == identity@ {
                        assert(after[before.len() as int].0 == k);
                    }
                }
                assert forall|k: Seq<char>| #[trigger]
                    map_of(after).contains_key(k) implies map_of(after)[k] == map_of(
                        before,
                    ).insert(identity@, release)[k] by {
                    let j = choose|j: int| 0 <= j < after.len() && after[j].0 == k;
                    lemma_map_of_at(after, j);
                    if j < before.len() {
                        lemma_map_of_at(before, j);
                    }
                }
                assert(map_of(after) =~= map_of(before).insert(identity@, release));
            },
        }
    }

    /// Removes any release instant stored for `identity`.
    pub fn clear(&mut self, identity: &str)
        requires
            old(self).wf(),
        ensures
            final(self).wf(),
            final(self)@ == old(self)@.remove(identity@),
    {
        let key = identity.to_owned();
        let ghost before = self.pairs();
        match self.position(&key) {
            Some(i) => {
                self.entries.remove(i);
                let ghost after = self.pairs();
                assert(after =~= before.remove(i as int));
                assert forall|a: int, b: int|
                    0 <= a < after.len() && 0 <= b < after.len() && a != b implies after[a].0
                    != after[b].0 by {
                    let a2 = if a < i { a } else { a + 1 };
                    let b2 = if b < i { b } else { b + 1 };
                    assert(after[a] == before[a2]);
                    assert(after[b] == before[b2]);
                }
                assert(self.wf());
                assert forall|k: Seq<char>| #[trigger]
                    map_of(after).contains_key(k) == map_of(before).remove(identity@).contains_key(
                        k,
                    ) by {
                    if has_key(after, k) {
                        let j = choose|j: int| 0 <= j < after.len() && after[j].0 == k;
                        let j2 = if j < i { j } else { j + 1 };
                        assert(before[j2].0 == k);
                        assert(j2 != i);
                    }
                    if has_key(before, k) && k != identity@ {
                        let j = choose|j: int| 0 <= j < before.len() && before[j].0 == k;
                        let j2 = if j < i { j } else { j - 1 };
                        assert(after[j2].0 == k);
                    }
                }
                assert forall|k: Seq<char>| #[trigger]
                    map_of(after).contains_key(k) implies map_of(after)[k] == map_of(
                        before,
                    ).remove(identity@)[k] by {
                    let j = choose|j: int| 0 <= j < after.len() && after[j].0 == k;
                    let j2 = if j < i { j } else { j + 1 };
                    lemma_map_of_at(after, j);
                    lemma_map_of_at(before, j2);
                }
                assert(map_of(after) =~= map_of(before).remove(identity@));
            },
            None => {
                assert(map_of(before) =~= map_of(before).remove(identity@));
            },
        }
    }

    /// Whether no identity has a stored release instant.
    pub fn is_empty(&self) -> (r: bool)
        ensures
            r == (self@.dom() == Set::<Seq<char>>::empty()),
    {
        if self.entries.len() == 0 {
            assert(self@.dom() =~= Set::<Seq<char>>::empty());
            true
        } else {
            assert(self@.dom().contains(self.pairs()[0].0));
            false
        }
    }
}

impl View for Ledger {
    type V = Map<Seq<char>, WallTime>;

    closed spec fn view(&self) -> Map<Seq<char>, WallTime> {
        map_of(self.pairs())
    }
}

} // verus!
