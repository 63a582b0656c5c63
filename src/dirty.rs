use vstd::prelude::*;

use crate::order::{compare_keys, key_less, lemma_key_less_transitive, strictly_ascending, KeyOrdering};
use crate::value::{opt_entry_view, Entry, EntryView};

verus! {

/// A pending change: `Some` writes the entry, `None` deletes the key.
#[derive(Clone, Debug)]
pub struct DirtyKey {
    pub key: String,
    pub entry: Option<Entry>,
}

/// The write-back buffer: the changes made since the last commit, one per
/// composite key, in ascending key order.
#[derive(Debug)]
pub struct DirtyKeys {
    entries: Vec<DirtyKey>,
}

impl View for DirtyKeys {
    type V = Map<Seq<char>, Option<EntryView>>;

    closed spec fn view(&self) -> Map<Seq<char>, Option<EntryView>> {
        Map::new(
            |k: Seq<char>| self.holds(k),
            |k: Seq<char>| opt_entry_view(self.entries@[self.position(k)].entry),
        )
    }
}

impl DirtyKeys {
    /// The keys, in the buffer's order.
    pub closed spec fn keys(&self) -> Seq<Seq<char>> {
        Seq::new(self.entries@.len(), |i: int| self.entries@[i].key@)
    }

    /// The pending changes in key order, as (key, change) pairs.
    pub closed spec fn changes(&self) -> Seq<(Seq<char>, Option<EntryView>)> {
        Seq::new(
            self.entries@.len(),
            |i: int| (self.entries@[i].key@, opt_entry_view(self.entries@[i].entry)),
        )
    }

    /// The number of keys with a pending change.
    pub closed spec fn count(&self) -> nat {
        self.entries@.len()
    }

    /// The keys are in strictly ascending order.
    pub closed spec fn wf(&self) -> bool {
        strictly_ascending(self.keys())
    }

    closed spec fn holds(&self, k: Seq<char>) -> bool {
        exists|i: int| 0 <= i < self.entries@.len() && self.entries@[i].key@ == k
    }

    closed spec fn position(&self, k: Seq<char>) -> int {
        choose|i: int| 0 <= i < self.entries@.len() && self.entries@[i].key@ == k
    }

    proof fn lemma_position(&self, i: int)
        requires
            self.wf(),
            0 <= i < self.entries@.len(),
        ensures
            self.holds(self.entries@[i].key@),
            self.position(self.entries@[i].key@) == i,
    {
        let k = self.entries@[i].key@;
        assert(self.keys()[i] == k);
        let p = self.position(k);
        if p != i {
            assert(self.keys()[p] == k);
            if p < i {
                assert(key_less(self.keys()[p], self.keys()[i]));
            } else {
                assert(key_less(self.keys()[i], self.keys()[p]));
            }
        }
    }

    /// The facts that tie the view, the ordered changes and the count together.
    pub proof fn lemma_view(&self)
        requires
            self.wf(),
        ensures
            self.changes().len() == self.count(),
            self.count() == 0 ==> self@ == Map::<Seq<char>, Option<EntryView>>::empty(),
            forall|i: int|
                0 <= i < self.changes().len() ==> #[trigger] self@.contains_key(self.changes()[i].0)
                    && self@[self.changes()[i].0] == self.changes()[i].1,
            forall|k: Seq<char>|
                #[trigger] self@.contains_key(k) ==> exists|i: int|
                    0 <= i < self.changes().len() && self.changes()[i].0 == k,
            forall|p: int, q: int|
                0 <= p < q < self.changes().len() ==> key_less(
                    self.changes()[p].0,
                    self.changes()[q].0,
                ),
    {
        assert forall|i: int| 0 <= i < self.changes().len() implies #[trigger] self@.contains_key(
            self.changes()[i].0,
        ) && self@[self.changes()[i].0] == self.changes()[i].1 by {
            self.lemma_position(i);
        }
        assert forall|k: Seq<char>| #[trigger] self@.contains_key(k) implies exists|i: int|
            0 <= i < self.changes().len() && self.changes()[i].0 == k by {
            let i = self.position(k);
            assert(self.changes()[i].0 == k);
        }
        assert forall|p: int, q: int| 0 <= p < q < self.changes().len() implies key_less(
            self.changes()[p].0,
            self.changes()[q].0,
        ) by {
            assert(self.keys()[p] == self.changes()[p].0);
            assert(self.keys()[q] == self.changes()[q].0);
        }
        if self.count() == 0 {
            assert(self@ =~= Map::<Seq<char>, Option<EntryView>>::empty());
        }
    }

    /// The count is the number of keys with a pending change.
    pub proof fn lemma_count(&self)
        requires
            self.wf(),
        ensures
            self@.dom().finite(),
            self.count() == self@.dom().len(),
    {
        let ks = self.keys();
        assert(ks.no_duplicates()) by {
            assert forall|p: int, q: int| 0 <= p < ks.len() && 0 <= q < ks.len() && p != q implies ks[p]
                != ks[q] by {
                if p < q {
                    crate::order::lemma_key_less_distinct(ks[p], ks[q]);
                } else {
                    crate::order::lemma_key_less_distinct(ks[q], ks[p]);
                }
            }
        }
        assert forall|k: Seq<char>| #[trigger] self@.dom().contains(k) == ks.to_set().contains(k) by {
            if self.holds(k) {
                let i = self.position(k);
                assert(ks[i] == k);
            }
            if ks.to_set().contains(k) {
                let i = choose|i: int| 0 <= i < ks.len() && ks[i] == k;
                assert(self.entries@[i].key@ == k);
            }
        }
        assert(self@.dom() =~= ks.to_set());
        ks.unique_seq_to_set();
    }

    /// An empty buffer.
    pub fn new() -> (r: DirtyKeys)
        ensures
            r.wf(),
            r.count() == 0,
            r@ == Map::<Seq<char>, Option<EntryView>>::empty(),
    {
        let r = DirtyKeys { entries: Vec::new() };
        assert(r@ =~= Map::<Seq<char>, Option<EntryView>>::empty());
        r
    }

    /// The number of keys with a pending change.
    pub fn len(&self) -> (r: usize)
        ensures
            r == self.count(),
    {
        self.entries.len()
    }

    /// Whether no change is pending.
    pub fn is_empty(&self) -> (r: bool)
        requires
            self.wf(),
        ensures
            r == (self.count() == 0),
            r ==> self@ == Map::<Seq<char>, Option<EntryView>>::empty(),
    {
        proof {
            self.lemma_view();
        }
        self.entries.len() == 0
    }

    /// The pending change of `key`, when there is one.
    pub fn get(&self, key: &str) -> (r: Option<&Option<Entry>>)
        requires
            self.wf(),
        ensures
            match r {
                Some(e) => self@.contains_key(key@) && self@[key@] == opt_entry_view(*e),
                None => !self@.contains_key(key@),
            },
    {
        let mut i: usize = 0;
        while i < self.entries.len()
            invariant
                self.wf(),
                i <= self.entries@.len(),
                forall|j: int| 0 <= j < i ==> self.entries@[j].key@ != key@,
            decreases self.entries@.len() - i,
        {
            if compare_keys(self.entries[i].key.as_str(), key) == KeyOrdering::Equal {
                proof {
                    self.lemma_position(i as int);
                }
                return Some(&self.entries[i].entry);
            }
            i = i + 1;
        }
        None
    }

    /// Records `entry` as the pending change of `key`, replacing any earlier
    /// one, and returns the change it replaced.
    pub fn replace(&mut self, key: String, entry: Option<Entry>) -> (r: Option<Option<Entry>>)
        requires
            old(self).wf(),
        ensures
            final(self).wf(),
            final(self)@ == old(self)@.insert(key@, opt_entry_view(entry)),
            match r {
                Some(e) => old(self)@.contains_key(key@) && old(self)@[key@] == opt_entry_view(e)
                    && final(self).count() == old(self).count(),
                None => !old(self)@.contains_key(key@) && final(self).count() == old(self).count()
                    + 1,
            },
    {
        let ghost old_entries = self.entries@;
        let ghost old_keys = self.keys();
        let mut i: usize = 0;
        while i < self.entries.len()
            invariant
                self.entries@ == old_entries,
                old(self).entries@ == old_entries,
                self.keys() == old_keys,
                self.wf(),
                i <= self.entries@.len(),
                forall|j: int| 0 <= j < i ==> key_less(#[trigger] old_keys[j], key@),
            ensures
                self.entries@ == old_entries,
                i <= self.entries@.len(),
                forall|j: int| 0 <= j < i ==> key_less(#[trigger] old_keys[j], key@),
                i < self.entries@.len() ==> key_less(key@, old_keys[i as int]),
            decreases self.entries@.len() - i,
        {
            let ordering = compare_keys(self.entries[i].key.as_str(), key.as_str());
            if ordering == KeyOrdering::Equal {
                let mut previous = entry;
                std::mem::swap(&mut self.entries[i].entry, &mut previous);
                proof {
                    assert forall|j: int| 0 <= j < old_entries.len() implies self.entries@[j].key
                        == old_entries[j].key by {}
                    assert(self.entries@[i as int].entry == entry);
                    assert(self.keys() =~= old_keys);
                    assert forall|k: Seq<char>| #[trigger] self@.contains_key(k) == old(self)@.insert(
                        key@,
                        opt_entry_view(entry),
                    ).contains_key(k) by {
                        if self.holds(k) {
                            let p = self.position(k);
                            assert(old_entries[p].key@ == k);
                        }
                        if old(self).holds(k) {
                            let p = old(self).position(k);
                            assert(self.entries@[p].key@ == k);
                        }
                    }
                    assert forall|k: Seq<char>| #[trigger] self@.contains_key(k) implies self@[k]
                        == old(self)@.insert(key@, opt_entry_view(entry))[k] by {
                        let p = self.position(k);
                        self.lemma_position(p);
                        if k == key@ {
                            self.lemma_position(i as int);
                        } else {
                            assert(old_entries[p].key@ == k);
                            old(self).lemma_position(p);
                        }
                    }
                    assert(self@ =~= old(self)@.insert(key@, opt_entry_view(entry)));
                    old(self).lemma_position(i as int);
                }
                return Some(previous);
            } else if ordering == KeyOrdering::Greater {
                assert(old_keys[i as int] == self.entries@[i as int].key@);
                break;
            }
            i = i + 1;
        }
        // `i` is the first position whose key is larger than `key`.
        let ghost pos = i as int;
        proof {
            assert forall|j: int| 0 <= j < old_entries.len() implies old_entries[j].key@ != key@ by {
                if j < pos {
                    assert(key_less(old_keys[j], key@));
                } else {
                    assert(old_keys[j] == old_entries[j].key@);
                    if j > pos {
                        assert(key_less(old_keys[pos], old_keys[j]));
                        lemma_key_less_transitive(key@, old_keys[pos], old_keys[j]);
                    }
                }
            }
        }
        self.entries.insert(i, DirtyKey { key, entry });
        proof {
            let new_keys = self.keys();
            assert(new_keys =~= old_keys.insert(pos, key@));
            assert forall|p: int, q: int| 0 <= p < q < new_keys.len() implies key_less(
                new_keys[p],
                new_keys[q],
            ) by {
                if q < pos {
                    assert(new_keys[p] == old_keys[p] && new_keys[q] == old_keys[q]);
                } else if q == pos {
                    assert(new_keys[p] == old_keys[p]);
                } else if p == pos {
                    assert(new_keys[q] == old_keys[q - 1]);
                    if q - 1 > pos {
                        assert(key_less(old_keys[pos], old_keys[q - 1]));
                        lemma_key_less_transitive(key@, old_keys[pos], old_keys[q - 1]);
                    }
                } else if p < pos {
                    assert(new_keys[p] == old_keys[p] && new_keys[q] == old_keys[q - 1]);
                } else {
                    assert(new_keys[p] == old_keys[p - 1] && new_keys[q] == old_keys[q - 1]);
                }
            }
            assert forall|k: Seq<char>| #[trigger] self@.contains_key(k) == old(self)@.insert(
                key@,
                opt_entry_view(entry),
            ).contains_key(k) by {
                if self.holds(k) {
                    let p = self.position(k);
                    if p < pos {
                        assert(old_entries[p].key@ == k);
                    } else if p > pos {
                        assert(old_entries[p - 1].key@ == k);
                    }
                }
                if old(self).holds(k) {
                    let p = old(self).position(k);
                    if p < pos {
                        assert(self.entries@[p].key@ == k);
                    } else {
                        assert(self.entries@[p + 1].key@ == k);
                    }
                }
                if k == key@ {
                    assert(self.entries@[pos].key@ == k);
                }
            }
            assert forall|k: Seq<char>| #[trigger] self@.contains_key(k) implies self@[k]
                == old(self)@.insert(key@, opt_entry_view(entry))[k] by {
                let p = self.position(k);
                self.lemma_position(p);
                if p < pos {
                    old(self).lemma_position(p);
                } else if p > pos {
                    old(self).lemma_position(p - 1);
                }
            }
            assert(self@ =~= old(self)@.insert(key@, opt_entry_view(entry)));
        }
        None
    }

    /// The key at position `i` of the order.
    pub fn key_at(&self, i: usize) -> (r: &String)
        requires
            i < self.count(),
        ensures
            r@ == self.changes()[i as int].0,
    {
        &self.entries[i].key
    }

    /// Moves every pending change out, leaving the buffer empty.
    pub fn take(&mut self) -> (r: DirtyKeys)
        requires
            old(self).wf(),
        ensures
            r.wf(),
            r@ == old(self)@,
            r.changes() == old(self).changes(),
            r.count() == old(self).count(),
            final(self).wf(),
            final(self).count() == 0,
            final(self)@ == Map::<Seq<char>, Option<EntryView>>::empty(),
    {
        let mut taken = DirtyKeys::new();
        std::mem::swap(self, &mut taken);
        taken
    }

    /// The pending changes, in ascending key order.
    pub fn into_entries(self) -> (r: Vec<DirtyKey>)
        requires
            self.wf(),
        ensures
            r@.len() == self.changes().len(),
            forall|i: int|
                0 <= i < r@.len() ==> (#[trigger] r@[i]).key@ == self.changes()[i].0
                    && opt_entry_view(r@[i].entry) == self.changes()[i].1,
    {
        self.entries
    }
}

} // verus!
