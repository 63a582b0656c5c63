use vstd::prelude::*;

use std::collections::VecDeque;

use crate::order::{compare_keys, KeyOrdering};
use crate::timestamp::Timestamp;

verus! {

/// An order of keys that expire, each with its expiration.
pub type ExpiryOrder = Seq<(Seq<char>, Timestamp)>;

/// `s` holds `k`.
pub open spec fn order_holds(s: ExpiryOrder, k: Seq<char>) -> bool {
    exists|i: int| 0 <= i < s.len() && s[i].0 == k
}

/// The position of `k` in `s`.
pub open spec fn order_position(s: ExpiryOrder, k: Seq<char>) -> int {
    choose|i: int| 0 <= i < s.len() && s[i].0 == k
}

/// No key occurs twice and expirations do not decrease along the order.
pub open spec fn order_wf(s: ExpiryOrder) -> bool {
    &&& forall|i: int, j: int| 0 <= i < j < s.len() ==> s[i].0 != s[j].0
    &&& forall|i: int, j: int| 0 <= i <= j < s.len() ==> s[i].1.nanos <= s[j].1.nanos
}

/// `s` without the pair of `k`.
pub open spec fn order_without(s: ExpiryOrder, k: Seq<char>) -> ExpiryOrder {
    if order_holds(s, k) {
        s.remove(order_position(s, k))
    } else {
        s
    }
}

/// `i` is the first position of `s` whose expiration is later than `t`, or the
/// end of `s` when there is none.
pub open spec fn is_insertion_point(s: ExpiryOrder, t: Timestamp, i: int) -> bool {
    &&& 0 <= i <= s.len()
    &&& forall|j: int| 0 <= j < i ==> s[j].1.nanos <= t.nanos
    &&& i < s.len() ==> s[i].1.nanos > t.nanos
}

/// Where an expiration `t` goes in `s`: after every expiration that is not
/// later, so that equal expirations keep the order in which they came.
pub open spec fn insertion_point(s: ExpiryOrder, t: Timestamp) -> int {
    choose|i: int| is_insertion_point(s, t, i)
}

/// The order after `k` is given the expiration `expiration`: `k` is taken
/// out, then put back at its insertion point when `expiration` is `Some`.
pub open spec fn order_updated(s: ExpiryOrder, k: Seq<char>, expiration: Option<Timestamp>) -> ExpiryOrder {
    let rest = order_without(s, k);
    match expiration {
        Some(t) => rest.insert(insertion_point(rest, t), (k, t)),
        None => rest,
    }
}

/// The update of `k` touches the head of `s`: it takes out the first pair or
/// puts one in first place.
pub open spec fn head_touched(s: ExpiryOrder, k: Seq<char>, expiration: Option<Timestamp>) -> bool {
    ||| (order_holds(s, k) && order_position(s, k) == 0)
    ||| (expiration is Some && insertion_point(order_without(s, k), expiration->0) == 0)
}

/// The keys of `s`, in order.
pub open spec fn order_keys(s: ExpiryOrder) -> Seq<Seq<char>> {
    Seq::new(s.len(), |i: int| s[i].0)
}

/// The expiration of each key of `s`.
pub open spec fn order_map(s: ExpiryOrder) -> Map<Seq<char>, Timestamp> {
    Map::new(|k: Seq<char>| order_holds(s, k), |k: Seq<char>| s[order_position(s, k)].1)
}

/// Proves that a position holding `k` is the position of `k`.
pub proof fn lemma_order_position(s: ExpiryOrder, i: int)
    requires
        order_wf(s),
        0 <= i < s.len(),
    ensures
        order_holds(s, s[i].0),
        order_position(s, s[i].0) == i,
{
    let p = order_position(s, s[i].0);
    if p < i {
        assert(s[p].0 != s[i].0);
    } else if p > i {
        assert(s[i].0 != s[p].0);
    }
}

/// Proves that the first later position is unique.
pub proof fn lemma_insertion_point_unique(s: ExpiryOrder, t: Timestamp, i: int)
    requires
        is_insertion_point(s, t, i),
    ensures
        insertion_point(s, t) == i,
{
    let p = insertion_point(s, t);
    if p < i {
        assert(s[p].1.nanos <= t.nanos);
    } else if p > i {
        assert(s[i].1.nanos <= t.nanos);
    }
}

/// A key that expires, with its expiration.
#[derive(Clone, Debug)]
pub struct ExpiringKey {
    pub key: String,
    pub expiration: Timestamp,
}

/// A change to the expiration of a key: `Some` sets it, `None` clears it.
#[derive(Clone, Debug)]
pub struct ExpirationUpdate {
    pub tree_key: String,
    pub expiration: Option<Timestamp>,
}

impl ExpirationUpdate {
    /// An update of `tree_key` to `expiration`.
    pub fn new(tree_key: String, expiration: Option<Timestamp>) -> (r: ExpirationUpdate)
        ensures
            r.tree_key@ == tree_key@,
            r.expiration == expiration,
    {
        ExpirationUpdate { tree_key, expiration }
    }
}

/// The keys that expire, in ascending order of expiration (ties in the order
/// in which they were set). The order and the expiration of each key are kept
/// in one sequence of pairs, so that the two cannot drift apart.
#[derive(Debug)]
pub struct ExpirationIndex {
    order: VecDeque<ExpiringKey>,
}

impl View for ExpirationIndex {
    type V = ExpiryOrder;

    closed spec fn view(&self) -> ExpiryOrder {
        Seq::new(self.order@.len(), |i: int| (self.order@[i].key@, self.order@[i].expiration))
    }
}

impl ExpirationIndex {
    /// The keys in the order in which they expire.
    pub open spec fn expiration_order(&self) -> Seq<Seq<char>> {
        order_keys(self@)
    }

    /// The expiration of each key that expires.
    pub open spec fn expiring_keys(&self) -> Map<Seq<char>, Timestamp> {
        order_map(self@)
    }

    /// The index is well formed.
    pub open spec fn wf(&self) -> bool {
        order_wf(self@)
    }

    /// An empty index.
    pub fn new() -> (r: ExpirationIndex)
        ensures
            r@ == Seq::<(Seq<char>, Timestamp)>::empty(),
            r.wf(),
    {
        let r = ExpirationIndex { order: VecDeque::new() };
        assert(r@ =~= Seq::<(Seq<char>, Timestamp)>::empty());
        r
    }

    /// The number of keys that expire.
    pub fn len(&self) -> (r: usize)
        ensures
            r == self@.len(),
    {
        self.order.len()
    }

    /// The earliest expiration, when any key expires.
    pub fn next_expiration(&self) -> (r: Option<Timestamp>)
        ensures
            match r {
                Some(t) => self@.len() > 0 && t == self@[0].1,
                None => self@.len() == 0,
            },
    {
        if self.order.len() == 0 {
            None
        } else {
            Some(self.order[0].expiration)
        }
    }

    fn position_of(&self, key: &str) -> (r: Option<usize>)
        requires
            self.wf(),
        ensures
            match r {
                Some(i) => order_holds(self@, key@) && order_position(self@, key@) == i,
                None => !order_holds(self@, key@),
            },
    {
        let mut i: usize = 0;
        while i < self.order.len()
            invariant
                self.wf(),
                i <= self@.len(),
                forall|j: int| 0 <= j < i ==> self@[j].0 != key@,
            decreases self@.len() - i,
        {
            if compare_keys(self.order[i].key.as_str(), key) == KeyOrdering::Equal {
                proof {
                    assert(self@[i as int].0 == key@);
                    lemma_order_position(self@, i as int);
                }
                return Some(i);
            }
            i = i + 1;
        }
        None
    }

    /// Takes `key` out of the order. Returns whether it was the first key.
    fn remove_key(&mut self, key: &str) -> (at_head: bool)
        requires
            old(self).wf(),
        ensures
            final(self).wf(),
            final(self)@ == order_without(old(self)@, key@),
            !order_holds(final(self)@, key@),
            at_head == (order_holds(old(self)@, key@) && order_position(old(self)@, key@) == 0),
    {
        let ghost s0 = self@;
        match self.position_of(key) {
            Some(i) => {
                let _ = self.order.remove(i);
                assert(self@ =~= s0.remove(i as int));
                assert forall|k: int| 0 <= k < self@.len() implies self@[k].0 != key@ by {
                    if k < i {
                        assert(s0[k].0 != s0[i as int].0);
                    } else {
                        assert(self@[k] == s0[k + 1]);
                        assert(s0[i as int].0 != s0[k + 1].0);
                    }
                }
                assert forall|a: int, b: int| 0 <= a <= b < self@.len() implies self@[a].1.nanos
                    <= self@[b].1.nanos by {
                    let a0 = if a < i { a } else { a + 1 };
                    let b0 = if b < i { b } else { b + 1 };
                    assert(self@[a] == s0[a0] && self@[b] == s0[b0]);
                }
                assert forall|a: int, b: int| 0 <= a < b < self@.len() implies self@[a].0
                    != self@[b].0 by {
                    let a0 = if a < i { a } else { a + 1 };
                    let b0 = if b < i { b } else { b + 1 };
                    assert(self@[a] == s0[a0] && self@[b] == s0[b0]);
                }
                i == 0
            },
            None => false,
        }
    }

    /// Puts `key` in at the insertion point of `t`. Returns whether it went
    /// first.
    fn insert_key(&mut self, key: String, t: Timestamp) -> (at_head: bool)
        requires
            old(self).wf(),
            !order_holds(old(self)@, key@),
        ensures
            final(self).wf(),
            final(self)@ == old(self)@.insert(insertion_point(old(self)@, t), (key@, t)),
            at_head == (insertion_point(old(self)@, t) == 0),
    {
        let ghost s1 = self@;
        let mut at: usize = 0;
        while at < self.order.len() && self.order[at].expiration.nanos <= t.nanos
            invariant
                self@ == s1,
                at <= s1.len(),
                forall|j: int| 0 <= j < at ==> s1[j].1.nanos <= t.nanos,
            decreases s1.len() - at,
        {
            at = at + 1;
        }
        proof {
            lemma_insertion_point_unique(s1, t, at as int);
        }
        self.order.insert(at, ExpiringKey { key, expiration: t });
        proof {
            let s2 = s1.insert(at as int, (key@, t));
            assert(self@ =~= s2);
            assert forall|i: int, j: int| 0 <= i < j < s2.len() implies s2[i].0 != s2[j].0 by {
                if i == at {
                    assert(s2[j].0 == s1[j - 1].0);
                } else if j == at {
                    assert(s2[i].0 == s1[i].0);
                } else if j < at {
                    assert(s2[i] == s1[i] && s2[j] == s1[j]);
                } else if i < at {
                    assert(s2[i] == s1[i] && s2[j] == s1[j - 1]);
                } else {
                    assert(s2[i] == s1[i - 1] && s2[j] == s1[j - 1]);
                }
            }
            assert forall|i: int, j: int| 0 <= i <= j < s2.len() implies s2[i].1.nanos
                <= s2[j].1.nanos by {
                if i == at && j > at {
                    assert(s2[j] == s1[j - 1]);
                    assert(s1[at as int].1.nanos <= s1[j - 1].1.nanos);
                } else if j == at && i < at {
                    assert(s2[i] == s1[i]);
                } else if j < at {
                    assert(s2[i] == s1[i] && s2[j] == s1[j]);
                } else if i < at && j > at {
                    assert(s2[i] == s1[i] && s2[j] == s1[j - 1]);
                } else if i > at {
                    assert(s2[i] == s1[i - 1] && s2[j] == s1[j - 1]);
                }
            }
        }
        at == 0
    }

    /// Sets the expiration of `key` to `expiration`, or clears it when
    /// `expiration` is `None`. Returns whether the first pair of the order was
    /// taken out or put in.
    pub fn update(&mut self, key: String, expiration: Option<Timestamp>) -> (changed: bool)
        requires
            old(self).wf(),
        ensures
            final(self).wf(),
            final(self)@ == order_updated(old(self)@, key@, expiration),
            changed == head_touched(old(self)@, key@, expiration),
    {
        let removed_head = self.remove_key(key.as_str());
        match expiration {
            Some(t) => {
                let inserted_head = self.insert_key(key, t);
                removed_head || inserted_head
            },
            None => removed_head,
        }
    }

    /// Takes out the first key when its expiration is not later than `now`.
    pub fn pop_expired(&mut self, now: Timestamp) -> (r: Option<String>)
        requires
            old(self).wf(),
        ensures
            final(self).wf(),
            match r {
                Some(k) => {
                    &&& old(self)@.len() > 0
                    &&& old(self)@[0].1.nanos <= now.nanos
                    &&& k@ == old(self)@[0].0
                    &&& final(self)@ == old(self)@.drop_first()
                },
                None => {
                    &&& (old(self)@.len() == 0 || old(self)@[0].1.nanos > now.nanos)
                    &&& final(self)@ == old(self)@
                },
            },
    {
        if self.order.len() > 0 && self.order[0].expiration.nanos <= now.nanos {
            let ghost s0 = self@;
            match self.order.pop_front() {
                Some(first) => {
                    assert(self@ =~= s0.drop_first());
                    Some(first.key)
                },
                None => None,
            }
        } else {
            None
        }
    }
}

/// The keys of a well-formed order are exactly the keys that have an
/// expiration, and expirations never decrease along the order.
pub proof fn lemma_index_in_lockstep(index: &ExpirationIndex)
    requires
        index.wf(),
    ensures
        index.expiring_keys().dom() == index.expiration_order().to_set(),
        index.expiration_order().no_duplicates(),
        forall|i: int, j: int|
            0 <= i <= j < index.expiration_order().len() ==> index.expiring_keys()[index.expiration_order()[i]].nanos
                <= index.expiring_keys()[index.expiration_order()[j]].nanos,
{
    let s = index@;
    assert forall|k: Seq<char>| index.expiring_keys().dom().contains(k) == index.expiration_order().to_set().contains(k) by {
        if order_holds(s, k) {
            let i = order_position(s, k);
            assert(index.expiration_order()[i] == k);
        }
        if index.expiration_order().to_set().contains(k) {
            let i = choose|i: int| 0 <= i < index.expiration_order().len() && index.expiration_order()[i] == k;
            assert(s[i].0 == k);
        }
    }
    assert(index.expiring_keys().dom() =~= index.expiration_order().to_set());
    assert forall|i: int, j: int|
        0 <= i < index.expiration_order().len() && 0 <= j < index.expiration_order().len() && i != j implies index.expiration_order()[i]
            != index.expiration_order()[j] by {
        if i < j {
            assert(s[i].0 != s[j].0);
        } else {
            assert(s[j].0 != s[i].0);
        }
    }
    assert forall|i: int, j: int|
        0 <= i <= j < index.expiration_order().len() implies index.expiring_keys()[index.expiration_order()[i]].nanos
            <= index.expiring_keys()[index.expiration_order()[j]].nanos by {
        lemma_order_position(s, i);
        lemma_order_position(s, j);
    }
}

} // verus!
