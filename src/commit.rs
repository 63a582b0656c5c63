use vstd::prelude::*;

use crate::dirty::DirtyKeys;
use crate::keys::{opt_string_view, split_composite, split_key};
use crate::order::key_less;
use crate::value::{duplicate_entry, opt_entry_view, Entry, EntryView};

verus! {

/// The contents of the tree: an entry for each stored composite key.
pub type TreeContents = Map<Seq<char>, EntryView>;

/// Pending changes: `Some` writes an entry, `None` deletes the key.
pub type PendingChanges = Map<Seq<char>, Option<EntryView>>;

/// The entry of `k` in `m`, when it has one.
pub open spec fn stored(m: TreeContents, k: Seq<char>) -> Option<EntryView> {
    if m.contains_key(k) {
        Some(m[k])
    } else {
        None
    }
}

/// The entry a reader sees for `k`: the pending change wins over the tree.
pub open spec fn read_through(changes: PendingChanges, tree: TreeContents, k: Seq<char>) -> Option<EntryView> {
    if changes.contains_key(k) {
        changes[k]
    } else {
        stored(tree, k)
    }
}

/// The tree after `changes` were applied to it.
pub open spec fn apply_changes(tree: TreeContents, changes: PendingChanges) -> TreeContents {
    Map::new(
        |k: Seq<char>|
            if changes.contains_key(k) {
                changes[k] is Some
            } else {
                tree.contains_key(k)
            },
        |k: Seq<char>|
            if changes.contains_key(k) {
                changes[k]->0
            } else {
                tree[k]
            },
    )
}

/// What a commit does to one key of the tree.
#[derive(Clone, Debug)]
pub enum KeyAction {
    /// Stores the entry.
    Write(Entry),
    /// Removes the stored entry.
    Remove,
    /// Leaves the key as it is.
    Skip,
}

/// The mathematical value of a [`KeyAction`].
pub enum KeyActionView {
    Write(EntryView),
    Remove,
    Skip,
}

impl View for KeyAction {
    type V = KeyActionView;

    open spec fn view(&self) -> KeyActionView {
        match self {
            KeyAction::Write(e) => KeyActionView::Write(e@),
            KeyAction::Remove => KeyActionView::Remove,
            KeyAction::Skip => KeyActionView::Skip,
        }
    }
}

/// The action that persists `change` over a key whose tree entry is present
/// or not: a write is written, a deletion removes what is there and skips
/// what is not.
pub open spec fn persist_action(change: Option<EntryView>, existing_present: bool) -> KeyActionView {
    match change {
        Some(e) => KeyActionView::Write(e),
        None => if existing_present {
            KeyActionView::Remove
        } else {
            KeyActionView::Skip
        },
    }
}

/// The entry of a key after `action` ran on it.
pub open spec fn entry_after(before: Option<EntryView>, action: KeyActionView) -> Option<EntryView> {
    match action {
        KeyActionView::Write(e) => Some(e),
        KeyActionView::Remove => None,
        KeyActionView::Skip => before,
    }
}

/// A record, for the transaction log, that a key was written or deleted.
#[derive(Clone, Debug)]
pub struct ChangedKey {
    pub namespace: Option<String>,
    pub key: String,
    pub deleted: bool,
}

/// The mathematical value of a [`ChangedKey`].
pub struct ChangedKeyView {
    pub namespace: Option<Seq<char>>,
    pub key: Seq<char>,
    pub deleted: bool,
}

impl View for ChangedKey {
    type V = ChangedKeyView;

    open spec fn view(&self) -> ChangedKeyView {
        ChangedKeyView { namespace: opt_string_view(self.namespace), key: self.key@, deleted: self.deleted }
    }
}

/// The changes a commit made, for the transaction log.
#[derive(Clone, Debug)]
pub enum Changes {
    Keys(Vec<ChangedKey>),
}

/// The record a commit of `change` on the composite key `k` leaves: none when
/// nothing changed, or when `k` is no composite key.
pub open spec fn change_record(k: Seq<char>, change: Option<EntryView>, existing_present: bool) -> Option<ChangedKeyView> {
    match split_composite(k) {
        Some((namespace, key)) => match persist_action(change, existing_present) {
            KeyActionView::Write(_) => Some(ChangedKeyView { namespace, key, deleted: false }),
            KeyActionView::Remove => Some(ChangedKeyView { namespace, key, deleted: true }),
            KeyActionView::Skip => None,
        },
        None => None,
    }
}

/// The view of each record of a list.
pub open spec fn records_view(v: Seq<ChangedKey>) -> Seq<ChangedKeyView> {
    Seq::new(v.len(), |i: int| v[i]@)
}

/// A snapshot of the pending changes, taken out of the state to be written to
/// the tree in one transaction, with the records of what it changed.
#[derive(Debug)]
pub struct CommitBatch {
    pending: DirtyKeys,
    changed: Vec<ChangedKey>,
}

impl View for CommitBatch {
    type V = PendingChanges;

    closed spec fn view(&self) -> PendingChanges {
        self.pending@
    }
}

impl CommitBatch {
    /// The changes in ascending key order.
    pub closed spec fn changes(&self) -> Seq<(Seq<char>, Option<EntryView>)> {
        self.pending.changes()
    }

    /// The records of what the commit changed so far.
    pub closed spec fn records(&self) -> Seq<ChangedKeyView> {
        records_view(self.changed@)
    }

    /// The batch is well formed.
    pub closed spec fn wf(&self) -> bool {
        self.pending.wf()
    }

    /// A batch of `pending`, with nothing recorded yet.
    pub fn new(pending: DirtyKeys) -> (r: CommitBatch)
        requires
            pending.wf(),
        ensures
            r.wf(),
            r@ == pending@,
            r.changes() == pending.changes(),
            r.records() == Seq::<ChangedKeyView>::empty(),
    {
        let r = CommitBatch { pending, changed: Vec::new() };
        assert(r.records() =~= Seq::<ChangedKeyView>::empty());
        r
    }

    /// The number of keys the batch changes is the number of its keys.
    pub proof fn lemma_count(&self)
        requires
            self.wf(),
        ensures
            self@.dom().finite(),
            self.changes().len() == self@.dom().len(),
    {
        self.pending.lemma_view();
        self.pending.lemma_count();
    }

    /// The number of keys the batch changes.
    pub fn len(&self) -> (r: usize)
        requires
            self.wf(),
        ensures
            r == self.changes().len(),
    {
        proof {
            self.pending.lemma_view();
        }
        self.pending.len()
    }

    /// The keys the batch changes, in strictly ascending order.
    pub fn keys(&self) -> (r: Vec<String>)
        requires
            self.wf(),
        ensures
            r@.len() == self.changes().len(),
            forall|i: int| 0 <= i < r@.len() ==> (#[trigger] r@[i])@ == self.changes()[i].0,
            forall|p: int, q: int| 0 <= p < q < r@.len() ==> key_less(r@[p]@, r@[q]@),
            forall|i: int| 0 <= i < r@.len() ==> self@.contains_key((#[trigger] r@[i])@),
            forall|k: Seq<char>|
                #[trigger] self@.contains_key(k) ==> exists|i: int| 0 <= i < r@.len() && r@[i]@ == k,
    {
        proof {
            self.pending.lemma_view();
        }
        let n = self.pending.len();
        let mut keys: Vec<String> = Vec::new();
        let mut i: usize = 0;
        while i < n
            invariant
                self.wf(),
                n == self.changes().len(),
                n == self.pending.count(),
                i <= n,
                keys@.len() == i,
                forall|j: int| 0 <= j < i ==> (#[trigger] keys@[j])@ == self.changes()[j].0,
            decreases n - i,
        {
            keys.push(self.pending.key_at(i).clone());
            i = i + 1;
        }
        proof {
            self.pending.lemma_view();
            assert forall|k: Seq<char>| #[trigger] self@.contains_key(k) implies exists|i: int|
                0 <= i < keys@.len() && keys@[i]@ == k by {
                let i = choose|i: int| 0 <= i < self.changes().len() && self.changes()[i].0 == k;
                assert(keys@[i]@ == k);
            }
        }
        keys
    }

    /// The action that persists the change of `key` over a tree in which the
    /// key is present or not, recording what it changes. A key the batch does
    /// not hold is skipped.
    pub fn resolve(&mut self, key: &str, existing_present: bool) -> (r: KeyAction)
        requires
            old(self).wf(),
        ensures
            final(self).wf(),
            final(self)@ == old(self)@,
            final(self).changes() == old(self).changes(),
            old(self)@.contains_key(key@) ==> r@ == persist_action(old(self)@[key@], existing_present)
                && final(self).records() == match change_record(key@, old(self)@[key@], existing_present) {
                    Some(record) => old(self).records().push(record),
                    None => old(self).records(),
                },
            !old(self)@.contains_key(key@) ==> r@ == KeyActionView::Skip && final(self).records()
                == old(self).records(),
    {
        let change = match self.pending.get(key) {
            Some(change) => duplicate_entry(change),
            None => {
                return KeyAction::Skip;
            },
        };
        let ghost c = opt_entry_view(change);
        let deleted = change.is_none();
        let action = match change {
            Some(entry) => KeyAction::Write(entry),
            None => if existing_present {
                KeyAction::Remove
            } else {
                KeyAction::Skip
            },
        };
        if deleted && !existing_present {
            return action;
        }
        match split_key(key) {
            Some((namespace, name)) => {
                let ghost before = self.changed@;
                self.changed.push(ChangedKey { namespace, key: name, deleted });
                proof {
                    assert(records_view(self.changed@) =~= records_view(before).push(
                        self.changed@.last()@,
                    ));
                }
            },
            None => {},
        }
        action
    }

    /// The changes to record in the transaction log: `None` when the commit
    /// changed nothing.
    pub fn into_changes(self) -> (r: Option<Changes>)
        ensures
            match r {
                Some(Changes::Keys(keys)) => self.records().len() > 0 && records_view(keys@)
                    == self.records(),
                None => self.records().len() == 0,
            },
    {
        if self.changed.len() == 0 {
            None
        } else {
            Some(Changes::Keys(self.changed))
        }
    }
}

/// Applying the action chosen for a key of a batch leaves that key as the
/// whole batch applied to the tree leaves it.
pub proof fn lemma_action_applies_change(tree: TreeContents, changes: PendingChanges, k: Seq<char>)
    requires
        changes.contains_key(k),
    ensures
        entry_after(stored(tree, k), persist_action(changes[k], tree.contains_key(k))) == stored(
            apply_changes(tree, changes),
            k,
        ),
{
}

/// After pending changes are written to the tree and the buffer is emptied,
/// every key reads as it did before: a commit changes where an entry lives,
/// never what a reader sees.
pub proof fn lemma_commit_keeps_contents(tree: TreeContents, changes: PendingChanges)
    ensures
        forall|k: Seq<char>|
            read_through(Map::empty(), apply_changes(tree, changes), k) == #[trigger] read_through(
                changes,
                tree,
                k,
            ),
{
}

/// A commit writes exactly what readers saw when its batch was taken: the tree
/// after the batch is the read-through contents at that moment, so every
/// committed state is one that callers observed.
pub proof fn lemma_commit_is_snapshot(tree: TreeContents, changes: PendingChanges)
    ensures
        apply_changes(tree, changes) == Map::new(
            |k: Seq<char>| read_through(changes, tree, k) is Some,
            |k: Seq<char>| read_through(changes, tree, k)->0,
        ),
{
    assert(apply_changes(tree, changes) =~= Map::new(
        |k: Seq<char>| read_through(changes, tree, k) is Some,
        |k: Seq<char>| read_through(changes, tree, k)->0,
    ));
}

/// Once a batch is written, the tree holds every pending write and lacks every
/// pending deletion.
pub proof fn lemma_batch_persists_every_change(tree: TreeContents, changes: PendingChanges)
    ensures
        forall|k: Seq<char>|
            #[trigger] changes.contains_key(k) ==> stored(apply_changes(tree, changes), k) == changes[k],
{
}

} // verus!
