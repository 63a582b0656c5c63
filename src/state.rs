use vstd::prelude::*;

use crate::commit::{apply_changes, lemma_commit_keeps_contents, read_through, CommitBatch, PendingChanges, TreeContents};
use crate::dirty::DirtyKeys;
use crate::expiration::{head_touched, order_keys, order_updated, order_wf, ExpirationIndex, ExpirationUpdate, ExpiryOrder};
use crate::persistence::{policy_wait, KeyValuePersistence, PersistenceThreshold};
use crate::timestamp::Timestamp;
use crate::value::{opt_entry_view, Entry, EntryView};

verus! {

/// The nanoseconds from `last` to `now`, zero when `last` comes later.
pub open spec fn elapsed_since(last: Timestamp, now: Timestamp) -> nat {
    if last.nanos <= now.nanos {
        (now.nanos - last.nanos) as nat
    } else {
        0
    }
}

/// A commit of `count` dirty keys is due now under `policy`.
pub open spec fn commit_due(policy: Seq<PersistenceThreshold>, count: nat, last: Timestamp, now: Timestamp) -> bool {
    policy_wait(policy, count, elapsed_since(last, now)) == 0
}

/// The instant the background worker should act at: the earlier of the next
/// expiration and the instant the next commit falls due.
pub open spec fn target_at(
    order: ExpiryOrder,
    policy: Seq<PersistenceThreshold>,
    count: nat,
    last: Timestamp,
    now: Timestamp,
) -> u64 {
    let expiration_target = if order.len() > 0 {
        order[0].1.nanos as int
    } else {
        u64::MAX as int
    };
    let commit = now.nanos + policy_wait(policy, count, elapsed_since(last, now));
    let commit_target = if commit > u64::MAX {
        u64::MAX as int
    } else {
        commit
    };
    (if expiration_target <= commit_target {
        expiration_target
    } else {
        commit_target
    }) as u64
}

/// `n` is how many leading keys of `s` have expired by `now`.
pub open spec fn is_expired_count(s: ExpiryOrder, now: Timestamp, n: int) -> bool {
    &&& 0 <= n <= s.len()
    &&& forall|i: int| 0 <= i < n ==> s[i].1.nanos <= now.nanos
    &&& n < s.len() ==> s[n].1.nanos > now.nanos
}

/// How many leading keys of `s` have expired by `now`.
pub open spec fn expired_count(s: ExpiryOrder, now: Timestamp) -> int {
    choose|n: int| is_expired_count(s, now, n)
}

/// `d` with a deletion staged for each of `keys`.
pub open spec fn mark_deleted(d: PendingChanges, keys: Seq<Seq<char>>) -> PendingChanges
    decreases keys.len(),
{
    if keys.len() == 0 {
        d
    } else {
        mark_deleted(d, keys.drop_last()).insert(keys.last(), None)
    }
}

/// The pending changes after the keys of `s` that expired by `now` were
/// staged for deletion.
pub open spec fn swept_changes(d: PendingChanges, s: ExpiryOrder, now: Timestamp) -> PendingChanges {
    mark_deleted(d, order_keys(s).take(expired_count(s, now)))
}

/// The order after the keys that expired by `now` were taken out.
pub open spec fn swept_order(s: ExpiryOrder, now: Timestamp) -> ExpiryOrder {
    s.skip(expired_count(s, now))
}

/// `d` with `change` staged for `k`, when there is a change.
pub open spec fn staged(d: PendingChanges, k: Seq<char>, change: Option<Option<EntryView>>) -> PendingChanges {
    match change {
        Some(c) => d.insert(k, c),
        None => d,
    }
}

/// `s` with the expiration of `k` updated, when there is an update.
pub open spec fn reindexed(s: ExpiryOrder, k: Seq<char>, update: Option<Option<Timestamp>>) -> ExpiryOrder {
    match update {
        Some(e) => order_updated(s, k, e),
        None => s,
    }
}

/// Proves that the expired count is unique.
pub proof fn lemma_expired_count_unique(s: ExpiryOrder, now: Timestamp, n: int)
    requires
        is_expired_count(s, now, n),
    ensures
        expired_count(s, now) == n,
{
    let m = expired_count(s, now);
    if m < n {
        assert(s[m].1.nanos <= now.nanos);
    } else if m > n {
        assert(s[n].1.nanos <= now.nanos);
    }
}

/// What the work after an operation leaves, from pending changes `d`, the
/// order `s`, the policy, the last commit and the commit count before it: the
/// expired keys of `s` taken out and staged for deletion; then either a batch
/// of every pending change, when a commit is due, or the pending changes kept
/// and the background target recomputed.
pub open spec fn settled(
    d: PendingChanges,
    s: ExpiryOrder,
    policy: Seq<PersistenceThreshold>,
    last: Timestamp,
    commits: nat,
    now: Timestamp,
    post: KeyValueState,
    commit: Option<CommitBatch>,
) -> bool {
    &&& post.expirations() == swept_order(s, now)
    &&& post.policy() == policy
    &&& post.last_commit() == last
    &&& match commit {
        Some(batch) => {
            &&& batch.wf()
            &&& batch@ == swept_changes(d, s, now)
            &&& batch.changes().len() > 0
            &&& commit_due(policy, batch.changes().len(), last, now)
            &&& post.dirty() == PendingChanges::empty()
            &&& post.dirty_count() == 0
            &&& post.commits_made() == commits + 1
        },
        None => {
            &&& post.dirty() == swept_changes(d, s, now)
            &&& (post.dirty_count() == 0 || !commit_due(policy, post.dirty_count(), last, now))
            &&& post.commits_made() == commits
            &&& post.target() == Some(
                Timestamp { nanos: target_at(post.expirations(), policy, post.dirty_count(), last, now) },
            )
        },
    }
}

/// `post` has the policy, last commit, published target and commit count of
/// `pre`.
pub open spec fn keeps_settings(pre: KeyValueState, post: KeyValueState) -> bool {
    &&& post.policy() == pre.policy()
    &&& post.last_commit() == pre.last_commit()
    &&& post.published() == pre.published()
    &&& post.commits_made() == pre.commits_made()
}

/// The expiration index of a well-formed state is in lockstep: the keys that
/// have an expiration are exactly the keys of the expiration order, and
/// expirations never decrease along the order. Every method keeps the state
/// well formed, so this holds after every operation.
pub proof fn lemma_state_expirations_in_lockstep(state: &KeyValueState)
    requires
        state.wf(),
    ensures
        state.index().expiring_keys().dom() == state.index().expiration_order().to_set(),
        state.index().expiration_order().no_duplicates(),
        forall|i: int, j: int|
            0 <= i <= j < state.index().expiration_order().len() ==> state.index().expiring_keys()[state.index().expiration_order()[i]].nanos
                <= state.index().expiring_keys()[state.index().expiration_order()[j]].nanos,
{
    crate::expiration::lemma_index_in_lockstep(&state.index());
}

/// A well-formed state never handed out more commits than changes were
/// staged: each commit takes at least one pending change, and each change is
/// taken by at most one commit.
pub proof fn lemma_commits_bounded(state: &KeyValueState)
    requires
        state.wf(),
    ensures
        state.commits_made() <= state.changes_made(),
        state.commits_made() + state.dirty_count() <= state.changes_made(),
{
}

/// Proves what staging deletions for `keys` leaves under `k`.
pub proof fn lemma_mark_deleted_at(d: PendingChanges, keys: Seq<Seq<char>>, k: Seq<char>)
    ensures
        keys.contains(k) ==> mark_deleted(d, keys).contains_key(k) && mark_deleted(d, keys)[k] is None,
        !keys.contains(k) ==> mark_deleted(d, keys).contains_key(k) == d.contains_key(k)
            && (d.contains_key(k) ==> mark_deleted(d, keys)[k] == d[k]),
    decreases keys.len(),
{
    if keys.len() > 0 {
        let rest = keys.drop_last();
        lemma_mark_deleted_at(d, rest, k);
        if keys.last() != k {
            if keys.contains(k) {
                let i = choose|i: int| 0 <= i < keys.len() && keys[i] == k;
                assert(rest[i] == k);
            }
            if rest.contains(k) {
                let i = choose|i: int| 0 <= i < rest.len() && rest[i] == k;
                assert(keys[i] == k);
            }
        } else {
            assert(keys[keys.len() - 1] == k);
        }
    }
}

/// After a command stages `change` for `k` and the work that follows it
/// runs, `k` reads as that change, unless `k` expired in that work, in which
/// case it reads as deleted; and it reads the same once the pending changes
/// are committed to the tree. So a key always reads as the last change made
/// to it, whether or not commits happened in between.
pub proof fn lemma_reads_follow_last_change(
    tree: TreeContents,
    d: PendingChanges,
    s: ExpiryOrder,
    now: Timestamp,
    k: Seq<char>,
    change: Option<EntryView>,
)
    ensures
        ({
            let after = swept_changes(d.insert(k, change), s, now);
            let expired = order_keys(s).take(expired_count(s, now)).contains(k);
            &&& read_through(after, tree, k) == (if expired {
                None
            } else {
                change
            })
            &&& read_through(PendingChanges::empty(), apply_changes(tree, after), k) == read_through(
                after,
                tree,
                k,
            )
        }),
{
    lemma_mark_deleted_at(d.insert(k, change), order_keys(s).take(expired_count(s, now)), k);
    lemma_commit_keeps_contents(tree, swept_changes(d.insert(k, change), s, now));
}

/// The key-value state: the expiration index, the pending changes since the
/// last commit, the persistence policy, and the instant the background worker
/// should act at.
pub struct KeyValueState {
    persistence: KeyValuePersistence,
    last_commit: Timestamp,
    background_worker_target: Option<Timestamp>,
    published_target: Option<Timestamp>,
    expiring: ExpirationIndex,
    dirty_keys: DirtyKeys,
    changes_made: Ghost<nat>,
    commits_made: Ghost<nat>,
}

impl KeyValueState {
    /// The pending changes since the last commit.
    pub closed spec fn dirty(&self) -> PendingChanges {
        self.dirty_keys@
    }

    /// The number of keys with a pending change.
    pub closed spec fn dirty_count(&self) -> nat {
        self.dirty_keys.count()
    }

    /// The expiration index.
    pub closed spec fn index(&self) -> ExpirationIndex {
        self.expiring
    }

    /// The keys that expire, in order, with their expirations.
    pub open spec fn expirations(&self) -> ExpiryOrder {
        self.index()@
    }

    /// The persistence policy's thresholds.
    pub closed spec fn policy(&self) -> Seq<PersistenceThreshold> {
        self.persistence.thresholds@
    }

    /// The instant of the last commit.
    pub closed spec fn last_commit(&self) -> Timestamp {
        self.last_commit
    }

    /// The instant the background worker should act at.
    pub closed spec fn target(&self) -> Option<Timestamp> {
        self.background_worker_target
    }

    /// The last target handed to the background worker.
    pub closed spec fn published(&self) -> Option<Timestamp> {
        self.published_target
    }

    /// How many changes were staged since the state was made.
    pub closed spec fn changes_made(&self) -> nat {
        self.changes_made@
    }

    /// How many commits the state handed out.
    pub closed spec fn commits_made(&self) -> nat {
        self.commits_made@
    }

    /// The state is well formed: its index and buffer are, and every commit
    /// took at least one change that no other commit took.
    pub closed spec fn wf(&self) -> bool {
        &&& self.expiring.wf()
        &&& self.dirty_keys.wf()
        &&& self.commits_made@ + self.dirty_keys.count() <= self.changes_made@
    }

    /// The number of dirty keys is the number of keys with a pending change.
    pub proof fn lemma_dirty_count(&self)
        requires
            self.wf(),
        ensures
            self.dirty().dom().finite(),
            self.dirty_count() == self.dirty().dom().len(),
    {
        self.dirty_keys.lemma_count();
    }

    /// A state with nothing pending, whose last commit was at `now`.
    pub fn new(persistence: KeyValuePersistence, now: Timestamp) -> (r: KeyValueState)
        ensures
            r.wf(),
            r.dirty() == PendingChanges::empty(),
            r.dirty_count() == 0,
            r.expirations() == Seq::<(Seq<char>, Timestamp)>::empty(),
            r.policy() == persistence.thresholds@,
            r.last_commit() == now,
            r.target() is None,
            r.published() is None,
            r.changes_made() == 0,
            r.commits_made() == 0,
    {
        KeyValueState {
            persistence,
            last_commit: now,
            background_worker_target: None,
            published_target: None,
            expiring: ExpirationIndex::new(),
            dirty_keys: DirtyKeys::new(),
            changes_made: Ghost(0),
            commits_made: Ghost(0),
        }
    }

    /// Whether the tree's entry for `full_key` is needed: it is when no
    /// change of the key is pending.
    pub fn needs_stored_value(&self, full_key: &str) -> (r: bool)
        requires
            self.wf(),
        ensures
            r == !self.dirty().contains_key(full_key@),
    {
        self.dirty_keys.get(full_key).is_none()
    }

    /// The instant the background worker should act at, when one was computed.
    pub fn background_worker_target(&self) -> (r: Option<Timestamp>)
        ensures
            r == self.target(),
    {
        self.background_worker_target
    }

    /// The instant of the last commit.
    pub fn last_commit_at(&self) -> (r: Timestamp)
        ensures
            r == self.last_commit(),
    {
        self.last_commit
    }

    /// The earliest expiration of a key, when any key expires.
    pub fn next_expiration(&self) -> (r: Option<Timestamp>)
        ensures
            match r {
                Some(t) => self.expirations().len() > 0 && t == self.expirations()[0].1,
                None => self.expirations().len() == 0,
            },
    {
        self.expiring.next_expiration()
    }

    /// The number of keys that expire.
    pub fn expiring_len(&self) -> (r: usize)
        ensures
            r == self.expirations().len(),
    {
        self.expiring.len()
    }

    /// The number of keys with a pending change.
    pub fn dirty_len(&self) -> (r: usize)
        ensures
            r == self.dirty_count(),
    {
        self.dirty_keys.len()
    }

    /// The entry a reader sees for `full_key`, given what the tree stores for
    /// it: the pending change wins.
    pub fn read(&self, full_key: &str, stored: Option<Entry>) -> (r: Option<Entry>)
        requires
            self.wf(),
        ensures
            opt_entry_view(r) == (if self.dirty().contains_key(full_key@) {
                self.dirty()[full_key@]
            } else {
                opt_entry_view(stored)
            }),
    {
        match self.dirty_keys.get(full_key) {
            Some(change) => crate::value::duplicate_entry(change),
            None => stored,
        }
    }

    /// Stages `change` for `key`.
    pub(crate) fn stage(&mut self, key: String, change: Option<Entry>)
        requires
            old(self).wf(),
        ensures
            final(self).wf(),
            final(self).dirty() == old(self).dirty().insert(key@, opt_entry_view(change)),
            final(self).dirty_count() <= old(self).dirty_count() + 1,
            final(self).changes_made() == old(self).changes_made() + 1,
            final(self).commits_made() == old(self).commits_made(),
            final(self).expirations() == old(self).expirations(),
            final(self).policy() == old(self).policy(),
            final(self).last_commit() == old(self).last_commit(),
            final(self).target() == old(self).target(),
            final(self).published() == old(self).published(),
    {
        let _ = self.dirty_keys.replace(key, change);
        self.changes_made = Ghost(self.changes_made@ + 1);
    }

    /// Recomputes the instant the background worker should act at.
    pub fn update_background_worker_target(&mut self, now: Timestamp)
        requires
            old(self).wf(),
        ensures
            final(self).wf(),
            final(self).target() == Some(
                Timestamp {
                    nanos: target_at(
                        old(self).expirations(),
                        old(self).policy(),
                        old(self).dirty_count(),
                        old(self).last_commit(),
                        now,
                    ),
                },
            ),
            final(self).dirty() == old(self).dirty(),
            final(self).dirty_count() == old(self).dirty_count(),
            final(self).expirations() == old(self).expirations(),
            final(self).policy() == old(self).policy(),
            final(self).last_commit() == old(self).last_commit(),
            final(self).published() == old(self).published(),
            final(self).changes_made() == old(self).changes_made(),
            final(self).commits_made() == old(self).commits_made(),
    {
        let expiration_target = match self.expiring.next_expiration() {
            Some(t) => t,
            None => Timestamp::max(),
        };
        let elapsed = match now.duration_since(self.last_commit) {
            Some(d) => d,
            None => 0,
        };
        let wait = self.persistence.duration_until_next_commit(self.dirty_keys.len(), elapsed);
        let commit_target = now.saturating_add(wait);
        self.background_worker_target = Some(expiration_target.earliest(commit_target));
    }

    /// The target to hand to the background worker, when it changed since it
    /// was last handed over.
    pub fn take_target_update(&mut self) -> (r: Option<Timestamp>)
        requires
            old(self).wf(),
        ensures
            final(self).wf(),
            r == (if old(self).target() != old(self).published() {
                old(self).target()
            } else {
                None
            }),
            final(self).published() == old(self).target(),
            final(self).target() == old(self).target(),
            final(self).dirty() == old(self).dirty(),
            final(self).dirty_count() == old(self).dirty_count(),
            final(self).expirations() == old(self).expirations(),
            final(self).policy() == old(self).policy(),
            final(self).last_commit() == old(self).last_commit(),
            final(self).changes_made() == old(self).changes_made(),
            final(self).commits_made() == old(self).commits_made(),
    {
        if self.background_worker_target != self.published_target {
            self.published_target = self.background_worker_target;
            self.background_worker_target
        } else {
            None
        }
    }

    /// Applies an expiration update to the index. When it moves the first
    /// expiration, the background target is recomputed.
    pub fn update_expiration(&mut self, update: ExpirationUpdate, now: Timestamp)
        requires
            old(self).wf(),
        ensures
            final(self).wf(),
            final(self).expirations() == order_updated(old(self).expirations(), update.tree_key@, update.expiration),
            final(self).dirty() == old(self).dirty(),
            final(self).dirty_count() == old(self).dirty_count(),
            final(self).policy() == old(self).policy(),
            final(self).last_commit() == old(self).last_commit(),
            final(self).published() == old(self).published(),
            final(self).changes_made() == old(self).changes_made(),
            final(self).commits_made() == old(self).commits_made(),
            final(self).target() == (if head_touched(old(self).expirations(), update.tree_key@, update.expiration) {
                Some(
                    Timestamp {
                        nanos: target_at(
                            final(self).expirations(),
                            old(self).policy(),
                            old(self).dirty_count(),
                            old(self).last_commit(),
                            now,
                        ),
                    },
                )
            } else {
                old(self).target()
            }),
    {
        let changed_first_expiration = self.expiring.update(update.tree_key, update.expiration);
        if changed_first_expiration {
            self.update_background_worker_target(now);
        }
    }

    /// Sets the expiration of `key`, or clears it when `expiration` is
    /// `None`.
    pub fn update_key_expiration(&mut self, key: String, expiration: Option<Timestamp>, now: Timestamp)
        requires
            old(self).wf(),
        ensures
            final(self).wf(),
            final(self).expirations() == order_updated(old(self).expirations(), key@, expiration),
            final(self).dirty() == old(self).dirty(),
            final(self).dirty_count() == old(self).dirty_count(),
            final(self).policy() == old(self).policy(),
            final(self).last_commit() == old(self).last_commit(),
            final(self).published() == old(self).published(),
            final(self).changes_made() == old(self).changes_made(),
            final(self).commits_made() == old(self).commits_made(),
            final(self).target() == (if head_touched(old(self).expirations(), key@, expiration) {
                Some(
                    Timestamp {
                        nanos: target_at(
                            final(self).expirations(),
                            old(self).policy(),
                            old(self).dirty_count(),
                            old(self).last_commit(),
                            now,
                        ),
                    },
                )
            } else {
                old(self).target()
            }),
    {
        self.update_expiration(ExpirationUpdate::new(key, expiration), now);
    }

    /// Stages a deletion for every key whose expiration is not later than
    /// `now`, and takes those keys out of the index.
    fn remove_expired_keys(&mut self, now: Timestamp)
        requires
            old(self).wf(),
        ensures
            final(self).wf(),
            final(self).expirations() == swept_order(old(self).expirations(), now),
            final(self).dirty() == swept_changes(old(self).dirty(), old(self).expirations(), now),
            final(self).changes_made() == old(self).changes_made() + expired_count(
                old(self).expirations(),
                now,
            ),
            final(self).commits_made() == old(self).commits_made(),
            final(self).policy() == old(self).policy(),
            final(self).last_commit() == old(self).last_commit(),
            final(self).target() == old(self).target(),
            final(self).published() == old(self).published(),
    {
        let ghost s = self.expiring@;
        let ghost d = self.dirty_keys@;
        let ghost c = self.changes_made@;
        let _ = self.expiring.len();
        let mut i: usize = 0;
        loop
            invariant
                self.wf(),
                s.len() <= usize::MAX,
                order_wf(s),
                0 <= i <= s.len(),
                self.expiring@ == s.skip(i as int),
                self.dirty_keys@ == mark_deleted(d, order_keys(s).take(i as int)),
                forall|j: int| 0 <= j < i ==> s[j].1.nanos <= now.nanos,
                self.changes_made@ == c + i,
                self.commits_made@ == old(self).commits_made@,
                self.persistence == old(self).persistence,
                self.last_commit == old(self).last_commit,
                self.background_worker_target == old(self).background_worker_target,
                self.published_target == old(self).published_target,
            ensures
                self.wf(),
                self.expiring@ == s.skip(i as int),
                self.dirty_keys@ == mark_deleted(d, order_keys(s).take(i as int)),
                is_expired_count(s, now, i as int),
                self.changes_made@ == c + i,
                self.commits_made@ == old(self).commits_made@,
                self.persistence == old(self).persistence,
                self.last_commit == old(self).last_commit,
                self.background_worker_target == old(self).background_worker_target,
                self.published_target == old(self).published_target,
            decreases s.len() - i,
        {
            let ghost before = self.expiring@;
            match self.expiring.pop_expired(now) {
                Some(key) => {
                    proof {
                        assert(before.len() > 0);
                        assert(s.skip(i as int)[0] == s[i as int]);
                        let ks = order_keys(s).take(i + 1);
                        assert(ks.drop_last() =~= order_keys(s).take(i as int));
                        assert(ks.last() == key@);
                        assert(s.skip(i as int).drop_first() =~= s.skip(i + 1));
                    }
                    let _ = self.dirty_keys.replace(key, None);
                    self.changes_made = Ghost(self.changes_made@ + 1);
                    i = i + 1;
                },
                None => {
                    proof {
                        if i < s.len() {
                            assert(s.skip(i as int)[0] == s[i as int]);
                        }
                    }
                    break;
                },
            }
        }
        proof {
            lemma_expired_count_unique(s, now, i as int);
        }
    }

    /// Moves the pending changes into a batch to commit, counting the commit;
    /// `None` when nothing is pending.
    fn take_commit_batch(&mut self) -> (r: Option<CommitBatch>)
        requires
            old(self).wf(),
        ensures
            final(self).wf(),
            match r {
                Some(batch) => {
                    &&& batch.wf()
                    &&& batch@ == old(self).dirty()
                    &&& batch.changes().len() == old(self).dirty_count()
                    &&& old(self).dirty_count() > 0
                    &&& final(self).commits_made() == old(self).commits_made() + 1
                },
                None => {
                    &&& old(self).dirty_count() == 0
                    &&& final(self).commits_made() == old(self).commits_made()
                },
            },
            final(self).dirty() == PendingChanges::empty(),
            final(self).dirty_count() == 0,
            final(self).changes_made() == old(self).changes_made(),
            final(self).expirations() == old(self).expirations(),
            final(self).policy() == old(self).policy(),
            final(self).last_commit() == old(self).last_commit(),
            final(self).target() == old(self).target(),
            final(self).published() == old(self).published(),
    {
        if self.dirty_keys.is_empty() {
            None
        } else {
            let pending = self.dirty_keys.take();
            proof {
                pending.lemma_view();
            }
            self.commits_made = Ghost(self.commits_made@ + 1);
            Some(CommitBatch::new(pending))
        }
    }

    /// The work that follows every successful operation, and that the
    /// background worker does when its target comes: expired keys are staged
    /// for deletion; then the pending changes are handed out to commit when
    /// the policy says a commit is due, and otherwise the background target is
    /// recomputed.
    pub fn run_background_operations(&mut self, now: Timestamp) -> (r: Option<CommitBatch>)
        requires
            old(self).wf(),
        ensures
            final(self).wf(),
            settled(
                old(self).dirty(),
                old(self).expirations(),
                old(self).policy(),
                old(self).last_commit(),
                old(self).commits_made(),
                now,
                *final(self),
                r,
            ),
            final(self).published() == old(self).published(),
            final(self).changes_made() == old(self).changes_made() + expired_count(
                old(self).expirations(),
                now,
            ),
    {
        self.remove_expired_keys(now);
        let elapsed = match now.duration_since(self.last_commit) {
            Some(d) => d,
            None => 0,
        };
        let count = self.dirty_keys.len();
        if count > 0 && self.persistence.should_commit(count, elapsed) {
            self.take_commit_batch()
        } else {
            self.update_background_worker_target(now);
            None
        }
    }

    /// Records that a commit finished at `now`, and recomputes the background
    /// target.
    pub fn commit_completed(&mut self, now: Timestamp)
        requires
            old(self).wf(),
        ensures
            final(self).wf(),
            final(self).last_commit() == now,
            final(self).target() == Some(
                Timestamp {
                    nanos: target_at(
                        old(self).expirations(),
                        old(self).policy(),
                        old(self).dirty_count(),
                        now,
                        now,
                    ),
                },
            ),
            final(self).dirty() == old(self).dirty(),
            final(self).dirty_count() == old(self).dirty_count(),
            final(self).expirations() == old(self).expirations(),
            final(self).policy() == old(self).policy(),
            final(self).published() == old(self).published(),
            final(self).changes_made() == old(self).changes_made(),
            final(self).commits_made() == old(self).commits_made(),
    {
        self.last_commit = now;
        self.update_background_worker_target(now);
    }

    /// Hands out every pending change to commit before the state is dropped;
    /// `None` when nothing is pending.
    pub fn shutdown(&mut self) -> (r: Option<CommitBatch>)
        requires
            old(self).wf(),
        ensures
            final(self).wf(),
            final(self).dirty() == PendingChanges::empty(),
            final(self).dirty_count() == 0,
            match r {
                Some(batch) => batch.wf() && batch@ == old(self).dirty() && batch.changes().len()
                    == old(self).dirty_count() && old(self).dirty_count() > 0,
                None => old(self).dirty_count() == 0,
            },
            final(self).expirations() == old(self).expirations(),
            final(self).changes_made() == old(self).changes_made(),
    {
        self.take_commit_batch()
    }
}

} // verus!
