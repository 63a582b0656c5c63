use vstd::prelude::*;

verus! {

/// The wait, in nanoseconds, that stands for "never".
pub const NEVER: u64 = u64::MAX;

/// A condition under which pending changes are committed: at least
/// `number_of_changes` keys are dirty and, when `duration` is set, at least
/// that many nanoseconds have passed since the last commit.
#[derive(Clone, Copy, Debug, PartialEq, Eq, Structural)]
pub struct PersistenceThreshold {
    pub number_of_changes: usize,
    pub duration: Option<u64>,
}

/// The nanoseconds until `t` is met, `NEVER` when `count` dirty keys are too
/// few for it.
pub open spec fn threshold_wait(t: PersistenceThreshold, count: nat, elapsed: nat) -> nat {
    if count < t.number_of_changes {
        NEVER as nat
    } else {
        match t.duration {
            None => 0,
            Some(d) => if elapsed >= d {
                0
            } else {
                (d - elapsed) as nat
            },
        }
    }
}

/// The smaller of two waits.
pub open spec fn shorter(a: nat, b: nat) -> nat {
    if a <= b {
        a
    } else {
        b
    }
}

/// The nanoseconds until the first of `ts` is met, `NEVER` when none can be.
pub open spec fn policy_wait(ts: Seq<PersistenceThreshold>, count: nat, elapsed: nat) -> nat
    decreases ts.len(),
{
    if ts.len() == 0 {
        NEVER as nat
    } else {
        shorter(threshold_wait(ts.last(), count, elapsed), policy_wait(ts.drop_last(), count, elapsed))
    }
}

/// Proves that the wait is zero exactly when some threshold is met.
pub proof fn lemma_policy_wait_zero(ts: Seq<PersistenceThreshold>, count: nat, elapsed: nat)
    ensures
        (policy_wait(ts, count, elapsed) == 0) == (exists|i: int|
            0 <= i < ts.len() && threshold_wait(#[trigger] ts[i], count, elapsed) == 0),
    decreases ts.len(),
{
    if ts.len() > 0 {
        let rest = ts.drop_last();
        lemma_policy_wait_zero(rest, count, elapsed);
        if policy_wait(rest, count, elapsed) == 0 {
            let i = choose|i: int| 0 <= i < rest.len() && threshold_wait(#[trigger] rest[i], count, elapsed) == 0;
            assert(ts[i] == rest[i]);
        }
        if exists|i: int| 0 <= i < ts.len() && threshold_wait(#[trigger] ts[i], count, elapsed) == 0 {
            let i = choose|i: int| 0 <= i < ts.len() && threshold_wait(#[trigger] ts[i], count, elapsed) == 0;
            if i < ts.len() - 1 {
                assert(rest[i] == ts[i]);
            }
        }
    }
}

impl PersistenceThreshold {
    /// Met once `number_of_changes` keys are dirty.
    pub fn after_changes(number_of_changes: usize) -> (r: PersistenceThreshold)
        ensures
            r.number_of_changes == number_of_changes,
            r.duration is None,
    {
        PersistenceThreshold { number_of_changes, duration: None }
    }

    /// This threshold, met only once `nanos` nanoseconds have also passed
    /// since the last commit.
    pub fn and_duration(self, nanos: u64) -> (r: PersistenceThreshold)
        ensures
            r.number_of_changes == self.number_of_changes,
            r.duration == Some(nanos),
    {
        PersistenceThreshold { number_of_changes: self.number_of_changes, duration: Some(nanos) }
    }

    /// The nanoseconds until this threshold is met, `NEVER` when `count`
    /// dirty keys are too few.
    pub fn wait(&self, count: usize, elapsed: u64) -> (r: u64)
        ensures
            r == threshold_wait(*self, count as nat, elapsed as nat),
    {
        if count < self.number_of_changes {
            NEVER
        } else {
            match self.duration {
                None => 0,
                Some(d) => if elapsed >= d {
                    0
                } else {
                    d - elapsed
                },
            }
        }
    }
}

/// When pending changes are committed: as soon as any one threshold is met.
#[derive(Clone, Debug)]
pub struct KeyValuePersistence {
    pub thresholds: Vec<PersistenceThreshold>,
}

impl KeyValuePersistence {
    /// Commits as soon as one key is dirty.
    pub fn immediate() -> (r: KeyValuePersistence)
        ensures
            r.thresholds@ == seq![PersistenceThreshold { number_of_changes: 1, duration: None }],
    {
        let mut thresholds = Vec::new();
        thresholds.push(PersistenceThreshold::after_changes(1));
        KeyValuePersistence { thresholds }
    }

    /// Commits as soon as any of `thresholds` is met.
    pub fn lazy(thresholds: Vec<PersistenceThreshold>) -> (r: KeyValuePersistence)
        ensures
            r.thresholds@ == thresholds@,
    {
        KeyValuePersistence { thresholds }
    }

    /// The nanoseconds until the next commit is due, given `count` dirty keys
    /// and `elapsed` nanoseconds since the last commit: zero when a threshold
    /// is met now, `NEVER` when none can be met with `count` keys.
    pub fn duration_until_next_commit(&self, count: usize, elapsed: u64) -> (r: u64)
        ensures
            r == policy_wait(self.thresholds@, count as nat, elapsed as nat),
    {
        let mut shortest: u64 = NEVER;
        let mut i: usize = 0;
        while i < self.thresholds.len()
            invariant
                i <= self.thresholds@.len(),
                shortest == policy_wait(self.thresholds@.subrange(0, i as int), count as nat, elapsed as nat),
            decreases self.thresholds@.len() - i,
        {
            let wait = self.thresholds[i].wait(count, elapsed);
            proof {
                let next = self.thresholds@.subrange(0, i + 1);
                assert(next.drop_last() =~= self.thresholds@.subrange(0, i as int));
                assert(next.last() == self.thresholds@[i as int]);
            }
            if wait < shortest {
                shortest = wait;
            }
            i = i + 1;
        }
        assert(self.thresholds@.subrange(0, i as int) =~= self.thresholds@);
        shortest
    }

    /// Whether a commit is due now.
    pub fn should_commit(&self, count: usize, elapsed: u64) -> (r: bool)
        ensures
            r == (policy_wait(self.thresholds@, count as nat, elapsed as nat) == 0),
            r == exists|i: int|
                0 <= i < self.thresholds@.len() && threshold_wait(
                    #[trigger] self.thresholds@[i],
                    count as nat,
                    elapsed as nat,
                ) == 0,
    {
        proof {
            lemma_policy_wait_zero(self.thresholds@, count as nat, elapsed as nat);
        }
        self.duration_until_next_commit(count, elapsed) == 0
    }
}

} // verus!
