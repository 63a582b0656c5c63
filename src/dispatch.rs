use vstd::prelude::*;

use crate::commit::{CommitBatch, PendingChanges};
use crate::keys::{contains_nul, full_key};
use crate::numeric::{decrement, increment};
use crate::operation::{
    command_change, command_expiration, command_output, fails_not_numeric, has_invalid_name, needs_float, numeric_operands,
    numeric_start, op_key, resolve_set, set_output, Command, KeyOperation, KeyStatus, KvError, Output,
    SetCommand,
};
use crate::state::{keeps_settings, reindexed, settled, staged, KeyValueState};
use crate::timestamp::Timestamp;
use crate::value::{opt_entry_view, value_of, Entry, EntryView, Numeric, Value, ValueView};

verus! {

/// The entry a reader sees for `k`, given pending changes `dirty` and what the
/// tree stores for `k`.
pub open spec fn current_entry(dirty: PendingChanges, k: Seq<char>, stored: Option<Entry>) -> Option<EntryView> {
    if dirty.contains_key(k) {
        dirty[k]
    } else {
        opt_entry_view(stored)
    }
}

/// A numeric command whose arithmetic is on floats, handed back to the caller
/// to compute; the state is left as it was.
#[derive(Clone, Debug)]
pub struct FloatRequest {
    pub full_key: String,
    pub existing: Numeric,
    pub amount: Numeric,
    pub saturating: bool,
    pub subtract: bool,
    pub expiration: Option<Timestamp>,
}

/// A finished operation: its output, and the batch to commit when the
/// policy said a commit was due.
#[derive(Debug)]
pub struct Finished {
    pub output: Output,
    pub commit: Option<CommitBatch>,
}

/// How far an operation got.
#[derive(Debug)]
pub enum Step {
    Finished(Finished),
    NeedsFloat(FloatRequest),
}

/// `post` is `pre` after a command on `k` over `current` staged its change and
/// updated its expiration, before the work that follows every operation.
pub open spec fn command_applied(
    pre: KeyValueState,
    post: KeyValueState,
    command: Command,
    k: Seq<char>,
    current: Option<EntryView>,
) -> bool {
    &&& post.wf()
    &&& keeps_settings(pre, post)
    &&& post.dirty() == staged(pre.dirty(), k, command_change(command, current))
    &&& post.expirations() == reindexed(pre.expirations(), k, command_expiration(command, current))
    &&& post.changes_made() == pre.changes_made() + (if command_change(command, current) is Some {
        1int
    } else {
        0int
    })
}

/// `post` is `pre` unchanged, in every part a contract speaks of.
pub open spec fn unchanged(pre: KeyValueState, post: KeyValueState) -> bool {
    &&& post.wf()
    &&& keeps_settings(pre, post)
    &&& post.dirty() == pre.dirty()
    &&& post.dirty_count() == pre.dirty_count()
    &&& post.expirations() == pre.expirations()
    &&& post.target() == pre.target()
    &&& post.changes_made() == pre.changes_made()
}

impl KeyValueState {
    fn execute_set_operation(
        &mut self,
        full_key: String,
        set: SetCommand,
        current: Option<Entry>,
        now: Timestamp,
    ) -> (r: Output)
        requires
            old(self).wf(),
        ensures
            r@ == set_output(set, opt_entry_view(current)),
            command_applied(*old(self), *final(self), Command::SetValue(set), full_key@, opt_entry_view(current)),
    {
        let outcome = resolve_set(set, current);
        match outcome.entry {
            Some(entry) => {
                let expiration = entry.expiration;
                let key = full_key.clone();
                self.stage(full_key, Some(entry));
                self.update_key_expiration(key, expiration, now);
            },
            None => {},
        }
        outcome.output
    }

    fn remove(&mut self, full_key: String, now: Timestamp)
        requires
            old(self).wf(),
        ensures
            final(self).wf(),
            keeps_settings(*old(self), *final(self)),
            final(self).dirty() == old(self).dirty().insert(full_key@, None),
            final(self).expirations() == reindexed(old(self).expirations(), full_key@, Some(None)),
            final(self).changes_made() == old(self).changes_made() + 1,
    {
        let key = full_key.clone();
        self.update_key_expiration(key, None, now);
        self.stage(full_key, None);
    }

    fn execute_numeric_operation(
        &mut self,
        full_key: String,
        amount: Numeric,
        saturating: bool,
        subtract: bool,
        current: Option<Entry>,
    ) -> (r: Result<Result<Output, FloatRequest>, KvError>)
        requires
            old(self).wf(),
        ensures
            ({
                let cur = opt_entry_view(current);
                let command = if subtract {
                    Command::Decrement { amount, saturating }
                } else {
                    Command::Increment { amount, saturating }
                };
                match r {
                    Err(e) => e == KvError::NotNumeric && fails_not_numeric(command, cur) && unchanged(
                        *old(self),
                        *final(self),
                    ),
                    Ok(Err(request)) => {
                        &&& !fails_not_numeric(command, cur)
                        &&& needs_float(command, cur)
                        &&& unchanged(*old(self), *final(self))
                        &&& request.full_key@ == full_key@
                        &&& request.existing == numeric_start(cur)->0
                        &&& request.amount == amount
                        &&& request.saturating == saturating
                        &&& request.subtract == subtract
                        &&& request.expiration == (match cur {
                            Some(e) => e.expiration,
                            None => None,
                        })
                    },
                    Ok(Ok(output)) => {
                        &&& !fails_not_numeric(command, cur)
                        &&& !needs_float(command, cur)
                        &&& output@ == command_output(command, cur)
                        &&& command_applied(*old(self), *final(self), command, full_key@, cur)
                    },
                }
            }),
    {
        let (existing, expiration) = match &current {
            None => (Numeric::UnsignedInteger(0), None),
            Some(entry) => match &entry.value {
                Value::Numeric(n) => (*n, entry.expiration),
                Value::Bytes(_) => {
                    return Err(KvError::NotNumeric);
                },
            },
        };
        let float_involved = match (existing, amount) {
            (Numeric::Float(_), _) => true,
            (_, Numeric::Float(_)) => true,
            _ => false,
        };
        if float_involved {
            return Ok(Err(FloatRequest { full_key, existing, amount, saturating, subtract, expiration }));
        }
        let value = if subtract {
            decrement(&existing, &amount, saturating)
        } else {
            increment(&existing, &amount, saturating)
        };
        self.stage(full_key, Some(Entry { value: Value::Numeric(value), expiration }));
        Ok(Ok(Output::Value(Some(Value::Numeric(value)))))
    }

    /// Runs `op` on its key; a namespace or key that holds a NUL is refused.
    /// `stored` is what the tree stores under the
    /// operation's composite key, decoded; it is read only when no change of
    /// the key is pending. After a command that succeeds comes the work of
    /// [`KeyValueState::run_background_operations`] at `now`. A numeric
    /// command on floats is handed back as a [`FloatRequest`], to be finished
    /// with [`KeyValueState::finish_float_operation`].
    pub fn perform_kv_operation(&mut self, op: KeyOperation, stored: Option<Entry>, now: Timestamp) -> (r: Result<Step, KvError>)
        requires
            old(self).wf(),
        ensures
            final(self).wf(),
            ({
                let k = op_key(op);
                let current = current_entry(old(self).dirty(), k, stored);
                match r {
                    Err(KvError::InvalidName) => has_invalid_name(op) && unchanged(*old(self), *final(self)),
                    Err(e) => e == KvError::NotNumeric && !has_invalid_name(op) && fails_not_numeric(
                        op.command,
                        current,
                    ) && unchanged(*old(self), *final(self)),
                    Ok(Step::NeedsFloat(request)) => {
                        &&& !has_invalid_name(op)
                        &&& !fails_not_numeric(op.command, current)
                        &&& needs_float(op.command, current)
                        &&& unchanged(*old(self), *final(self))
                        &&& request.full_key@ == k
                        &&& request.existing == numeric_start(current)->0
                        &&& numeric_operands(op.command) == Some((request.amount, request.saturating, request.subtract))
                        &&& request.expiration == (match current {
                            Some(e) => e.expiration,
                            None => None,
                        })
                    },
                    Ok(Step::Finished(finished)) => {
                        let d = staged(old(self).dirty(), k, command_change(op.command, current));
                        let s = reindexed(old(self).expirations(), k, command_expiration(op.command, current));
                        &&& !has_invalid_name(op)
                        &&& !fails_not_numeric(op.command, current)
                        &&& !needs_float(op.command, current)
                        &&& finished.output@ == command_output(op.command, current)
                        &&& settled(
                            d,
                            s,
                            old(self).policy(),
                            old(self).last_commit(),
                            old(self).commits_made(),
                            now,
                            *final(self),
                            finished.commit,
                        )
                    },
                }
            }),
    {
        let invalid_namespace = match &op.namespace {
            Some(ns) => contains_nul(ns.as_str()),
            None => false,
        };
        if invalid_namespace || contains_nul(op.key.as_str()) {
            return Err(KvError::InvalidName);
        }
        let full_key = full_key(
            match &op.namespace {
                Some(ns) => Some(ns.as_str()),
                None => None,
            },
            op.key.as_str(),
        );
        let current = self.read(full_key.as_str(), stored);
        let output = match op.command {
            Command::SetValue(set) => self.execute_set_operation(full_key, set, current, now),
            Command::Get { delete } => {
                if delete {
                    self.remove(full_key, now);
                }
                Output::Value(value_of(current))
            },
            Command::Delete => {
                let deleted = current.is_some();
                self.remove(full_key, now);
                if deleted {
                    Output::Status(KeyStatus::Deleted)
                } else {
                    Output::Status(KeyStatus::NotChanged)
                }
            },
            Command::Increment { amount, saturating } => {
                match self.execute_numeric_operation(full_key, amount, saturating, false, current) {
                    Err(e) => {
                        return Err(e);
                    },
                    Ok(Err(request)) => {
                        return Ok(Step::NeedsFloat(request));
                    },
                    Ok(Ok(output)) => output,
                }
            },
            Command::Decrement { amount, saturating } => {
                match self.execute_numeric_operation(full_key, amount, saturating, true, current) {
                    Err(e) => {
                        return Err(e);
                    },
                    Ok(Err(request)) => {
                        return Ok(Step::NeedsFloat(request));
                    },
                    Ok(Ok(output)) => output,
                }
            },
        };
        let commit = self.run_background_operations(now);
        Ok(Step::Finished(Finished { output, commit }))
    }

    /// Finishes a numeric command on floats with `result`, the number the
    /// caller computed: it is stored with the expiration the entry had, and
    /// the work after every operation follows.
    pub fn finish_float_operation(&mut self, request: FloatRequest, result: Numeric, now: Timestamp) -> (r: Finished)
        requires
            old(self).wf(),
        ensures
            final(self).wf(),
            r.output@ == crate::operation::OutputView::Value(Some(ValueView::Numeric(result))),
            settled(
                old(self).dirty().insert(
                    request.full_key@,
                    Some(EntryView { value: ValueView::Numeric(result), expiration: request.expiration }),
                ),
                old(self).expirations(),
                old(self).policy(),
                old(self).last_commit(),
                old(self).commits_made(),
                now,
                *final(self),
                r.commit,
            ),
    {
        self.stage(request.full_key, Some(Entry { value: Value::Numeric(result), expiration: request.expiration }));
        let commit = self.run_background_operations(now);
        Finished { output: Output::Value(Some(Value::Numeric(result))), commit }
    }
}

} // verus!
