use vstd::prelude::*;

use crate::keys::{composite_key, nul, opt_string_view};
use crate::numeric::{decremented, incremented, is_float};
use crate::timestamp::Timestamp;
use crate::value::{opt_entry_view, value_of, Entry, EntryView, Numeric, Value, ValueView};

verus! {

/// A condition on the current entry for a `Set` to take effect.
#[derive(Clone, Copy, Debug, PartialEq, Eq, Structural)]
pub enum KeyCheck {
    /// Only when the key has a value.
    OnlyIfPresent,
    /// Only when the key has no value.
    OnlyIfVacant,
}

/// Stores a value under a key.
#[derive(Clone, Debug)]
pub struct SetCommand {
    pub value: Value,
    pub expiration: Option<Timestamp>,
    pub keep_existing_expiration: bool,
    pub check: Option<KeyCheck>,
    pub return_previous_value: bool,
}

/// What an operation does to its key.
#[derive(Clone, Debug)]
pub enum Command {
    /// Stores a value.
    SetValue(SetCommand),
    /// Reads the value, and removes it when `delete` is set.
    Get { delete: bool },
    /// Removes the value.
    Delete,
    /// Adds `amount` to the numeric value.
    Increment { amount: Numeric, saturating: bool },
    /// Subtracts `amount` from the numeric value.
    Decrement { amount: Numeric, saturating: bool },
}

/// A command on `key` within `namespace`.
#[derive(Clone, Debug)]
pub struct KeyOperation {
    pub namespace: Option<String>,
    pub key: String,
    pub command: Command,
}

/// What a command did to its key.
#[derive(Clone, Copy, Debug, PartialEq, Eq, Structural)]
pub enum KeyStatus {
    Inserted,
    Updated,
    Deleted,
    NotChanged,
}

/// The result of an operation.
#[derive(Clone, Debug)]
pub enum Output {
    Status(KeyStatus),
    Value(Option<Value>),
}

/// The mathematical value of an [`Output`].
pub enum OutputView {
    Status(KeyStatus),
    Value(Option<ValueView>),
}

impl View for Output {
    type V = OutputView;

    open spec fn view(&self) -> OutputView {
        match self {
            Output::Status(s) => OutputView::Status(*s),
            Output::Value(Some(v)) => OutputView::Value(Some(v@)),
            Output::Value(None) => OutputView::Value(None),
        }
    }
}

/// Why an operation failed.
#[derive(Clone, Copy, Debug, PartialEq, Eq, Structural)]
pub enum KvError {
    /// A numeric command met a value of bytes.
    NotNumeric,
    /// A stored composite key is no valid UTF-8.
    InvalidKey,
    /// A namespace or key holds a NUL character.
    InvalidName,
}

impl KvError {
    /// The message that describes the error.
    pub fn message(&self) -> (r: String)
        ensures
            r@ == match self {
                KvError::NotNumeric => "type of stored `Value` is not `Numeric`"@,
                KvError::InvalidKey => "a stored key is not valid UTF-8"@,
                KvError::InvalidName => "a namespace or key must not contain NUL"@,
            },
    {
        match self {
            KvError::NotNumeric => String::from_str("type of stored `Value` is not `Numeric`"),
            KvError::InvalidKey => String::from_str("a stored key is not valid UTF-8"),
            KvError::InvalidName => String::from_str("a namespace or key must not contain NUL"),
        }
    }
}

/// What a `Set` decides over the current entry: the entry to store, when the
/// check lets it take effect, and the output.
#[derive(Clone, Debug)]
pub struct SetOutcome {
    pub entry: Option<Entry>,
    pub output: Output,
}

/// Decides a `Set` over the entry `current`: when its check passes it stores
/// its value, with the current entry's expiration if it keeps that and there
/// is one, and otherwise with its own; when the check fails nothing changes.
pub fn resolve_set(set: SetCommand, current: Option<Entry>) -> (r: SetOutcome)
    ensures
        r.output@ == set_output(set, opt_entry_view(current)),
        opt_entry_view(r.entry) == (if check_passes(set.check, opt_entry_view(current)) {
            Some(set_entry(set, opt_entry_view(current)))
        } else {
            None::<EntryView>
        }),
{
    let should_update = match set.check {
        Some(KeyCheck::OnlyIfPresent) => current.is_some(),
        Some(KeyCheck::OnlyIfVacant) => current.is_none(),
        None => true,
    };
    if should_update {
        let inserted = current.is_none();
        let expiration = match &current {
            Some(existing) => if set.keep_existing_expiration {
                existing.expiration
            } else {
                set.expiration
            },
            None => set.expiration,
        };
        let return_previous_value = set.return_previous_value;
        let entry = Entry { value: set.value, expiration };
        let output = if return_previous_value {
            Output::Value(value_of(current))
        } else if inserted {
            Output::Status(KeyStatus::Inserted)
        } else {
            Output::Status(KeyStatus::Updated)
        };
        SetOutcome { entry: Some(entry), output }
    } else {
        SetOutcome { entry: None, output: Output::Status(KeyStatus::NotChanged) }
    }
}

impl Entry {
    /// The operation that restores this entry under `key` of `namespace`: a
    /// `Set` of its value and expiration that checks nothing and reports
    /// only a status.
    pub fn restore_operation(self, namespace: Option<String>, key: String) -> (r: KeyOperation)
        ensures
            opt_string_view(r.namespace) == opt_string_view(namespace),
            r.key@ == key@,
            r.command matches Command::SetValue(set) && set.value@ == self.value@
                && set.expiration == self.expiration && !set.keep_existing_expiration
                && set.check is None && !set.return_previous_value,
    {
        KeyOperation {
            namespace,
            key,
            command: Command::SetValue(
                SetCommand {
                    value: self.value,
                    expiration: self.expiration,
                    keep_existing_expiration: false,
                    check: None,
                    return_previous_value: false,
                },
            ),
        }
    }
}

/// The composite key an operation works on.
pub open spec fn op_key(op: KeyOperation) -> Seq<char> {
    composite_key(opt_string_view(op.namespace), op.key@)
}

/// The namespace or key of `op` holds a NUL character.
pub open spec fn has_invalid_name(op: KeyOperation) -> bool {
    ||| op.key@.contains(nul())
    ||| (op.namespace matches Some(ns) && ns@.contains(nul()))
}

/// The value of an optional entry view.
pub open spec fn value_view_of(e: Option<EntryView>) -> Option<ValueView> {
    match e {
        Some(entry) => Some(entry.value),
        None => None,
    }
}

/// Whether `check` lets a `Set` take effect on the entry `current`.
pub open spec fn check_passes(check: Option<KeyCheck>, current: Option<EntryView>) -> bool {
    match check {
        Some(KeyCheck::OnlyIfPresent) => current is Some,
        Some(KeyCheck::OnlyIfVacant) => current is None,
        None => true,
    }
}

/// The entry a `Set` stores over `current`: its value, and its expiration
/// unless it keeps the expiration of an existing entry.
pub open spec fn set_entry(set: SetCommand, current: Option<EntryView>) -> EntryView {
    EntryView {
        value: set.value@,
        expiration: if set.keep_existing_expiration && current is Some {
            current->0.expiration
        } else {
            set.expiration
        },
    }
}

/// The output of a `Set` over `current`.
pub open spec fn set_output(set: SetCommand, current: Option<EntryView>) -> OutputView {
    if !check_passes(set.check, current) {
        OutputView::Status(KeyStatus::NotChanged)
    } else if set.return_previous_value {
        OutputView::Value(value_view_of(current))
    } else if current is None {
        OutputView::Status(KeyStatus::Inserted)
    } else {
        OutputView::Status(KeyStatus::Updated)
    }
}

/// The numeric value a numeric command starts from: none counts as zero.
pub open spec fn numeric_start(current: Option<EntryView>) -> Option<Numeric> {
    match current {
        None => Some(Numeric::UnsignedInteger(0)),
        Some(e) => match e.value {
            ValueView::Numeric(n) => Some(n),
            ValueView::Bytes(_) => None,
        },
    }
}

/// The operands of a numeric command: the amount and whether it subtracts.
pub open spec fn numeric_operands(command: Command) -> Option<(Numeric, bool, bool)> {
    match command {
        Command::Increment { amount, saturating } => Some((amount, saturating, false)),
        Command::Decrement { amount, saturating } => Some((amount, saturating, true)),
        _ => None,
    }
}

/// A numeric command that needs float arithmetic.
pub open spec fn needs_float(command: Command, current: Option<EntryView>) -> bool {
    match (numeric_operands(command), numeric_start(current)) {
        (Some((amount, _, _)), Some(start)) => is_float(amount) || is_float(start),
        _ => false,
    }
}

/// A numeric command that meets a value of bytes.
pub open spec fn fails_not_numeric(command: Command, current: Option<EntryView>) -> bool {
    numeric_operands(command) is Some && numeric_start(current) is None
}

/// The number an integer numeric command produces.
pub open spec fn numeric_result(command: Command, current: Option<EntryView>) -> Numeric {
    let (amount, saturating, subtract) = numeric_operands(command)->0;
    let start = numeric_start(current)->0;
    if subtract {
        decremented(start, amount, saturating)
    } else {
        incremented(start, amount, saturating)
    }
}

/// The entry a numeric command stores: the new number, with the expiration
/// of the current entry.
pub open spec fn numeric_entry(current: Option<EntryView>, n: Numeric) -> EntryView {
    EntryView {
        value: ValueView::Numeric(n),
        expiration: match current {
            Some(e) => e.expiration,
            None => None,
        },
    }
}

/// The change a successful command stages for its key: `None` when it
/// stages nothing, `Some(None)` for a deletion, `Some(Some(e))` to write `e`.
pub open spec fn command_change(command: Command, current: Option<EntryView>) -> Option<Option<EntryView>> {
    match command {
        Command::SetValue(set) => if check_passes(set.check, current) {
            Some(Some(set_entry(set, current)))
        } else {
            None
        },
        Command::Get { delete } => if delete {
            Some(None)
        } else {
            None
        },
        Command::Delete => Some(None),
        _ => Some(Some(numeric_entry(current, numeric_result(command, current)))),
    }
}

/// The expiration a successful command gives its key: `None` when it leaves
/// the expiration index alone.
pub open spec fn command_expiration(command: Command, current: Option<EntryView>) -> Option<Option<Timestamp>> {
    match command {
        Command::SetValue(set) => if check_passes(set.check, current) {
            Some(set_entry(set, current).expiration)
        } else {
            None
        },
        Command::Get { delete } => if delete {
            Some(None)
        } else {
            None
        },
        Command::Delete => Some(None),
        _ => None,
    }
}

/// The output of a successful command.
pub open spec fn command_output(command: Command, current: Option<EntryView>) -> OutputView {
    match command {
        Command::SetValue(set) => set_output(set, current),
        Command::Get { .. } => OutputView::Value(value_view_of(current)),
        Command::Delete => OutputView::Status(
            if current is Some {
                KeyStatus::Deleted
            } else {
                KeyStatus::NotChanged
            },
        ),
        _ => OutputView::Value(Some(ValueView::Numeric(numeric_result(command, current)))),
    }
}

} // verus!
