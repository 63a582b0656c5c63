use vstd::prelude::*;

use crate::timestamp::Timestamp;

verus! {

/// A number stored under a key.
#[derive(Clone, Copy, Debug, PartialEq, Eq, Structural)]
pub enum Numeric {
    /// A signed 64-bit integer.
    Integer(i64),
    /// An unsigned 64-bit integer.
    UnsignedInteger(u64),
    /// A 64-bit IEEE-754 float, held as its bit pattern.
    Float(u64),
}

/// A value stored under a key.
#[derive(Clone, Debug, PartialEq, Eq)]
pub enum Value {
    /// Raw bytes.
    Bytes(Vec<u8>),
    /// A number.
    Numeric(Numeric),
}

/// The mathematical value of a [`Value`].
pub enum ValueView {
    Bytes(Seq<u8>),
    Numeric(Numeric),
}

impl View for Value {
    type V = ValueView;

    open spec fn view(&self) -> ValueView {
        match self {
            Value::Bytes(b) => ValueView::Bytes(b@),
            Value::Numeric(n) => ValueView::Numeric(*n),
        }
    }
}

/// The record stored under a composite key.
#[derive(Clone, Debug, PartialEq, Eq)]
pub struct Entry {
    pub value: Value,
    pub expiration: Option<Timestamp>,
}

/// The mathematical value of an [`Entry`].
pub struct EntryView {
    pub value: ValueView,
    pub expiration: Option<Timestamp>,
}

impl View for Entry {
    type V = EntryView;

    open spec fn view(&self) -> EntryView {
        EntryView { value: self.value@, expiration: self.expiration }
    }
}

/// The view of an optional entry.
pub open spec fn opt_entry_view(e: Option<Entry>) -> Option<EntryView> {
    match e {
        Some(entry) => Some(entry@),
        None => None,
    }
}

/// The view of the value of an optional entry.
pub open spec fn opt_value_view(e: Option<Entry>) -> Option<ValueView> {
    match e {
        Some(entry) => Some(entry.value@),
        None => None,
    }
}

impl Value {
    /// A copy of this value.
    pub fn duplicate(&self) -> (r: Value)
        ensures
            r@ == self@,
    {
        match self {
            Value::Bytes(bytes) => {
                let copy = bytes.clone();
                assert(copy@ =~= bytes@);
                Value::Bytes(copy)
            },
            Value::Numeric(n) => Value::Numeric(*n),
        }
    }
}

impl Entry {
    /// A copy of this entry.
    pub fn duplicate(&self) -> (r: Entry)
        ensures
            r@ == self@,
    {
        Entry { value: self.value.duplicate(), expiration: self.expiration }
    }
}

/// A copy of an optional entry.
pub fn duplicate_entry(e: &Option<Entry>) -> (r: Option<Entry>)
    ensures
        opt_entry_view(r) == opt_entry_view(*e),
{
    match e {
        Some(entry) => Some(entry.duplicate()),
        None => None,
    }
}

/// The value of an optional entry.
pub fn value_of(e: Option<Entry>) -> (r: Option<Value>)
    ensures
        match r {
            Some(v) => opt_value_view(e) == Some(v@),
            None => e is None,
        },
{
    match e {
        Some(entry) => Some(entry.value),
        None => None,
    }
}

} // verus!
