use std::collections::BTreeMap;

use bonsaidb_kv::commit::{CommitBatch, KeyAction};
use bonsaidb_kv::dispatch::Step;
use bonsaidb_kv::keys::full_key;
use bonsaidb_kv::operation::{Command, KeyCheck, KeyOperation, KeyStatus, KvError, Output, SetCommand};
use bonsaidb_kv::persistence::{KeyValuePersistence, PersistenceThreshold};
use bonsaidb_kv::state::KeyValueState;
use bonsaidb_kv::timestamp::{Timestamp, NANOS_PER_MILLI, NANOS_PER_SECOND};
use bonsaidb_kv::value::{Entry, Numeric, Value};
use bonsaidb_kv::worker::{next_worker_step, WorkerStep};

/// Drives a state as the database does, with a map standing in for the tree
/// and a clock that only moves when told to.
struct Harness {
    state: KeyValueState,
    tree: BTreeMap<String, Entry>,
    now: u64,
    commits: usize,
}

impl Harness {
    fn new(persistence: KeyValuePersistence) -> Harness {
        let now = 1_000 * NANOS_PER_SECOND;
        Harness { state: KeyValueState::new(persistence, Timestamp::from_nanos(now)), tree: BTreeMap::new(), now, commits: 0 }
    }

    fn at(&self, millis: u64) -> Timestamp {
        Timestamp::from_nanos(self.now + millis * NANOS_PER_MILLI)
    }

    fn persist(&mut self, mut batch: CommitBatch) {
        for key in batch.keys() {
            let existing = self.tree.contains_key(&key);
            match batch.resolve(&key, existing) {
                KeyAction::Write(entry) => {
                    self.tree.insert(key, entry);
                }
                KeyAction::Remove => {
                    self.tree.remove(&key);
                }
                KeyAction::Skip => {}
            }
        }
        self.commits += 1;
        self.state.commit_completed(Timestamp::from_nanos(self.now));
    }

    fn perform(&mut self, op: KeyOperation) -> Result<Output, KvError> {
        let key = full_key(op.namespace.as_deref(), &op.key);
        let stored = if self.state.needs_stored_value(&key) { self.tree.get(&key).cloned() } else { None };
        match self.state.perform_kv_operation(op, stored, Timestamp::from_nanos(self.now))? {
            Step::Finished(finished) => {
                if let Some(batch) = finished.commit {
                    self.persist(batch);
                }
                Ok(finished.output)
            }
            Step::NeedsFloat(_) => panic!("no float arithmetic in these tests"),
        }
    }

    /// Moves the clock on, letting the background worker act at each target
    /// that comes on the way.
    fn advance(&mut self, millis: u64) {
        let end = self.now + millis * NANOS_PER_MILLI;
        for _ in 0..1000 {
            match self.state.background_worker_target() {
                Some(target) if target.nanos <= end => {
                    if target.nanos > self.now {
                        self.now = target.nanos;
                    }
                    assert_eq!(next_worker_step(Some(target), Timestamp::from_nanos(self.now)), WorkerStep::PerformOperations);
                    if let Some(batch) = self.state.run_background_operations(Timestamp::from_nanos(self.now)) {
                        self.persist(batch);
                    }
                    if self.state.background_worker_target().map(|t| t.nanos) == Some(target.nanos) {
                        break;
                    }
                }
                _ => break,
            }
        }
        self.now = end;
    }

    fn get(&mut self, namespace: Option<&str>, key: &str) -> Option<Value> {
        match self.perform(get_op(namespace, key)).unwrap() {
            Output::Value(v) => v,
            Output::Status(_) => panic!("a get returns a value"),
        }
    }
}

fn set_op(namespace: Option<&str>, key: &str, value: Value, expiration: Option<Timestamp>) -> KeyOperation {
    KeyOperation {
        namespace: namespace.map(String::from),
        key: String::from(key),
        command: Command::SetValue(SetCommand {
            value,
            expiration,
            keep_existing_expiration: false,
            check: None,
            return_previous_value: false,
        }),
    }
}

fn get_op(namespace: Option<&str>, key: &str) -> KeyOperation {
    KeyOperation { namespace: namespace.map(String::from), key: String::from(key), command: Command::Get { delete: false } }
}

fn somevalue() -> Entry {
    Entry { value: Value::Bytes(b"somevalue".to_vec()), expiration: None }
}

fn bytes(v: Option<Value>) -> Option<Vec<u8>> {
    match v {
        Some(Value::Bytes(b)) => Some(b),
        Some(Value::Numeric(_)) => panic!("expected bytes"),
        None => None,
    }
}

#[test]
fn basic_expiration() {
    let mut h = Harness::new(KeyValuePersistence::immediate());
    h.tree.insert(String::from("atree\0akey"), somevalue());
    let key = full_key(Some("atree"), "akey");
    let expiration = h.at(100);
    h.state.update_key_expiration(key, Some(expiration), h.at(0));
    h.advance(150);
    assert!(!h.tree.contains_key("atree\0akey"));
    assert_eq!(h.get(Some("atree"), "akey"), None);
}

#[test]
fn updating_expiration() {
    let mut h = Harness::new(KeyValuePersistence::immediate());
    h.tree.insert(String::from("atree\0akey"), somevalue());
    let (soon, later) = (h.at(100), h.at(1000));
    h.state.update_key_expiration(full_key(Some("atree"), "akey"), Some(soon), h.at(0));
    h.state.update_key_expiration(full_key(Some("atree"), "akey"), Some(later), h.at(0));
    h.advance(500);
    assert!(h.tree.contains_key("atree\0akey"));
    h.advance(1000);
    assert!(!h.tree.contains_key("atree\0akey"));
}

#[test]
fn multiple_keys_expiration() {
    let mut h = Harness::new(KeyValuePersistence::immediate());
    h.tree.insert(String::from("atree\0akey"), somevalue());
    h.tree.insert(String::from("atree\0bkey"), somevalue());
    let (a, b) = (h.at(100), h.at(1000));
    h.state.update_key_expiration(full_key(Some("atree"), "akey"), Some(a), h.at(0));
    h.state.update_key_expiration(full_key(Some("atree"), "bkey"), Some(b), h.at(0));
    h.advance(200);
    assert!(!h.tree.contains_key("atree\0akey"));
    assert!(h.tree.contains_key("atree\0bkey"));
    h.advance(900);
    assert!(!h.tree.contains_key("atree\0bkey"));
}

#[test]
fn clearing_expiration() {
    let mut h = Harness::new(KeyValuePersistence::immediate());
    h.tree.insert(String::from("atree\0akey"), somevalue());
    let a = h.at(100);
    h.state.update_key_expiration(full_key(Some("atree"), "akey"), Some(a), h.at(0));
    h.state.update_key_expiration(full_key(Some("atree"), "akey"), None, h.at(0));
    h.advance(150);
    assert!(h.tree.contains_key("atree\0akey"));
}

#[test]
fn out_of_order_expiration() {
    let mut h = Harness::new(KeyValuePersistence::immediate());
    for key in ["atree\0akey", "atree\0bkey", "atree\0ckey"] {
        h.tree.insert(String::from(key), somevalue());
    }
    let (three, one, two) = (h.at(3000), h.at(1000), h.at(2000));
    h.state.update_key_expiration(full_key(Some("atree"), "akey"), Some(three), h.at(0));
    h.state.update_key_expiration(full_key(Some("atree"), "ckey"), Some(one), h.at(0));
    h.state.update_key_expiration(full_key(Some("atree"), "bkey"), Some(two), h.at(0));
    h.advance(1200);
    assert!(h.tree.contains_key("atree\0akey"));
    assert!(h.tree.contains_key("atree\0bkey"));
    assert!(!h.tree.contains_key("atree\0ckey"));
    h.advance(1000);
    assert!(h.tree.contains_key("atree\0akey"));
    assert!(!h.tree.contains_key("atree\0bkey"));
    h.advance(1000);
    assert!(!h.tree.contains_key("atree\0akey"));
}

#[test]
fn basic_persistence() {
    let mut h = Harness::new(KeyValuePersistence::lazy(vec![
        PersistenceThreshold::after_changes(2),
        PersistenceThreshold::after_changes(1).and_duration(2 * NANOS_PER_SECOND),
    ]));
    for key in ["key1", "key2", "key3"] {
        h.perform(set_op(None, key, Value::Bytes(Vec::new()), None)).unwrap();
        h.advance(10);
    }
    assert!(h.tree.contains_key("\0key1"));
    assert!(h.tree.contains_key("\0key2"));
    assert!(!h.tree.contains_key("\0key3"));
    h.advance(3000);
    assert!(h.tree.contains_key("\0key3"));
}

#[test]
fn saves_on_drop() {
    let mut h = Harness::new(KeyValuePersistence::lazy(vec![PersistenceThreshold::after_changes(2)]));
    h.perform(set_op(None, "key1", Value::Bytes(Vec::new()), None)).unwrap();
    assert!(!h.tree.contains_key("\0key1"));
    let batch = h.state.shutdown().expect("a change is pending");
    h.persist(batch);
    assert!(h.tree.contains_key("\0key1"));
    assert_eq!(h.state.dirty_len(), 0);
    assert!(h.state.shutdown().is_none());
}

#[test]
fn check_vetoes_return_not_changed() {
    let mut h = Harness::new(KeyValuePersistence::immediate());
    let mut op = set_op(None, "k", Value::Bytes(b"v".to_vec()), None);
    if let Command::SetValue(set) = &mut op.command {
        set.check = Some(KeyCheck::OnlyIfPresent);
    }
    assert!(matches!(h.perform(op).unwrap(), Output::Status(KeyStatus::NotChanged)));
    assert_eq!(h.get(None, "k"), None);
    let vacant = |value: &[u8]| {
        let mut op = set_op(None, "k", Value::Bytes(value.to_vec()), None);
        if let Command::SetValue(set) = &mut op.command {
            set.check = Some(KeyCheck::OnlyIfVacant);
        }
        op
    };
    assert!(matches!(h.perform(vacant(b"first")).unwrap(), Output::Status(KeyStatus::Inserted)));
    assert!(matches!(h.perform(vacant(b"second")).unwrap(), Output::Status(KeyStatus::NotChanged)));
    assert_eq!(bytes(h.get(None, "k")), Some(b"first".to_vec()));
}

#[test]
fn increment_of_bytes_is_a_type_mismatch() {
    let mut h = Harness::new(KeyValuePersistence::immediate());
    h.perform(set_op(None, "k", Value::Bytes(Vec::new()), None)).unwrap();
    let op = KeyOperation {
        namespace: None,
        key: String::from("k"),
        command: Command::Increment { amount: Numeric::Integer(1), saturating: false },
    };
    let err = h.perform(op).unwrap_err();
    assert_eq!(err, KvError::NotNumeric);
    assert_eq!(err.message(), "type of stored `Value` is not `Numeric`");
}

#[test]
fn increment_and_decrement_store_their_result() {
    let mut h = Harness::new(KeyValuePersistence::immediate());
    let inc = |amount: Numeric, saturating: bool| KeyOperation {
        namespace: Some(String::from("ns")),
        key: String::from("counter"),
        command: Command::Increment { amount, saturating },
    };
    let dec = |amount: Numeric, saturating: bool| KeyOperation {
        namespace: Some(String::from("ns")),
        key: String::from("counter"),
        command: Command::Decrement { amount, saturating },
    };
    assert!(matches!(h.perform(inc(Numeric::UnsignedInteger(5), true)).unwrap(),
        Output::Value(Some(Value::Numeric(Numeric::UnsignedInteger(5))))));
    assert!(matches!(h.perform(dec(Numeric::UnsignedInteger(7), true)).unwrap(),
        Output::Value(Some(Value::Numeric(Numeric::UnsignedInteger(0))))));
    assert!(matches!(h.perform(dec(Numeric::UnsignedInteger(1), false)).unwrap(),
        Output::Value(Some(Value::Numeric(Numeric::UnsignedInteger(u64::MAX))))));
    assert!(matches!(h.perform(inc(Numeric::Integer(1), true)).unwrap(),
        Output::Value(Some(Value::Numeric(Numeric::Integer(i64::MAX))))));
    assert!(matches!(h.perform(inc(Numeric::Integer(1), false)).unwrap(),
        Output::Value(Some(Value::Numeric(Numeric::Integer(i64::MIN))))));
    assert!(matches!(h.tree.get("ns\0counter").map(|e| &e.value), Some(Value::Numeric(Numeric::Integer(i64::MIN)))));
}

#[test]
fn float_arithmetic_is_handed_back() {
    let mut h = Harness::new(KeyValuePersistence::immediate());
    let op = KeyOperation {
        namespace: None,
        key: String::from("f"),
        command: Command::Increment { amount: Numeric::Float(2.5f64.to_bits()), saturating: false },
    };
    let now = h.at(0);
    match h.state.perform_kv_operation(op, None, now).unwrap() {
        Step::NeedsFloat(request) => {
            assert_eq!(request.full_key, "\0f");
            assert_eq!(request.existing, Numeric::UnsignedInteger(0));
            assert!(!request.subtract);
            let result = (0.0f64 + 2.5f64).to_bits();
            let finished = h.state.finish_float_operation(request, Numeric::Float(result), now);
            assert!(matches!(finished.output, Output::Value(Some(Value::Numeric(Numeric::Float(bits)))) if bits == result));
            h.persist(finished.commit.expect("an immediate policy commits"));
        }
        Step::Finished(_) => panic!("float arithmetic is handed back"),
    }
    assert!(matches!(h.tree.get("\0f").map(|e| &e.value), Some(Value::Numeric(Numeric::Float(_)))));
}

#[test]
fn get_with_delete_removes_and_clears_expiration() {
    let mut h = Harness::new(KeyValuePersistence::immediate());
    let exp = h.at(500);
    h.perform(set_op(Some("ns"), "k", Value::Bytes(b"v".to_vec()), Some(exp))).unwrap();
    assert_eq!(h.state.expiring_len(), 1);
    let op = KeyOperation { namespace: Some(String::from("ns")), key: String::from("k"), command: Command::Get { delete: true } };
    assert_eq!(bytes(match h.perform(op).unwrap() { Output::Value(v) => v, _ => None }), Some(b"v".to_vec()));
    assert_eq!(h.state.expiring_len(), 0);
    assert!(!h.tree.contains_key("ns\0k"));
    let del = KeyOperation { namespace: Some(String::from("ns")), key: String::from("k"), command: Command::Delete };
    assert!(matches!(h.perform(del).unwrap(), Output::Status(KeyStatus::NotChanged)));
}

#[test]
fn return_previous_value_and_keep_expiration() {
    let mut h = Harness::new(KeyValuePersistence::immediate());
    let exp = h.at(700);
    h.perform(set_op(None, "k", Value::Bytes(b"one".to_vec()), Some(exp))).unwrap();
    let mut op = set_op(None, "k", Value::Bytes(b"two".to_vec()), None);
    if let Command::SetValue(set) = &mut op.command {
        set.return_previous_value = true;
        set.keep_existing_expiration = true;
    }
    assert_eq!(bytes(match h.perform(op).unwrap() { Output::Value(v) => v, _ => None }), Some(b"one".to_vec()));
    assert_eq!(h.tree.get("\0k").unwrap().expiration, Some(exp));
    h.advance(800);
    assert_eq!(h.get(None, "k"), None);
}

#[test]
fn reads_agree_before_and_after_commit() {
    let mut h = Harness::new(KeyValuePersistence::lazy(vec![PersistenceThreshold::after_changes(10)]));
    h.perform(set_op(None, "a", Value::Bytes(b"1".to_vec()), None)).unwrap();
    h.perform(set_op(None, "b", Value::Bytes(b"2".to_vec()), None)).unwrap();
    let del = KeyOperation { namespace: None, key: String::from("a"), command: Command::Delete };
    assert!(matches!(h.perform(del).unwrap(), Output::Status(KeyStatus::Deleted)));
    assert!(h.tree.is_empty());
    let before = (h.get(None, "a"), bytes(h.get(None, "b")));
    let batch = h.state.shutdown().unwrap();
    assert_eq!(batch.len(), 2);
    h.persist(batch);
    let after = (h.get(None, "a"), bytes(h.get(None, "b")));
    assert_eq!(before.0.is_none(), after.0.is_none());
    assert_eq!(before.1, after.1);
    assert_eq!(h.commits, 1);
}

#[test]
fn commits_never_outnumber_changes() {
    let mut h = Harness::new(KeyValuePersistence::immediate());
    for i in 0..5 {
        h.perform(set_op(None, &format!("k{}", i), Value::Bytes(Vec::new()), None)).unwrap();
        h.perform(get_op(None, "k0")).unwrap();
    }
    assert_eq!(h.commits, 5);
    assert_eq!(h.tree.len(), 5);
}

#[test]
fn names_with_nul_are_refused() {
    let mut h = Harness::new(KeyValuePersistence::immediate());
    let err = h.perform(set_op(None, "a\0b", Value::Bytes(Vec::new()), None)).unwrap_err();
    assert_eq!(err, KvError::InvalidName);
    let err = h.perform(set_op(Some("n\0s"), "k", Value::Bytes(Vec::new()), None)).unwrap_err();
    assert_eq!(err, KvError::InvalidName);
    assert_eq!(err.message(), "a namespace or key must not contain NUL");
    assert_eq!(h.state.dirty_len(), 0);
    assert!(h.tree.is_empty());
}
