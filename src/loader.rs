use vstd::prelude::*;
use vstd::utf8::{decode_utf8, valid_utf8};

use crate::expiration::{order_updated, ExpiryOrder};
use crate::keys::{opt_string_view, split_composite, split_key};
use crate::operation::KvError;
use crate::state::{keeps_settings, KeyValueState};
use crate::timestamp::Timestamp;
use crate::value::{Entry, EntryView};

verus! {

/// Relies on `String::from_utf8`: it accepts exactly the byte sequences that
/// are valid UTF-8, and the text it returns is their decoding.
#[verifier::external_body]
fn decode_text(bytes: Vec<u8>) -> (r: Option<String>)
    ensures
        r is Some <==> valid_utf8(bytes@),
        r matches Some(s) ==> s@ == decode_utf8(bytes@),
{
    String::from_utf8(bytes).ok()
}

/// A record found by a scan of the tree: its composite key as stored, and the
/// expiration of its entry.
#[derive(Clone, Debug)]
pub struct ScannedExpiration {
    pub key: Vec<u8>,
    pub expiration: Option<Timestamp>,
}

/// The order after the expirations of `scanned` were loaded in turn: records
/// without an expiration, or whose key is no valid UTF-8, are skipped.
pub open spec fn loaded_order(s: ExpiryOrder, scanned: Seq<ScannedExpiration>) -> ExpiryOrder
    decreases scanned.len(),
{
    if scanned.len() == 0 {
        s
    } else {
        let before = loaded_order(s, scanned.drop_last());
        let last = scanned.last();
        if last.expiration is Some && valid_utf8(last.key@) {
            order_updated(before, decode_utf8(last.key@), last.expiration)
        } else {
            before
        }
    }
}

/// How many of `scanned` have an expiration and a key that is valid UTF-8.
pub open spec fn loadable_count(scanned: Seq<ScannedExpiration>) -> nat
    decreases scanned.len(),
{
    if scanned.len() == 0 {
        0
    } else {
        loadable_count(scanned.drop_last()) + if scanned.last().expiration is Some && valid_utf8(
            scanned.last().key@,
        ) {
            1nat
        } else {
            0nat
        }
    }
}

/// Loading one record updates the order by it alone.
pub proof fn lemma_loaded_one(s: ExpiryOrder, record: ScannedExpiration)
    ensures
        loaded_order(s, seq![record]) == (if record.expiration is Some && valid_utf8(record.key@) {
            order_updated(s, decode_utf8(record.key@), record.expiration)
        } else {
            s
        }),
{
    assert(seq![record].drop_last() =~= Seq::<ScannedExpiration>::empty());
    assert(seq![record].last() == record);
    assert(loaded_order(s, Seq::<ScannedExpiration>::empty()) == s);
}

/// Loads the expirations of persisted entries into the index when a database
/// is opened.
#[derive(Clone, Debug)]
pub struct ExpirationLoader {
    /// The name of the database whose entries are loaded.
    pub database: String,
}

impl ExpirationLoader {
    /// A loader for `database`.
    pub fn new(database: String) -> (r: ExpirationLoader)
        ensures
            r.database@ == database@,
    {
        ExpirationLoader { database }
    }

    /// Loads the expiration of one scanned record. Returns whether it was
    /// loaded: a record without an expiration, or whose key is no valid
    /// UTF-8, is skipped.
    pub fn apply(&self, state: &mut KeyValueState, scanned: ScannedExpiration, now: Timestamp) -> (loaded: bool)
        requires
            old(state).wf(),
        ensures
            final(state).wf(),
            keeps_settings(*old(state), *final(state)),
            final(state).dirty() == old(state).dirty(),
            final(state).changes_made() == old(state).changes_made(),
            loaded == (scanned.expiration is Some && valid_utf8(scanned.key@)),
            final(state).expirations() == loaded_order(old(state).expirations(), seq![scanned]),
    {
        proof {
            lemma_loaded_one(old(state).expirations(), scanned);
        }
        if scanned.expiration.is_none() {
            return false;
        }
        match decode_text(scanned.key) {
            Some(key) => {
                state.update_key_expiration(key, scanned.expiration, now);
                true
            },
            None => false,
        }
    }

    /// Loads the expirations of the records a scan of the tree found, in scan
    /// order. Returns how many were loaded.
    pub fn execute(&self, state: &mut KeyValueState, scanned: Vec<ScannedExpiration>, now: Timestamp) -> (loaded: usize)
        requires
            old(state).wf(),
        ensures
            final(state).wf(),
            keeps_settings(*old(state), *final(state)),
            final(state).dirty() == old(state).dirty(),
            final(state).expirations() == loaded_order(old(state).expirations(), scanned@),
            loaded == loadable_count(scanned@),
    {
        let ghost all = scanned@;
        let mut loaded: usize = 0;
        let mut i: usize = 0;
        let n = scanned.len();
        while i < n
            invariant
                n == all.len(),
                scanned@ == all,
                i <= n,
                loaded == loadable_count(all.take(i as int)),
                loaded <= i,
                state.wf(),
                keeps_settings(*old(state), *state),
                state.dirty() == old(state).dirty(),
                state.expirations() == loaded_order(old(state).expirations(), all.take(i as int)),
            decreases n - i,
        {
            let record = ScannedExpiration { key: scanned[i].key.clone(), expiration: scanned[i].expiration };
            assert(record.key@ =~= all[i as int].key@);
            let ghost before = state.expirations();
            let ghost rec = record;
            let applied = self.apply(state, record, now);
            proof {
                let t = all.take(i + 1);
                assert(t.drop_last() =~= all.take(i as int));
                assert(t.last() == all[i as int]);
                lemma_loaded_one(before, rec);
            }
            if applied {
                loaded = loaded + 1;
            }
            i = i + 1;
        }
        proof {
            assert(all.take(n as int) =~= all);
        }
        loaded
    }
}

/// A stored entry with the namespace and key its composite key stands for.
#[derive(Clone, Debug)]
pub struct KeyValueEntry {
    pub namespace: Option<String>,
    pub key: String,
    pub entry: Entry,
}

/// A record found by a full scan of the tree: its composite key as stored and
/// its decoded entry.
#[derive(Clone, Debug)]
pub struct ScannedEntry {
    pub key: Vec<u8>,
    pub entry: Entry,
}

/// The entries a full scan found, each with the namespace and key of its
/// composite key; records whose key holds no NUL are skipped, and a key that
/// is no valid UTF-8 fails the whole scan (`None`).
pub open spec fn entries_of(scanned: Seq<ScannedEntry>) -> Option<Seq<(Option<Seq<char>>, Seq<char>, EntryView)>>
    decreases scanned.len(),
{
    if scanned.len() == 0 {
        Some(Seq::empty())
    } else {
        match entries_of(scanned.drop_last()) {
            None => None,
            Some(before) => {
                let last = scanned.last();
                if !valid_utf8(last.key@) {
                    None
                } else {
                    match split_composite(decode_utf8(last.key@)) {
                        Some((namespace, key)) => Some(before.push((namespace, key, last.entry@))),
                        None => Some(before),
                    }
                }
            },
        }
    }
}

/// Proves that a failed scan stays failed as more records come.
pub proof fn lemma_entries_of_failed(scanned: Seq<ScannedEntry>, i: int)
    requires
        0 <= i <= scanned.len(),
        entries_of(scanned.take(i)) is None,
    ensures
        entries_of(scanned) is None,
    decreases scanned.len() - i,
{
    if i < scanned.len() {
        let t = scanned.take(i + 1);
        assert(t.drop_last() =~= scanned.take(i));
        lemma_entries_of_failed(scanned, i + 1);
    } else {
        assert(scanned.take(i) =~= scanned);
    }
}

/// The view of each entry of a list.
pub open spec fn key_value_entries_view(v: Seq<KeyValueEntry>) -> Seq<(Option<Seq<char>>, Seq<char>, EntryView)> {
    Seq::new(v.len(), |i: int| (opt_string_view(v[i].namespace), v[i].key@, v[i].entry@))
}

/// Every stored entry with its namespace and key, from the records of a full
/// scan of the tree in scan order. Records whose key holds no NUL are
/// skipped; a key that is no valid UTF-8 fails the scan.
pub fn key_value_entries(scanned: Vec<ScannedEntry>) -> (r: Result<Vec<KeyValueEntry>, KvError>)
    ensures
        match r {
            Ok(entries) => entries_of(scanned@) == Some(key_value_entries_view(entries@)),
            Err(e) => e == KvError::InvalidKey && entries_of(scanned@) is None,
        },
{
    let ghost all = scanned@;
    let mut entries: Vec<KeyValueEntry> = Vec::new();
    let n = scanned.len();
    let mut i: usize = 0;
    while i < n
        invariant
            n == all.len(),
            scanned@ == all,
            i <= n,
            entries_of(all.take(i as int)) == Some(key_value_entries_view(entries@)),
        decreases n - i,
    {
        proof {
            let t = all.take(i + 1);
            assert(t.drop_last() =~= all.take(i as int));
            assert(t.last() == all[i as int]);
        }
        match decode_text(scanned[i].key.clone()) {
            None => {
                proof {
                    assert(scanned[i as int].key@ =~= all[i as int].key@);
                    lemma_entries_of_failed(all, i + 1);
                }
                return Err(KvError::InvalidKey);
            },
            Some(full_key) => {
                match split_key(full_key.as_str()) {
                    Some((namespace, key)) => {
                        let ghost before = entries@;
                        entries.push(KeyValueEntry { namespace, key, entry: scanned[i].entry.duplicate() });
                        assert(key_value_entries_view(entries@) =~= key_value_entries_view(before).push(
                            key_value_entries_view(entries@).last(),
                        ));
                    },
                    None => {},
                }
            },
        }
        i = i + 1;
    }
    assert(all.take(n as int) =~= all);
    Ok(entries)
}

} // verus!
