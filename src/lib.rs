//! The key-value core of an embeddable database: composite keys, an
//! expiration index, a write-back buffer of pending changes, a lazy
//! persistence policy, and the decisions of the background worker.

pub mod keys;
pub mod timestamp;
pub mod value;
pub mod numeric;
pub mod order;
pub mod dirty;
pub mod expiration;
pub mod persistence;
pub mod operation;
pub mod commit;
pub mod state;
pub mod dispatch;
pub mod worker;
pub mod loader;
pub mod connection;
pub mod api;
pub mod cli;
pub mod test_util;
pub mod certificate;
