use vstd::prelude::*;

use std::marker::PhantomData;
use std::ops::Range;

verus! {

/// Interacts with the collection `Cl` over the connection `Cn`.
pub struct Collection<'a, Cn, Cl> {
    connection: &'a Cn,
    _phantom: PhantomData<Cl>,
}

impl<'a, Cn, Cl> Collection<'a, Cn, Cl> {
    /// The collection `Cl` over `connection`.
    pub fn new(connection: &'a Cn) -> (r: Self)
        ensures
            r.connection() == connection,
    {
        Collection { connection, _phantom: PhantomData }
    }

    /// The connection the collection is reached over.
    pub closed spec fn connection(&self) -> &'a Cn {
        self.connection
    }
}

/// Filters the entries of a view by key.
pub enum QueryKey<K> {
    /// The entries with this key.
    Matches(K),
    /// The entries with a key in this range.
    Range(Range<K>),
    /// The entries with a key among these.
    Multiple(Vec<K>),
}

/// How a query treats a view whose data is out of date.
#[derive(Clone, Copy, Debug, PartialEq, Eq, Structural)]
pub enum AccessPolicy {
    /// Bring the view up to date before answering.
    UpdateBefore,
    /// Answer at once and bring the view up to date afterwards.
    UpdateAfter,
    /// Answer at once and leave the view as it is.
    NoUpdate,
}

/// The parameters of a query of a view whose keys are of type `K`.
pub struct View<'a, Cn, K> {
    connection: &'a Cn,
    /// Which keys the query selects; all when absent.
    pub key: Option<QueryKey<K>>,
    /// How the query treats out-of-date data.
    pub access_policy: AccessPolicy,
}

impl<'a, Cn, K> View<'a, Cn, K> {
    /// A query over `connection` that selects every key and brings the view
    /// up to date first.
    pub fn new(connection: &'a Cn) -> (r: Self)
        ensures
            r.connection() == connection,
            r.query_key() is None,
            r.policy() == AccessPolicy::UpdateBefore,
    {
        View { connection, key: None, access_policy: AccessPolicy::UpdateBefore }
    }

    /// The connection the query runs over.
    pub closed spec fn connection(&self) -> &'a Cn {
        self.connection
    }

    /// Which keys the query selects.
    pub closed spec fn query_key(&self) -> Option<QueryKey<K>> {
        self.key
    }

    /// How the query treats out-of-date data.
    pub closed spec fn policy(&self) -> AccessPolicy {
        self.access_policy
    }

    /// This query, selecting the entries with `key`.
    pub fn with_key(self, key: K) -> (r: Self)
        ensures
            r.query_key() == Some(QueryKey::Matches(key)),
            r.policy() == self.policy(),
            r.connection() == self.connection(),
    {
        View { connection: self.connection, key: Some(QueryKey::Matches(key)), access_policy: self.access_policy }
    }

    /// This query, selecting the entries with a key among `keys`.
    pub fn with_keys(self, keys: Vec<K>) -> (r: Self)
        ensures
            r.query_key() == Some(QueryKey::Multiple(keys)),
            r.policy() == self.policy(),
            r.connection() == self.connection(),
    {
        View { connection: self.connection, key: Some(QueryKey::Multiple(keys)), access_policy: self.access_policy }
    }

    /// This query, selecting the entries with a key in `range`.
    pub fn with_key_range(self, range: Range<K>) -> (r: Self)
        ensures
            r.query_key() == Some(QueryKey::Range(range)),
            r.policy() == self.policy(),
            r.connection() == self.connection(),
    {
        View { connection: self.connection, key: Some(QueryKey::Range(range)), access_policy: self.access_policy }
    }

    /// This query, with the access policy `policy`.
    pub fn with_access_policy(self, policy: AccessPolicy) -> (r: Self)
        ensures
            r.query_key() == self.query_key(),
            r.policy() == policy,
            r.connection() == self.connection(),
    {
        View { connection: self.connection, key: self.key, access_policy: policy }
    }
}

} // verus!
