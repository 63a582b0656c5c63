use vstd::prelude::*;

verus! {

/// An error that an API can return: any error that can be copied, which
/// every such type is.
pub trait ApiError: Clone {

}

impl<T: Clone> ApiError for T {

}

/// The qualified name of an API: the authority that defines it and its name.
#[derive(Clone, Debug, PartialEq, Eq, Hash, PartialOrd, Ord)]
pub struct ApiName {
    pub authority: String,
    pub name: String,
}

impl ApiName {
    /// The API `name` of `authority`.
    pub fn new(authority: String, name: String) -> (r: ApiName)
        ensures
            r.authority@ == authority@,
            r.name@ == name@,
    {
        ApiName { authority, name }
    }
}

} // verus!
