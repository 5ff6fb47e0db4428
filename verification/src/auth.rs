//! Naming of stored secrets.

use vstd::prelude::*;
use vstd::string::*;

verus! {

/// A store of secrets, one per account, under a service name.
#[derive(Debug, Clone)]
pub struct CredentialStore {
    service_name: String,
}

impl View for CredentialStore {
    type V = Seq<char>;

    closed spec fn view(&self) -> Seq<char> {
        self.service_name@
    }
}

impl CredentialStore {
    /// A store under `service_name`.
    pub fn new(service_name: &str) -> (r: Self)
        ensures
            r@ == service_name@,
    {
        CredentialStore { service_name: String::from_str(service_name) }
    }

    /// The service name of the store.
    pub fn service_name(&self) -> (r: &str)
        ensures
            r@ == self@,
    {
        self.service_name.as_str()
    }
}

/// The account under which the secret of `profile` is stored: the
/// profile's own name.
pub fn token_key(profile: &str) -> (r: String)
    ensures
        r@ == profile@,
{
    String::from_str(profile)
}

} // verus!
