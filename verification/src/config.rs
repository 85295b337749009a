//! Static client configuration.

use vstd::prelude::*;

verus! {

/// The client's configuration: the upstream endpoint notifications are
/// delivered to, and an optional list of watched applications.
#[derive(Debug)]
pub struct Configure {
    pub upstream: String,
    pub applications: Option<Vec<String>>,
}

impl Configure {
    pub fn get_upstream(&self) -> (r: &String)
        ensures
            r@ == self.upstream@,
    {
        &self.upstream
    }
}

} // verus!
