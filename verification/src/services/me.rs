//! The endpoints about the user who presents the credential.

use vstd::prelude::*;
use crate::api::Config;
use crate::services::me::subscriptions::Subscriptions;

pub mod subscriptions;

verus! {

/// The calls about the user who presents the credential, for one server.
pub struct Me {
    pub subscriptions: Subscriptions,
}

impl Me {
    /// The services for the server that `config` names.
    pub fn new(config: &Config) -> (r: Self)
        ensures
            r.subscriptions.base() == config@,
    {
        Me { subscriptions: Subscriptions::new(config) }
    }
}

} // verus!
