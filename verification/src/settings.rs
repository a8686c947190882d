//! Where the services that the host talks to are found.

use vstd::prelude::*;

verus! {

/// Where the broker is reached, and the key pair to sign in with.
#[derive(Clone, Debug)]
pub struct AlpacaSettings {
    pub base_url: String,
    pub key_id: String,
    pub secret_key: String,
}

/// Where the price cache is reached.
#[derive(Clone, Debug)]
pub struct RedisSettings {
    pub url: String,
}

} // verus!
