//! The values that are exchanged with browsers and kept in the store.
use vstd::prelude::*;
use vstd::string::*;

verus! {

/// The keys that a browser encrypts push messages for.
#[derive(Clone, Debug)]
pub struct PushKeys {
    pub p256dh: String,
    pub auth: String,
}

/// A push subscription, as the browser hands it over.
#[derive(Clone, Debug)]
pub struct PushSubscription {
    pub endpoint: String,
    pub expiration_time: Option<i64>,
    pub keys: PushKeys,
}

/// A moment in UTC: seconds since the Unix epoch, and nanoseconds within the
/// second.
#[derive(Clone, Copy, Debug, PartialEq, Eq, Structural)]
pub struct Timestamp {
    pub secs: i64,
    pub nanos: u32,
}

/// A subscription in the store.
#[derive(Clone, Debug)]
pub struct StoredSubscription {
    pub subscription: PushSubscription,
    pub created_at: Timestamp,
    pub delete_token: String,
}

/// The answer to a new subscription.
#[derive(Debug)]
pub struct SubscribeResponse {
    pub uuid: String,
    pub url: String,
    pub delete_token: String,
}

/// What is known of a webhook besides its body. The headers have distinct names
/// and no particular order.
#[derive(Debug)]
pub struct HookMeta {
    pub timestamp: String,
    pub method: String,
    pub path: String,
    pub query_string: String,
    pub headers: Vec<(String, String)>,
    pub source_ip: String,
}

/// The part of the configuration that browsers may see.
#[derive(Debug)]
pub struct ConfigResponse {
    pub public_key: String,
}

} // verus!
