use vstd::prelude::*;

verus! {

/// Settings of the authenticator itself.
pub struct Authenticator {
    pub host: String,
    pub throttling_repeater_time: u64,
    /// Accesses at least this many seconds old are dropped by a clean-up.
    pub throttling_old_entry: i64,
}

/// Settings of the blockchain connection and of the request limits.
pub struct Blockchain {
    pub host: String,
    pub fetch_limit: u8,
    pub fetch_timeout: u64,
    /// How many recent requests one account may make from one address.
    pub request_amount_limit: i64,
    pub request_total_amount_limit: i64,
    /// How many seconds a request counts as recent.
    pub request_time_limit: i64,
}

/// Where the database lives.
pub struct Database {
    pub path: String,
}

/// Values the test mode answers with.
pub struct Testing {
    pub account_name: String,
    pub invalid_token: String,
    pub invalid_backend_id: String,
}

/// All settings of the service.
pub struct Settings {
    pub authenticator: Authenticator,
    pub blockchain: Blockchain,
    pub database: Database,
    pub testing: Testing,
}

} // verus!
