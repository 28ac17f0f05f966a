//! Verified core of the authenticator service: token hashing and policy
//! signing, EOSIO account-name encoding, request throttling, the decisions of
//! the blockchain updater and of the HTTP endpoints.
pub mod api;
pub mod database;
pub mod utils;
