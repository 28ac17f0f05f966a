use vstd::prelude::*;
use crate::utils::errors::AuthenticatorErrors;
use crate::utils::signature::{hash_token, token_hash};

verus! {

/// An issued authentication: who it is for, the secret and policy it was
/// signed with, until when it is valid, where the blockchain confirmed it
/// (once it has) and the hash of its token. Identifiers are UUIDs, held as
/// their 128-bit values.
pub struct AuthenticationEntry {
    pub id: u128,
    pub account_name: String,
    pub secret: u128,
    pub policy_base64: String,
    pub valid_until: u64,
    pub blockchain_index: Option<u64>,
    pub token_hash: String,
}

/// How far the blockchain has been read, and when that record was created.
#[derive(Clone, Copy, Debug, PartialEq, Eq, Structural)]
pub struct DatabaseState {
    pub last_blockchain_id: u64,
    pub last_updated_at: u64,
}

/// The outcome of presenting `token` for the entry `found` (none when the
/// id is unknown): the entry when the token's hash is the stored one.
pub open spec fn authentication_lookup(found: Option<AuthenticationEntry>, token: Seq<char>) -> Result<
    AuthenticationEntry,
    AuthenticatorErrors,
> {
    match found {
        None => Err(AuthenticatorErrors::InvalidId),
        Some(record) => if record.token_hash@ == token_hash(token) {
            Ok(record)
        } else {
            Err(AuthenticatorErrors::InvalidToken)
        },
    }
}

/// The confirmed entry that the database holds under an id (`found`), if
/// `token` is its token.
pub fn get_authentication_entry(found: Option<AuthenticationEntry>, token: &String) -> (r: Result<
    AuthenticationEntry,
    AuthenticatorErrors,
>)
    ensures
        r == authentication_lookup(found, token@),
{
    match found {
        Some(record) => {
            if record.token_hash == hash_token(token) {
                Ok(record)
            } else {
                Err(AuthenticatorErrors::InvalidToken)
            }
        },
        None => Err(AuthenticatorErrors::InvalidId),
    }
}

/// The entry awaiting confirmation that the database holds under an id
/// (`found`).
pub fn get_waiting_for_confirmation(found: Option<AuthenticationEntry>) -> (r: Result<
    AuthenticationEntry,
    AuthenticatorErrors,
>)
    ensures
        match found {
            None => r == Err::<AuthenticationEntry, AuthenticatorErrors>(
                AuthenticatorErrors::InvalidId,
            ),
            Some(record) => r == Ok::<AuthenticationEntry, AuthenticatorErrors>(record),
        },
{
    match found {
        Some(record) => Ok(record),
        None => Err(AuthenticatorErrors::InvalidId),
    }
}

} // verus!
