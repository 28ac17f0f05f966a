use vstd::prelude::*;
use crate::database::{AuthenticationEntry, authentication_lookup, get_authentication_entry};
use crate::api::new::{NewAuthenticationDataSet, issued};
use crate::utils::blockchain_updater::confirmed as confirmed_at;
use crate::api::reply::{Reply, SUCCESS, error_body, ok_body, outcome_reply};
use crate::utils::errors::{AuthenticatorErrors, error_status};
use crate::utils::settings::Testing;

verus! {

/// The outcome of presenting `token` for an id under which the database
/// holds `confirmed` among the confirmed entries and `waiting` among those
/// awaiting confirmation.
pub open spec fn credentials_outcome(
    confirmed: Option<AuthenticationEntry>,
    waiting: Option<AuthenticationEntry>,
    token: Seq<char>,
) -> Result<(), AuthenticatorErrors> {
    if confirmed is Some {
        match authentication_lookup(confirmed, token) {
            Ok(_) => Ok(()),
            Err(e) => Err(e),
        }
    } else if waiting is Some {
        Err(AuthenticatorErrors::NotStoredBlockchain)
    } else {
        Err(AuthenticatorErrors::InvalidId)
    }
}

/// Checks `token` against the entry stored under an id: accepted when the
/// entry is confirmed on the blockchain and the token is its own (a wrong
/// token is refused as invalid); an entry still awaiting confirmation is
/// refused as not stored on the blockchain, whatever the token; an unknown id
/// is refused as invalid. The policy's expiry, its signature and its match
/// with the policy stored on the blockchain are not checked here: the
/// `ExpiredPolicy`, `InvalidSignature` and `MismatchedPolicies` refusals are
/// never given.
pub fn check_credentials(
    confirmed: Option<AuthenticationEntry>,
    waiting: Option<AuthenticationEntry>,
    token: &String,
) -> (r: Result<(), AuthenticatorErrors>)
    ensures
        r == credentials_outcome(confirmed, waiting, token@),
{
    if confirmed.is_some() {
        match get_authentication_entry(confirmed, token) {
            Ok(_) => Ok(()),
            Err(e) => Err(e),
        }
    } else if waiting.is_some() {
        Err(AuthenticatorErrors::NotStoredBlockchain)
    } else {
        Err(AuthenticatorErrors::InvalidId)
    }
}

/// An issued token passes the check once the blockchain has confirmed its
/// entry (whatever else waits under the id), and before that it is refused
/// because the entry is not on the blockchain yet.
pub proof fn lemma_issued_token_passes_check(
    d: NewAuthenticationDataSet,
    account: Seq<char>,
    id: u128,
    secret: u128,
    token_id: u128,
    now: u64,
    index: u64,
    waiting: Option<AuthenticationEntry>,
)
    requires
        issued(d, account, id, secret, token_id, now),
    ensures
        credentials_outcome(Some(confirmed_at(d.authentication_entry, index)), waiting, d.token@)
            == Ok::<(), AuthenticatorErrors>(()),
        credentials_outcome(None, Some(d.authentication_entry), d.token@) == Err::<
            (),
            AuthenticatorErrors,
        >(AuthenticatorErrors::NotStoredBlockchain),
{
}

/// The test-mode decision on presenting `token` for entry `id`: the test
/// settings name the token and the entry id that are refused; every other
/// pair is accepted.
pub open spec fn test_mode_credentials(testing: Testing, id: Seq<char>, token: Seq<char>) -> Result<
    (),
    AuthenticatorErrors,
> {
    if token == testing.invalid_token@ {
        Err(AuthenticatorErrors::InvalidToken)
    } else if id == testing.invalid_backend_id@ {
        Err(AuthenticatorErrors::InvalidId)
    } else {
        Ok(())
    }
}

/// Decides a credentials check in test mode.
pub fn check_test_mode(testing: &Testing, id: &String, token: &String) -> (r: Result<
    (),
    AuthenticatorErrors,
>)
    ensures
        r == test_mode_credentials(*testing, id@, token@),
{
    if *token == testing.invalid_token {
        Err(AuthenticatorErrors::InvalidToken)
    } else if *id == testing.invalid_backend_id {
        Err(AuthenticatorErrors::InvalidId)
    } else {
        Ok(())
    }
}

/// The outcome of a credentials check for entry `id`: in test mode the test
/// settings decide, otherwise the entries the database holds under `id`.
pub open spec fn check_outcome(
    is_test: bool,
    testing: Testing,
    id: Seq<char>,
    token: Seq<char>,
    confirmed: Option<AuthenticationEntry>,
    waiting: Option<AuthenticationEntry>,
) -> Result<(), AuthenticatorErrors> {
    if is_test {
        test_mode_credentials(testing, id, token)
    } else {
        credentials_outcome(confirmed, waiting, token)
    }
}

/// The answer to a credentials check for entry `id`: 200 when accepted, the
/// error's status and message when refused.
pub fn check(
    is_test: bool,
    testing: &Testing,
    id: &String,
    token: &String,
    confirmed: Option<AuthenticationEntry>,
    waiting: Option<AuthenticationEntry>,
) -> (r: Reply)
    ensures
        match check_outcome(is_test, *testing, id@, token@, confirmed, waiting) {
            Ok(_) => r.status == SUCCESS && r.body@ == ok_body(),
            Err(e) => r.status == error_status(e) && r.body@ == error_body(e),
        },
{
    let outcome = if is_test {
        check_test_mode(testing, id, token)
    } else {
        check_credentials(confirmed, waiting, token)
    };
    outcome_reply(outcome)
}

} // verus!
