use vstd::prelude::*;
use crate::api::check::{check_credentials, credentials_outcome};
use crate::api::reply::{Reply, SUCCESS, error_body, error_reply};
use crate::database::AuthenticationEntry;
use crate::utils::errors::{AuthenticatorErrors, error_status};
use crate::utils::json::{json_string, push_json_string};
use crate::utils::settings::Testing;

verus! {

/// A request for the profile of an account, proven by a token.
pub struct InfoRequest {
    pub token: String,
    pub account_name: String,
}

/// The test-mode decision on an info request for entry `id`: the test
/// settings name the token and the entry id that are refused and the only
/// account that exists.
pub open spec fn test_mode_outcome(testing: Testing, id: Seq<char>, request: InfoRequest) -> Result<
    (),
    AuthenticatorErrors,
> {
    if request.token@ == testing.invalid_token@ {
        Err(AuthenticatorErrors::InvalidToken)
    } else if id == testing.invalid_backend_id@ {
        Err(AuthenticatorErrors::InvalidId)
    } else if request.account_name@ != testing.account_name@ {
        Err(AuthenticatorErrors::AccountNotFound)
    } else {
        Ok(())
    }
}

/// Decides an info request in test mode; on success the answer is the test
/// account's profile.
pub fn info_test_mode(testing: &Testing, id: &String, request: &InfoRequest) -> (r: Result<
    (),
    AuthenticatorErrors,
>)
    ensures
        r == test_mode_outcome(*testing, id@, *request),
{
    if request.token == testing.invalid_token {
        Err(AuthenticatorErrors::InvalidToken)
    } else if *id == testing.invalid_backend_id {
        Err(AuthenticatorErrors::InvalidId)
    } else if request.account_name != testing.account_name {
        Err(AuthenticatorErrors::AccountNotFound)
    } else {
        Ok(())
    }
}

/// The profile that test mode answers with for `account` (keys in sorted
/// order).
pub open spec fn test_profile_body(account: Seq<char>) -> Seq<char> {
    "{\"Ok\":{\"more\":false,\"next_key\":\"\",\"rows\":[{\"account\":"@ + json_string(account)
        + ",\"image\":\"\",\"interests\":\"\",\"nickname\":"@ + json_string(account)
        + ",\"reputation\":0,\"roles\":\"\",\"skills\":\"\",\"status\":\"visitor\",\"story\":\"\",\"timestamp\":0,\"type\":\"individual\"}]}}"@
}

/// The answer test mode gives to an accepted info request: the profile of
/// the test account.
pub fn test_profile_reply(testing: &Testing) -> (r: Reply)
    ensures
        r.status == SUCCESS,
        r.body@ == test_profile_body(testing.account_name@),
{
    let mut body = String::new();
    body.append("{\"Ok\":{\"more\":false,\"next_key\":\"\",\"rows\":[{\"account\":");
    push_json_string(&mut body, testing.account_name.as_str());
    body.append(",\"image\":\"\",\"interests\":\"\",\"nickname\":");
    push_json_string(&mut body, testing.account_name.as_str());
    body.append(
        ",\"reputation\":0,\"roles\":\"\",\"skills\":\"\",\"status\":\"visitor\",\"story\":\"\",\"timestamp\":0,\"type\":\"individual\"}]}}",
    );
    assert(body@ =~= test_profile_body(testing.account_name@));
    Reply { status: SUCCESS, body }
}

/// The body that carries the outcome of loading a profile from the
/// blockchain: the loaded JSON text under `Ok`, or the reason under `Err`.
pub open spec fn user_data_body(loaded: Result<Seq<char>, Seq<char>>) -> Seq<char> {
    match loaded {
        Ok(json) => "{\"Ok\":"@ + json + "}"@,
        Err(reason) => "{\"Err\":"@ + json_string(reason) + "}"@,
    }
}

/// The answer to an accepted info request outside test mode: the outcome of
/// loading the profile (`Ok` with its JSON text, or `Err` with the reason),
/// always with status 200.
pub fn user_data_reply(loaded: Result<String, &str>) -> (r: Reply)
    ensures
        r.status == SUCCESS,
        r.body@ == user_data_body(
            match loaded {
                Ok(json) => Ok::<Seq<char>, Seq<char>>(json@),
                Err(reason) => Err::<Seq<char>, Seq<char>>(reason@),
            },
        ),
{
    let mut body = String::new();
    match loaded {
        Ok(json) => {
            body.append("{\"Ok\":");
            body.append(json.as_str());
            body.append("}");
            assert(body@ =~= user_data_body(Ok::<Seq<char>, Seq<char>>(json@)));
        },
        Err(reason) => {
            body.append("{\"Err\":");
            push_json_string(&mut body, reason);
            body.append("}");
            assert(body@ =~= user_data_body(Err::<Seq<char>, Seq<char>>(reason@)));
        },
    }
    Reply { status: SUCCESS, body }
}

/// What `serde_json` makes of `text` when it reads it as a JSON value and
/// writes that value out again (compact, object keys in sorted order), or
/// nothing when `text` is not JSON.
pub uninterp spec fn reprinted_json(text: Seq<char>) -> Option<Seq<char>>;

/// Trusted: `serde_json::from_str::<serde_json::Value>` on `text`, then
/// `serde_json::to_string` on the value read. The result is the value
/// written out again, `None` when `text` is not JSON; it depends on `text`
/// alone. Nothing more of the JSON grammar or the printed form is stated.
#[verifier::external_body]
fn reprint_json(text: &str) -> (r: Option<String>)
    ensures
        match r {
            Some(printed) => reprinted_json(text@) == Some(printed@),
            None => reprinted_json(text@) is None,
        },
{
    match serde_json::from_str::<serde_json::Value>(text) {
        Ok(value) => serde_json::to_string(&value).ok(),
        Err(_) => None,
    }
}

/// The answer to an accepted info request outside test mode, from what the
/// blockchain sent back for the profile: the reply text read as JSON and
/// written out again under `Ok`, or the reason the request failed under
/// `Err`. `None` when the reply is not JSON.
pub fn profile_reply(loaded: Result<String, &str>) -> (r: Option<Reply>)
    ensures
        match loaded {
            Ok(text) => match reprinted_json(text@) {
                Some(json) => r matches Some(reply) && reply.status == SUCCESS && reply.body@
                    == user_data_body(Ok::<Seq<char>, Seq<char>>(json)),
                None => r is None,
            },
            Err(reason) => r matches Some(reply) && reply.status == SUCCESS && reply.body@
                == user_data_body(Err::<Seq<char>, Seq<char>>(reason@)),
        },
{
    match loaded {
        Ok(text) => match reprint_json(text.as_str()) {
            Some(json) => Some(user_data_reply(Ok(json))),
            None => None,
        },
        Err(reason) => Some(user_data_reply(Err(reason))),
    }
}

/// The next thing to do with an info request.
pub enum InfoStep {
    /// Send this answer.
    Answer(Reply),
    /// Load the profile of this account from the blockchain, then answer
    /// with `profile_reply`.
    LoadProfile(String),
}

/// Decides an info request for entry `id`. In test mode the test settings
/// decide, and an accepted request is answered with the test profile.
/// Otherwise the token is checked against the entries the database holds
/// under `id` (`check_credentials`); a refused request is answered with its
/// error, and the profile is loaded only for an accepted one.
pub fn info_request(
    is_test: bool,
    testing: &Testing,
    id: &String,
    request: &InfoRequest,
    confirmed: Option<AuthenticationEntry>,
    waiting: Option<AuthenticationEntry>,
) -> (step: InfoStep)
    ensures
        is_test ==> match test_mode_outcome(*testing, id@, *request) {
            Ok(_) => step matches InfoStep::Answer(r) && r.status == SUCCESS && r.body@
                == test_profile_body(testing.account_name@),
            Err(e) => step matches InfoStep::Answer(r) && r.status == error_status(e) && r.body@
                == error_body(e),
        },
        !is_test ==> match credentials_outcome(confirmed, waiting, request.token@) {
            Ok(_) => step matches InfoStep::LoadProfile(name) && name@ == request.account_name@,
            Err(e) => step matches InfoStep::Answer(r) && r.status == error_status(e) && r.body@
                == error_body(e),
        },
{
    if is_test {
        match info_test_mode(testing, id, request) {
            Err(error) => InfoStep::Answer(error_reply(error)),
            Ok(()) => InfoStep::Answer(test_profile_reply(testing)),
        }
    } else {
        match check_credentials(confirmed, waiting, &request.token) {
            Err(error) => InfoStep::Answer(error_reply(error)),
            Ok(()) => InfoStep::LoadProfile(request.account_name.clone()),
        }
    }
}

} // verus!
