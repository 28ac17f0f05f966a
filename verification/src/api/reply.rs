use vstd::prelude::*;
use crate::api::new::AnswerNew;
use crate::utils::errors::{AuthenticatorErrors, error_message, error_status};
use crate::utils::json::{json_string, push_json_string};

verus! {

/// An HTTP answer: its status code and its JSON body.
pub struct Reply {
    pub status: u16,
    pub body: String,
}

/// The status code of a successful request (200 OK).
pub const SUCCESS: u16 = 200;

/// The status code of an accepted withdrawal (202 Accepted).
pub const ACCEPTED: u16 = 202;

/// The body of an accepted request.
pub open spec fn ok_body() -> Seq<char> {
    "{\"message\":{\"status\":\"ok\"}}"@
}

/// The body that explains a refusal.
pub open spec fn error_body(e: AuthenticatorErrors) -> Seq<char> {
    "{\"message\":"@ + json_string(error_message(e)) + "}"@
}

/// The body that carries a new authentication: the answer object itself,
/// its fields in declaration order.
pub open spec fn answer_body(
    id: Seq<char>,
    account_name: Seq<char>,
    token: Seq<char>,
    valid_until: Seq<char>,
    policy: Seq<char>,
    signature: Seq<char>,
) -> Seq<char> {
    "{\"id\":"@ + json_string(id) + ",\"account_name\":"@ + json_string(account_name)
        + ",\"token\":"@ + json_string(token) + ",\"valid_until\":"@ + json_string(valid_until)
        + ",\"policy\":"@ + json_string(policy) + ",\"signature\":"@ + json_string(signature)
        + "}"@
}

/// The answer to a successful request.
pub fn success_reply() -> (r: Reply)
    ensures
        r.status == SUCCESS,
        r.body@ == ok_body(),
{
    Reply { status: SUCCESS, body: String::from_str("{\"message\":{\"status\":\"ok\"}}") }
}

/// The answer to an accepted withdrawal.
pub fn accepted_reply() -> (r: Reply)
    ensures
        r.status == ACCEPTED,
        r.body@ == ok_body(),
{
    Reply { status: ACCEPTED, body: String::from_str("{\"message\":{\"status\":\"ok\"}}") }
}

/// The answer to a request refused with `e`: its status and its message.
pub fn error_reply(e: AuthenticatorErrors) -> (r: Reply)
    ensures
        r.status == error_status(e),
        r.body@ == error_body(e),
{
    let mut body = String::new();
    body.append("{\"message\":");
    let message = e.get_error();
    push_json_string(&mut body, message.as_str());
    body.append("}");
    assert(body@ =~= error_body(e));
    Reply { status: e.status_code(), body }
}

/// The answer to a request that was accepted or refused.
pub fn outcome_reply(outcome: Result<(), AuthenticatorErrors>) -> (r: Reply)
    ensures
        match outcome {
            Ok(_) => r.status == SUCCESS && r.body@ == ok_body(),
            Err(e) => r.status == error_status(e) && r.body@ == error_body(e),
        },
{
    match outcome {
        Ok(_) => success_reply(),
        Err(e) => error_reply(e),
    }
}

/// The answer that hands out a new authentication.
pub fn answer_reply(a: &AnswerNew) -> (r: Reply)
    ensures
        r.status == SUCCESS,
        r.body@ == answer_body(
            a.id@,
            a.account_name@,
            a.token@,
            a.valid_until@,
            a.policy@,
            a.signature@,
        ),
{
    let mut body = String::new();
    body.append("{\"id\":");
    push_json_string(&mut body, a.id.as_str());
    body.append(",\"account_name\":");
    push_json_string(&mut body, a.account_name.as_str());
    body.append(",\"token\":");
    push_json_string(&mut body, a.token.as_str());
    body.append(",\"valid_until\":");
    push_json_string(&mut body, a.valid_until.as_str());
    body.append(",\"policy\":");
    push_json_string(&mut body, a.policy.as_str());
    body.append(",\"signature\":");
    push_json_string(&mut body, a.signature.as_str());
    body.append("}");
    assert(body@ =~= answer_body(
        a.id@,
        a.account_name@,
        a.token@,
        a.valid_until@,
        a.policy@,
        a.signature@,
    ));
    Reply { status: SUCCESS, body }
}

} // verus!
