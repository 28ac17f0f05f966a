use authenticator::api::info::{info_test_mode, profile_reply, InfoRequest};
use authenticator::api::invalidate::{invalidate, InvalidateRequest};
use authenticator::api::new::{answer_new, generate_data_from, issue, AuthenticationRequest};
use authenticator::api::reply::{accepted_reply, answer_reply, error_reply, outcome_reply, success_reply};
use authenticator::utils::blockchain::{
    account_request_body, account_url, authentication_entries_request_body, get_account,
    table_rows_url, user_data_request_body, Account, AccountResponse,
};
use authenticator::utils::errors::AuthenticatorErrors;
use authenticator::utils::settings::Testing;

#[test]
fn accepted_and_error_bodies() {
    let r = accepted_reply();
    assert_eq!(r.status, 202);
    assert_eq!(r.body, "{\"message\":{\"status\":\"ok\"}}");
    let r = success_reply();
    assert_eq!(r.status, 200);
    assert_eq!(r.body, "{\"message\":{\"status\":\"ok\"}}");
    let r = error_reply(AuthenticatorErrors::TooManyUserAccesses);
    assert_eq!(r.status, 429);
    assert_eq!(r.body, "{\"message\":\"Too many requests. Try again soon.\"}");
    let r = outcome_reply(Err(AuthenticatorErrors::InvalidId));
    assert_eq!(r.status, 404);
    assert_eq!(r.body, "{\"message\":\"Invalid id.\"}");
    assert_eq!(outcome_reply(Ok(())).status, 200);
}

#[test]
fn answer_body_is_the_answer_object() {
    let d = generate_data_from(&Some("al\"ice".to_string()), 1, 2, 3, 0);
    let a = answer_new(&d, &AuthenticationRequest { account_name: Some("al\"ice".to_string()) });
    let r = answer_reply(&a);
    assert_eq!(r.status, 200);
    let expected = format!(
        "{{\"id\":\"{}\",\"account_name\":\"al\\\"ice\",\"token\":\"{}\",\"valid_until\":\"2592000\",\"policy\":\"{}\",\"signature\":\"{}\"}}",
        a.id, a.token, a.policy, a.signature
    );
    assert_eq!(r.body, expected);
}

#[test]
fn invalidate_needs_the_token() {
    let d = generate_data_from(&None, 1, 2, 3, 0);
    let token = d.token.clone();
    let o = invalidate(Some(d.authentication_entry), &InvalidateRequest { token: "nope".to_string() });
    assert!(!o.remove_entry);
    assert_eq!(o.reply.status, 403);
    let d = generate_data_from(&None, 1, 2, 3, 0);
    let o = invalidate(Some(d.authentication_entry), &InvalidateRequest { token: token.clone() });
    assert!(o.remove_entry);
    assert_eq!(o.reply.status, 202);
    let o = invalidate(None, &InvalidateRequest { token });
    assert!(!o.remove_entry);
    assert_eq!(o.reply.status, 404);
}

fn testing() -> Testing {
    Testing {
        account_name: "seedsuseraaa".to_string(),
        invalid_token: "bad".to_string(),
        invalid_backend_id: "missing".to_string(),
    }
}

#[test]
fn info_test_mode_decisions() {
    let t = testing();
    let req = |token: &str, name: &str| InfoRequest { token: token.to_string(), account_name: name.to_string() };
    assert_eq!(info_test_mode(&t, &"id".to_string(), &req("bad", "x")), Err(AuthenticatorErrors::InvalidToken));
    assert_eq!(info_test_mode(&t, &"missing".to_string(), &req("ok", "seedsuseraaa")), Err(AuthenticatorErrors::InvalidId));
    assert_eq!(info_test_mode(&t, &"id".to_string(), &req("ok", "other")), Err(AuthenticatorErrors::AccountNotFound));
    assert_eq!(info_test_mode(&t, &"id".to_string(), &req("ok", "seedsuseraaa")), Ok(()));
}

#[test]
fn blockchain_requests() {
    let host = "http://node".to_string();
    assert_eq!(account_url(&host), "http://node/v1/chain/get_account");
    assert_eq!(table_rows_url(&host), "http://node/v1/chain/get_table_rows");
    assert_eq!(account_request_body(&"alice".to_string()), "{\"account_name\":\"alice\"}");
    assert_eq!(
        authentication_entries_request_body(5, 15, 10),
        "{\"code\":\"policy.seeds\",\"index_position\":1,\"json\":true,\"key_type\":\"\",\"limit\":10,\"lower_bound\":\"5\",\"reverse\":false,\"scope\":\"policy.seeds\",\"show_payer\":false,\"table\":\"devicepolicy\",\"upper_bound\":\"15\"}"
    );
    assert_eq!(
        user_data_request_body(&"eosio".to_string()),
        "{\"code\":\"accts.seeds\",\"json\":true,\"limit\":1,\"lower_bound\":6138663577826885632,\"scope\":\"accts.seeds\",\"table\":\"users\",\"upper_bound\":6138663577826885632}"
    );
}

#[test]
fn account_lookup_outcomes() {
    let ok = get_account(AccountResponse::Answered(Some(Account { account_name: "alice".to_string() })));
    assert_eq!(ok.map(|a| a.account_name), Ok("alice".to_string()));
    assert_eq!(get_account(AccountResponse::Answered(None)).err(), Some("Account not found"));
    assert_eq!(get_account(AccountResponse::Failed).err(), Some("Invalid response"));
}

#[test]
fn profile_reply_writes_the_reply_out_again() {
    let text = "{ \"rows\" : [ { \"b\" : 1, \"a\" : \"x\" } ], \"more\" : false }".to_string();
    let r = profile_reply(Ok(text)).unwrap();
    assert_eq!(r.status, 200);
    assert_eq!(r.body, "{\"Ok\":{\"more\":false,\"rows\":[{\"a\":\"x\",\"b\":1}]}}");
}

#[test]
fn profile_reply_refuses_what_is_not_json() {
    assert!(profile_reply(Ok("{\"rows\":[".to_string())).is_none());
    assert!(profile_reply(Ok("not json".to_string())).is_none());
}

#[test]
fn profile_reply_carries_the_failure() {
    let r = profile_reply(Err("Error loading from blockchain")).unwrap();
    assert_eq!(r.status, 200);
    assert_eq!(r.body, "{\"Err\":\"Error loading from blockchain\"}");
}

#[test]
fn issue_stores_the_entry_under_its_policy_id() {
    let request = AuthenticationRequest { account_name: Some("alice".to_string()) };
    let d = generate_data_from(&request.account_name, 7, 2, 3, 0);
    let expected_body = answer_reply(&answer_new(&d, &request)).body;
    let policy_id = d.policy.id.clone();
    let i = issue(d, &request);
    assert_eq!(i.key, policy_id);
    assert_eq!(i.key, "00000000-0000-0000-0000-000000000007");
    assert_eq!(i.entry.id, 7);
    assert_eq!(i.entry.account_name, "alice");
    assert_eq!(i.entry.blockchain_index, None);
    assert_eq!(i.reply.status, 200);
    assert_eq!(i.reply.body, expected_body);
}
