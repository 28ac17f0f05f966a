use authenticator::api::new::{
    after_account_lookup, answer_new, generate_data, new_request, AuthenticationRequest, NewRequestStep,
};
use authenticator::api::reply::{answer_reply, error_reply, outcome_reply, Reply};
use authenticator::api::check::{check, check_credentials};
use authenticator::api::info::{info_request, InfoRequest, InfoStep};
use authenticator::database::AuthenticationEntry;
use authenticator::utils::blockchain_updater::{update_record, PolicyRow, RecordUpdate};
use authenticator::utils::errors::AuthenticatorErrors;
use authenticator::utils::settings::{Blockchain, Testing};
use authenticator::utils::throttling::AccessStatistics;

const TEST_ACCOUNT: &str = "seedsuseraaa";
const IP: &str = "127.0.0.1";

fn blockchain(amount: i64) -> Blockchain {
    Blockchain {
        host: "http://localhost:8888".to_string(),
        fetch_limit: 10,
        fetch_timeout: 1000,
        request_amount_limit: amount,
        request_total_amount_limit: 100,
        request_time_limit: 60,
    }
}

/// One request for a new authentication, with `account_exists` standing for
/// the blockchain's answer; returns the reply and the issued entry.
fn request_new(
    stats: &mut AccessStatistics,
    account: Option<&str>,
    account_exists: bool,
    limits: &Blockchain,
) -> (Reply, Option<(String, String, AuthenticationEntry)>) {
    let request = AuthenticationRequest { account_name: account.map(|s| s.to_string()) };
    let mut step = new_request(stats, &request, &IP.to_string(), limits);
    if let NewRequestStep::LookUpAccount(_) = &step {
        step = after_account_lookup(account_exists);
    }
    match step {
        NewRequestStep::Refuse(e) => (error_reply(e), None),
        NewRequestStep::Issue => {
            let data = generate_data(&request.account_name).unwrap();
            let answer = answer_new(&data, &request);
            let issued = (data.policy.id.clone(), data.token.clone(), data.authentication_entry);
            (answer_reply(&answer), Some(issued))
        }
        NewRequestStep::LookUpAccount(_) => panic!("lookup already answered"),
    }
}

fn confirm(id: &str, entry: AuthenticationEntry) -> AuthenticationEntry {
    match update_record(&PolicyRow { id: 1, backend_user_id: id.to_string() }, Some(entry)) {
        RecordUpdate::Confirm { entry, .. } => entry,
        RecordUpdate::Unknown { .. } => panic!("entry should be confirmed"),
    }
}

#[test]
fn positive_correct_account_name() {
    let mut stats = AccessStatistics::new();
    let (reply, issued) = request_new(&mut stats, Some(TEST_ACCOUNT), true, &blockchain(10));
    assert_eq!(reply.status, 200);
    assert!(issued.is_some());
}

#[test]
fn negative_wrong_account_name() {
    let mut stats = AccessStatistics::new();
    let (reply, _) = request_new(&mut stats, Some("wrong"), false, &blockchain(10));
    assert_eq!(reply.status, 404);
}

#[test]
fn negative_account_name_too_long() {
    let mut stats = AccessStatistics::new();
    let (reply, _) = request_new(&mut stats, Some("iamwaaaaaaytoooolong"), true, &blockchain(10));
    assert_eq!(reply.status, 403);
    assert_eq!(reply.body, "{\"message\":\"Your account name is invalid.\"}");
}

#[test]
fn negative_request_limit_surpassed() {
    let mut stats = AccessStatistics::new();
    let limits = blockchain(10);
    let mut status_code = 0;
    for _ in 0..limits.request_amount_limit + 5 {
        status_code = request_new(&mut stats, Some(TEST_ACCOUNT), true, &limits).0.status;
    }
    assert_eq!(status_code, 429);
}

fn testing() -> Testing {
    Testing {
        account_name: TEST_ACCOUNT.to_string(),
        invalid_token: "just an invalid token".to_string(),
        invalid_backend_id: "an invalid backend id".to_string(),
    }
}

/// A credentials check in test mode right after issuing, as the service
/// runs its own tests.
fn check_in_test_mode(use_issued_id: bool, use_issued_token: bool) -> Reply {
    let mut stats = AccessStatistics::new();
    let (_, issued) = request_new(&mut stats, Some(TEST_ACCOUNT), true, &blockchain(10));
    let (id, token, entry) = issued.unwrap();
    let t = testing();
    let id = if use_issued_id { id } else { t.invalid_backend_id.clone() };
    let token = if use_issued_token { token } else { t.invalid_token.clone() };
    check(true, &t, &id, &token, None, Some(entry))
}

#[test]
fn valid_token_not_in_blockchain() {
    assert_eq!(check_in_test_mode(false, true).status, 404);
}

#[test]
fn valid_token_in_blockchain() {
    let r = check_in_test_mode(true, true);
    assert_eq!(r.status, 200);
    assert_eq!(r.body, "{\"message\":{\"status\":\"ok\"}}");
}

#[test]
fn invalid_token() {
    let r = check_in_test_mode(true, false);
    assert_eq!(r.status, 403);
    assert_eq!(r.body, "{\"message\":\"Invalid token.\"}");
}

#[test]
fn confirmed_entry_passes_the_check() {
    let mut stats = AccessStatistics::new();
    let (_, issued) = request_new(&mut stats, Some(TEST_ACCOUNT), true, &blockchain(10));
    let (id, token, entry) = issued.unwrap();
    let confirmed = confirm(&id, entry);
    assert_eq!(check(false, &testing(), &id, &token, Some(confirmed), None).status, 200);
}

#[test]
fn unknown_id_fails_the_check() {
    let outcome = check_credentials(None, None, &"token".to_string());
    assert_eq!(outcome, Err(AuthenticatorErrors::InvalidId));
    assert_eq!(outcome_reply(outcome).status, 404);
}

#[test]
fn wrong_token_fails_the_check_of_a_confirmed_entry() {
    let mut stats = AccessStatistics::new();
    let (_, issued) = request_new(&mut stats, Some(TEST_ACCOUNT), true, &blockchain(10));
    let (id, _, entry) = issued.unwrap();
    let confirmed = confirm(&id, entry);
    let outcome = check_credentials(Some(confirmed), None, &"just an invalid token".to_string());
    assert_eq!(outcome, Err(AuthenticatorErrors::InvalidToken));
    assert_eq!(outcome_reply(outcome).status, 403);
}

/// The info request for an entry issued but not yet on the blockchain.
fn info_not_in_blockchain(valid_token: bool, valid_name: bool) -> u16 {
    let mut stats = AccessStatistics::new();
    let (_, issued) = request_new(&mut stats, Some(TEST_ACCOUNT), true, &blockchain(10));
    let (id, token, entry) = issued.unwrap();
    let request = InfoRequest {
        token: if valid_token { token } else { "just an invalid token".to_string() },
        account_name: if valid_name { TEST_ACCOUNT.to_string() } else { "just an invalid account_name".to_string() },
    };
    match info_request(false, &testing(), &id, &request, None, Some(entry)) {
        InfoStep::Answer(r) => r.status,
        InfoStep::LoadProfile(_) => 200,
    }
}

#[test]
fn valid_token_valid_accountname_not_in_blockchain() {
    assert_eq!(info_not_in_blockchain(true, true), 404);
}

#[test]
fn valid_token_invalid_accountname_not_in_blockchain() {
    assert_eq!(info_not_in_blockchain(true, false), 404);
}

#[test]
fn invalid_token_valid_accountname_not_in_blockchain() {
    assert_eq!(info_not_in_blockchain(false, true), 404);
}

#[test]
fn invalid_token_invalid_accountname_not_in_blockchain() {
    assert_eq!(info_not_in_blockchain(false, false), 404);
}

#[test]
fn info_loads_the_profile_only_after_a_passed_check() {
    let mut stats = AccessStatistics::new();
    let (_, issued) = request_new(&mut stats, Some(TEST_ACCOUNT), true, &blockchain(10));
    let (id, token, entry) = issued.unwrap();
    let confirmed = confirm(&id, entry);
    let request = InfoRequest { token, account_name: TEST_ACCOUNT.to_string() };
    match info_request(false, &testing(), &id, &request, Some(confirmed), None) {
        InfoStep::LoadProfile(name) => assert_eq!(name, TEST_ACCOUNT),
        InfoStep::Answer(_) => panic!("expected the profile to be loaded"),
    }
    let r = match info_request(true, &testing(), &id, &request, None, None) {
        InfoStep::Answer(r) => r,
        InfoStep::LoadProfile(_) => panic!("test mode answers itself"),
    };
    assert_eq!(r.status, 200);
    assert!(r.body.starts_with("{\"Ok\":{\"more\":false"));
}

#[test]
fn entry_awaiting_confirmation_is_not_on_the_blockchain() {
    let mut stats = AccessStatistics::new();
    let (_, issued) = request_new(&mut stats, Some(TEST_ACCOUNT), true, &blockchain(10));
    let (_, token, entry) = issued.unwrap();
    let outcome = check_credentials(None, Some(entry), &token);
    assert_eq!(outcome, Err(AuthenticatorErrors::NotStoredBlockchain));
    assert_eq!(outcome_reply(outcome).status, 404);
}

#[test]
fn short_names_outside_the_alphabet_are_looked_up() {
    let mut stats = AccessStatistics::new();
    let request = AuthenticationRequest { account_name: Some("Ab".to_string()) };
    match new_request(&mut stats, &request, &IP.to_string(), &blockchain(10)) {
        NewRequestStep::LookUpAccount(name) => assert_eq!(name, "Ab"),
        _ => panic!("expected an account lookup"),
    }
    let (reply, _) = request_new(&mut stats, Some("Ab"), false, &blockchain(10));
    assert_eq!(reply.status, 404);
}
