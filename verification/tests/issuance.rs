use authenticator::api::new::{
    after_account_lookup, answer_new, generate_data, generate_data_from, new_request, policy_json,
    AuthenticationRequest, NewRequestStep,
};
use authenticator::database::{get_authentication_entry, get_waiting_for_confirmation};
use authenticator::utils::errors::AuthenticatorErrors;
use authenticator::utils::settings::Blockchain;
use authenticator::utils::signature::{hash_token, sign, Policy};
use authenticator::utils::throttling::AccessStatistics;

const ID: u128 = 0x123e4567e89b42d3a456426614174000;
const SECRET: u128 = 0x00000000000040008000000000000001;
const TOKEN: u128 = 0xffffffffffff4fffbfffffffffffffff;

#[test]
fn issued_data_matches_reference_values() {
    let d = generate_data_from(&Some("alice".to_string()), ID, SECRET, TOKEN, 1700000000);
    assert_eq!(d.policy.valid_until, "1702592000");
    assert_eq!(d.policy.account_name, "alice");
    assert_eq!(d.policy.id, "123e4567-e89b-42d3-a456-426614174000");
    assert_eq!(d.token, "ffffffff-ffff-4fff-bfff-ffffffffffff");
    assert_eq!(
        d.signature.base64_policy,
        "eyJ2YWxpZF91bnRpbCI6IjE3MDI1OTIwMDAiLCJhY2NvdW50X25hbWUiOiJhbGljZSIsImlkIjoiMTIzZTQ1NjctZTg5Yi00MmQzLWE0NTYtNDI2NjE0MTc0MDAwIn0="
    );
    assert_eq!(d.signature.signature, "TD5d9mPPjU+/GDdz/+dTTswAC80/ArTEMg0kN6HYhvw=");
    let e = &d.authentication_entry;
    assert_eq!(e.id, ID);
    assert_eq!(e.secret, SECRET);
    assert_eq!(e.account_name, "alice");
    assert_eq!(e.valid_until, 1702592000);
    assert_eq!(e.blockchain_index, None);
    assert_eq!(e.policy_base64, d.signature.base64_policy);
    assert_eq!(e.token_hash, "66c6a0d124855ac03a1a6aadaac2df595853982e8740806ab3e4157f400fbcb6");
}

#[test]
fn anonymous_requests_get_an_empty_account_name() {
    let d = generate_data_from(&None, ID, SECRET, TOKEN, 0);
    assert_eq!(d.policy.account_name, "");
    assert_eq!(d.policy.valid_until, "2592000");
}

#[test]
fn policy_json_escapes_like_serde_json() {
    let p = Policy {
        valid_until: "1".to_string(),
        account_name: "q\"\\\n\u{1}\u{7f} é".to_string(),
        id: "x".to_string(),
    };
    assert_eq!(
        policy_json(&p),
        "{\"valid_until\":\"1\",\"account_name\":\"q\\\"\\\\\\n\\u0001\u{7f} é\",\"id\":\"x\"}"
    );
}

#[test]
fn issued_token_opens_its_entry() {
    let d = generate_data(&Some("alice".to_string())).unwrap();
    let token = d.token.clone();
    let secret_text = authenticator_uuid_text(d.authentication_entry.secret);
    let expected = sign(&d.authentication_entry.policy_base64, &secret_text, &token);
    assert_eq!(expected.signature, d.signature.signature);
    let entry = get_authentication_entry(Some(d.authentication_entry), &token).unwrap();
    assert_eq!(entry.token_hash, hash_token(&token));
    assert_eq!(entry.id.to_be_bytes()[6] >> 4, 4);
}

fn authenticator_uuid_text(x: u128) -> String {
    let h = format!("{:032x}", x);
    format!("{}-{}-{}-{}-{}", &h[0..8], &h[8..12], &h[12..16], &h[16..20], &h[20..32])
}

#[test]
fn wrong_token_or_unknown_id_is_refused() {
    let d = generate_data_from(&Some("alice".to_string()), ID, SECRET, TOKEN, 0);
    let r = get_authentication_entry(Some(d.authentication_entry), &"just an invalid token".to_string());
    assert_eq!(r.err(), Some(AuthenticatorErrors::InvalidToken));
    let r = get_authentication_entry(None, &d.token);
    assert_eq!(r.err(), Some(AuthenticatorErrors::InvalidId));
    assert_eq!(get_waiting_for_confirmation(None).err(), Some(AuthenticatorErrors::InvalidId));
}

fn limits(amount: i64) -> Blockchain {
    Blockchain {
        host: "http://localhost".to_string(),
        fetch_limit: 10,
        fetch_timeout: 1000,
        request_amount_limit: amount,
        request_total_amount_limit: 100,
        request_time_limit: 3600,
    }
}

#[test]
fn new_request_steps() {
    let mut stats = AccessStatistics::new();
    let ip = "127.0.0.1".to_string();
    let named = AuthenticationRequest { account_name: Some("alice".to_string()) };
    match new_request(&mut stats, &named, &ip, &limits(1)) {
        NewRequestStep::LookUpAccount(name) => assert_eq!(name, "alice"),
        _ => panic!("expected an account lookup"),
    }
    assert!(matches!(
        new_request(&mut stats, &named, &ip, &limits(1)),
        NewRequestStep::Refuse(AuthenticatorErrors::TooManyUserAccesses)
    ));
    let anonymous = AuthenticationRequest { account_name: None };
    assert!(matches!(new_request(&mut stats, &anonymous, &ip, &limits(1)), NewRequestStep::Issue));
    assert!(matches!(after_account_lookup(true), NewRequestStep::Issue));
    assert!(matches!(
        after_account_lookup(false),
        NewRequestStep::Refuse(AuthenticatorErrors::AccountNotFound)
    ));
}

#[test]
fn answer_carries_the_issued_data() {
    let d = generate_data_from(&None, ID, SECRET, TOKEN, 0);
    let a = answer_new(&d, &AuthenticationRequest { account_name: None });
    assert_eq!(a.id, "123e4567-e89b-42d3-a456-426614174000");
    assert_eq!(a.account_name, "");
    assert_eq!(a.token, d.token);
    assert_eq!(a.valid_until, "2592000");
    assert_eq!(a.policy, d.signature.base64_policy);
    assert_eq!(a.signature, d.signature.signature);
}

use authenticator::api::new::generate_data_at;
use authenticator::utils::throttling::Timestamp;

#[test]
fn issuing_needs_a_clock_reading_in_range() {
    let name = Some("alice".to_string());
    let d = generate_data_at(&name, ID, SECRET, TOKEN, Timestamp { secs: 1700000000, nanos: 9 }).unwrap();
    assert_eq!(d.policy.valid_until, "1702592000");
    assert_eq!(d.signature.signature, "TD5d9mPPjU+/GDdz/+dTTswAC80/ArTEMg0kN6HYhvw=");
    assert!(generate_data_at(&name, ID, SECRET, TOKEN, Timestamp { secs: -1, nanos: 0 }).is_none());
    assert!(generate_data_at(&name, ID, SECRET, TOKEN, Timestamp { secs: i64::MAX, nanos: 0 }).is_some());
}
