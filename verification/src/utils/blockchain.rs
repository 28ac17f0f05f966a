use vstd::prelude::*;
use crate::utils::helpers::{name_bytes_to_u64, name_value};
use crate::utils::json::{json_string, push_json_string};
use crate::utils::text::{decimal, push_decimal};
use vstd::utf8::encode_utf8;

verus! {

/// An account as the blockchain describes it.
pub struct Account {
    pub account_name: String,
}

/// What the blockchain answered to an account lookup.
pub enum AccountResponse {
    /// The request failed.
    Failed,
    /// An answer arrived; it held an account, or could not be read as one.
    Answered(Option<Account>),
}

/// The address of the blockchain's account lookup.
pub open spec fn account_url_text(host: Seq<char>) -> Seq<char> {
    host + "/v1/chain/get_account"@
}

/// The address of the blockchain's table reads.
pub open spec fn table_rows_url_text(host: Seq<char>) -> Seq<char> {
    host + "/v1/chain/get_table_rows"@
}

/// The body of an account lookup.
pub open spec fn account_body(account_name: Seq<char>) -> Seq<char> {
    "{\"account_name\":"@ + json_string(account_name) + "}"@
}

/// The body that reads the policy rows with indexes from `lower` to `upper`,
/// at most `limit` of them (keys in sorted order).
pub open spec fn entries_body(lower: u64, upper: u64, limit: u8) -> Seq<char> {
    "{\"code\":\"policy.seeds\",\"index_position\":1,\"json\":true,\"key_type\":\"\",\"limit\":"@
        + decimal(limit as nat) + ",\"lower_bound\":"@ + json_string(decimal(lower as nat))
        + ",\"reverse\":false,\"scope\":\"policy.seeds\",\"show_payer\":false,\"table\":\"devicepolicy\",\"upper_bound\":"@
        + json_string(decimal(upper as nat)) + "}"@
}

/// The body that reads the user row of the account whose name has the
/// 64-bit value `name` (keys in sorted order).
pub open spec fn user_data_body(name: u64) -> Seq<char> {
    "{\"code\":\"accts.seeds\",\"json\":true,\"limit\":1,\"lower_bound\":"@ + decimal(name as nat)
        + ",\"scope\":\"accts.seeds\",\"table\":\"users\",\"upper_bound\":"@ + decimal(name as nat)
        + "}"@
}

/// The address of the account lookup on `host`.
pub fn account_url(host: &String) -> (url: String)
    ensures
        url@ == account_url_text(host@),
{
    let mut url = host.clone();
    url.append("/v1/chain/get_account");
    url
}

/// The address of the table reads on `host`.
pub fn table_rows_url(host: &String) -> (url: String)
    ensures
        url@ == table_rows_url_text(host@),
{
    let mut url = host.clone();
    url.append("/v1/chain/get_table_rows");
    url
}

/// The body of the lookup of `account_name`.
pub fn account_request_body(account_name: &String) -> (body: String)
    ensures
        body@ == account_body(account_name@),
{
    let mut body = String::new();
    body.append("{\"account_name\":");
    push_json_string(&mut body, account_name.as_str());
    body.append("}");
    assert(body@ =~= account_body(account_name@));
    body
}

/// The outcome of looking up an account: the account, or why there is none.
pub fn get_account(response: AccountResponse) -> (r: Result<Account, &'static str>)
    ensures
        match response {
            AccountResponse::Failed => r matches Err(e) && e@ == "Invalid response"@,
            AccountResponse::Answered(None) => r matches Err(e) && e@ == "Account not found"@,
            AccountResponse::Answered(Some(account)) => r == Ok::<Account, &'static str>(account),
        },
{
    match response {
        AccountResponse::Answered(Some(account)) => Ok(account),
        AccountResponse::Answered(None) => Err("Account not found"),
        AccountResponse::Failed => Err("Invalid response"),
    }
}

fn push_decimal_string(out: &mut String, n: u64)
    ensures
        final(out)@ == old(out)@ + json_string(decimal(n as nat)),
{
    let ghost start = out@;
    crate::utils::text::push_char(out, '"');
    push_decimal(out, n);
    crate::utils::text::push_char(out, '"');
    proof {
        lemma_decimal_needs_no_escape(n as nat);
        assert(out@ =~= start + json_string(decimal(n as nat)));
    }
}

proof fn lemma_decimal_needs_no_escape(n: nat)
    ensures
        crate::utils::json::json_escaped(decimal(n)) == decimal(n),
    decreases n,
{
    let d = decimal(n);
    let c = (48 + n % 10) as char;
    assert(c as u32 == 48 + n % 10);
    assert(crate::utils::json::json_escape(c) == seq![c]);
    if n >= 10 {
        lemma_decimal_needs_no_escape(n / 10);
        assert(d == decimal(n / 10) + seq![c]);
        assert(d.drop_last() =~= decimal(n / 10));
        assert(d.last() == c);
        assert(crate::utils::json::json_escaped(d) == crate::utils::json::json_escaped(d.drop_last())
            + crate::utils::json::json_escape(d.last()));
        assert(crate::utils::json::json_escaped(d) =~= d);
    } else {
        assert(d == seq![c]);
        assert(d.drop_last() =~= Seq::<char>::empty());
        assert(crate::utils::json::json_escaped(d.drop_last()) =~= Seq::<char>::empty());
        assert(crate::utils::json::json_escaped(d) == crate::utils::json::json_escaped(d.drop_last())
            + crate::utils::json::json_escape(d.last()));
        assert(crate::utils::json::json_escaped(d) =~= d);
    }
}

/// The body that reads the policy rows from `lower` to `upper`, at most
/// `fetch_limit` of them.
pub fn authentication_entries_request_body(lower: u64, upper: u64, fetch_limit: u8) -> (body:
    String)
    ensures
        body@ == entries_body(lower, upper, fetch_limit),
{
    let mut body = String::new();
    body.append(
        "{\"code\":\"policy.seeds\",\"index_position\":1,\"json\":true,\"key_type\":\"\",\"limit\":",
    );
    push_decimal(&mut body, fetch_limit as u64);
    body.append(",\"lower_bound\":");
    push_decimal_string(&mut body, lower);
    body.append(
        ",\"reverse\":false,\"scope\":\"policy.seeds\",\"show_payer\":false,\"table\":\"devicepolicy\",\"upper_bound\":",
    );
    push_decimal_string(&mut body, upper);
    body.append("}");
    assert(body@ =~= entries_body(lower, upper, fetch_limit));
    body
}

/// The body that reads the user row of `account_name`, whose name must be
/// a valid account name.
pub fn user_data_request_body(account_name: &String) -> (body: String)
    requires
        name_value(encode_utf8(account_name@)) is Ok,
    ensures
        body@ == user_data_body(name_value(encode_utf8(account_name@))->Ok_0),
{
    let value = match name_bytes_to_u64(account_name.as_str().as_bytes()) {
        Ok(v) => v,
        Err(_) => 0,
    };
    let mut body = String::new();
    body.append("{\"code\":\"accts.seeds\",\"json\":true,\"limit\":1,\"lower_bound\":");
    push_decimal(&mut body, value);
    body.append(",\"scope\":\"accts.seeds\",\"table\":\"users\",\"upper_bound\":");
    push_decimal(&mut body, value);
    body.append("}");
    assert(body@ =~= user_data_body(value));
    body
}

} // verus!
