use vstd::prelude::*;
use vstd::arithmetic::power2::pow2;
use vstd::utf8::encode_utf8;
use crate::database::{AuthenticationEntry, authentication_lookup};
use crate::api::reply::{Reply, SUCCESS, answer_body, answer_reply};
use crate::utils::errors::AuthenticatorErrors;
use crate::utils::helpers::{name_bytes_to_u64, name_value};
use crate::utils::clock::utc_now;
use crate::utils::throttling::Timestamp;
use crate::utils::json::{json_string, push_json_string};
use crate::utils::settings::Blockchain;
use crate::utils::signature::{
    Policy, Signature, base64_encode, base64_standard, hash_token, policy_signature, sign, token_hash,
};
use crate::utils::text::{decimal, hex_lower, u64_to_decimal};
use crate::utils::throttling::{
    AccessStatistics, access_identifier, history, permission, recent_count,
};

verus! {

/// How long an issued authentication stays valid: thirty days, in seconds.
pub const VALIDITY_SECONDS: u64 = 2592000;

/// A request for a new authentication, optionally for a named account.
pub struct AuthenticationRequest {
    pub account_name: Option<String>,
}

/// Everything created for a new authentication.
pub struct NewAuthenticationDataSet {
    pub authentication_entry: AuthenticationEntry,
    pub policy: Policy,
    pub token: String,
    pub signature: Signature,
}

/// The answer to a successful request for a new authentication.
pub struct AnswerNew {
    pub id: String,
    pub account_name: String,
    pub token: String,
    pub valid_until: String,
    pub policy: String,
    pub signature: String,
}

/// The 16 bytes of a UUID's 128-bit value, most significant first.
pub open spec fn uuid_bytes(x: u128) -> Seq<u8> {
    Seq::new(16, |i: int| ((x as nat / pow2((8 * (15 - i)) as nat)) % 256) as u8)
}

/// The hyphenated lowercase text of a UUID: 32 hex digits grouped 8-4-4-4-12.
pub open spec fn uuid_text(x: u128) -> Seq<char> {
    let h = hex_lower(uuid_bytes(x));
    h.subrange(0, 8) + seq!['-'] + h.subrange(8, 12) + seq!['-'] + h.subrange(12, 16) + seq!['-']
        + h.subrange(16, 20) + seq!['-'] + h.subrange(20, 32)
}

/// A random version-4 UUID (RFC 9562): its version nibble is 4 and its
/// variant bits are `10`.
pub open spec fn is_v4_uuid(x: u128) -> bool {
    (x / 0x10000000000000000000) % 16 == 4 && (x / 0x4000000000000000) % 4 == 2
}

/// Trusted: `uuid::Uuid::new_v4`, read as its 128-bit value (`as_u128`).
/// The value is random; the source sets the version nibble to 4 and the
/// variant bits to `10` (it masks the random value with
/// `0xFFFFFFFFFFFF4FFFBFFFFFFFFFFFFFFF` and ors in `0x40008000000000000000`).
#[verifier::external_body]
fn new_uuid_v4() -> (id: u128)
    ensures
        is_v4_uuid(id),
{
    uuid::Uuid::new_v4().as_u128()
}

/// Trusted: `uuid::Uuid::from_u128` followed by `to_string` (its `Display`),
/// which writes the hyphenated lowercase form.
#[verifier::external_body]
fn uuid_to_string(id: u128) -> (text: String)
    ensures
        text@ == uuid_text(id),
{
    uuid::Uuid::from_u128(id).to_string()
}

/// The account a request names, or nothing.
pub open spec fn requested_name(account_name: Option<String>) -> Seq<char> {
    match account_name {
        Some(name) => name@,
        None => Seq::empty(),
    }
}

/// The JSON text of a policy, its fields in declaration order.
pub open spec fn policy_json_text(valid_until: Seq<char>, account_name: Seq<char>, id: Seq<char>) -> Seq<
    char,
> {
    "{\"valid_until\":"@ + json_string(valid_until) + ",\"account_name\":"@ + json_string(
        account_name,
    ) + ",\"id\":"@ + json_string(id) + "}"@
}

/// The JSON text of `policy`.
pub fn policy_json(policy: &Policy) -> (text: String)
    ensures
        text@ == policy_json_text(policy.valid_until@, policy.account_name@, policy.id@),
{
    let mut text = String::new();
    text.append("{\"valid_until\":");
    push_json_string(&mut text, policy.valid_until.as_str());
    text.append(",\"account_name\":");
    push_json_string(&mut text, policy.account_name.as_str());
    text.append(",\"id\":");
    push_json_string(&mut text, policy.id.as_str());
    text.append("}");
    proof {
        assert(text@ =~= policy_json_text(policy.valid_until@, policy.account_name@, policy.id@));
    }
    text
}

/// The policy text (base64 of the JSON of the policy) of an authentication
/// for `account`, with entry `id`, valid until `valid_until`.
pub open spec fn policy_base64_text(account: Seq<char>, id: u128, valid_until: nat) -> Seq<char> {
    base64_standard(encode_utf8(policy_json_text(decimal(valid_until), account, uuid_text(id))))
}

/// The JSON of the policy is short enough to be base64-encoded.
pub open spec fn policy_fits(account: Seq<char>, id: u128, valid_until: nat) -> bool {
    encode_utf8(policy_json_text(decimal(valid_until), account, uuid_text(id))).len() <= usize::MAX
        / 4 * 3
}

/// `d` is the data set issued for `account` at `now` (seconds since the
/// epoch) with entry id `id`, signing secret `secret` and token `token_id`.
pub open spec fn issued(
    d: NewAuthenticationDataSet,
    account: Seq<char>,
    id: u128,
    secret: u128,
    token_id: u128,
    now: u64,
) -> bool {
    let valid_until = now + VALIDITY_SECONDS;
    let policy_base64 = policy_base64_text(account, id, valid_until as nat);
    &&& d.policy.valid_until@ == decimal(valid_until as nat)
    &&& d.policy.account_name@ == account
    &&& d.policy.id@ == uuid_text(id)
    &&& d.token@ == uuid_text(token_id)
    &&& d.signature.base64_policy@ == policy_base64
    &&& d.signature.signature@ == policy_signature(policy_base64, uuid_text(secret), d.token@)
    &&& d.authentication_entry.id == id
    &&& d.authentication_entry.account_name@ == account
    &&& d.authentication_entry.secret == secret
    &&& d.authentication_entry.policy_base64@ == policy_base64
    &&& d.authentication_entry.valid_until == valid_until
    &&& d.authentication_entry.blockchain_index is None
    &&& d.authentication_entry.token_hash@ == token_hash(d.token@)
}

/// Creates the data of a new authentication for `account_name` at `now`
/// from the given entry id, secret and token UUIDs: the policy (valid for
/// thirty days), its base64 JSON text signed under the secret and token, and
/// the entry to store, which keeps the token only as its hash.
pub fn generate_data_from(
    account_name: &Option<String>,
    id: u128,
    secret: u128,
    token_id: u128,
    now: u64,
) -> (d: NewAuthenticationDataSet)
    requires
        now + VALIDITY_SECONDS <= u64::MAX,
        policy_fits(requested_name(*account_name), id, (now + VALIDITY_SECONDS) as nat),
    ensures
        issued(d, requested_name(*account_name), id, secret, token_id, now),
{
    let valid_until: u64 = now + VALIDITY_SECONDS;
    let name = match account_name {
        Some(s) => s.clone(),
        None => String::new(),
    };
    let policy = Policy {
        valid_until: u64_to_decimal(valid_until),
        account_name: name,
        id: uuid_to_string(id),
    };
    let token = uuid_to_string(token_id);
    let json = policy_json(&policy);
    let b64_policy = base64_encode(json.as_str().as_bytes());
    let signature = sign(&b64_policy, &uuid_to_string(secret), &token);
    let token_hash = hash_token(&token);
    let new_authentication_entry = AuthenticationEntry {
        id,
        account_name: policy.account_name.clone(),
        secret,
        valid_until,
        policy_base64: signature.base64_policy.clone(),
        blockchain_index: None,
        token_hash,
    };
    NewAuthenticationDataSet {
        authentication_entry: new_authentication_entry,
        policy,
        token,
        signature,
    }
}

/// A clock reading of `clock` leaves room to issue an authentication for
/// `account` with entry id `id`: it is not before the epoch, the expiry fits
/// in 64 bits, and the policy text is short enough to encode.
pub open spec fn can_issue(account: Seq<char>, id: u128, clock: Timestamp) -> bool {
    &&& 0 <= clock.secs
    &&& clock.secs <= u64::MAX - VALIDITY_SECONDS
    &&& policy_fits(account, id, (clock.secs + VALIDITY_SECONDS) as nat)
}

/// Creates the data of a new authentication for `account_name` at the clock
/// reading `clock`, from the given entry id, secret and token UUIDs; `None`
/// exactly when the reading leaves no room for it (see `can_issue`).
pub fn generate_data_at(
    account_name: &Option<String>,
    id: u128,
    secret: u128,
    token_id: u128,
    clock: Timestamp,
) -> (r: Option<NewAuthenticationDataSet>)
    ensures
        r is Some <==> can_issue(requested_name(*account_name), id, clock),
        r matches Some(d) ==> issued(
            d,
            requested_name(*account_name),
            id,
            secret,
            token_id,
            clock.secs as u64,
        ),
{
    if clock.secs < 0 || clock.secs as u64 > u64::MAX - VALIDITY_SECONDS {
        return None;
    }
    let now = clock.secs as u64;
    let name = match account_name {
        Some(s) => s.clone(),
        None => String::new(),
    };
    let probe = Policy {
        valid_until: u64_to_decimal(now + VALIDITY_SECONDS),
        account_name: name,
        id: uuid_to_string(id),
    };
    if policy_json(&probe).as_str().as_bytes().len() > usize::MAX / 4 * 3 {
        return None;
    }
    Some(generate_data_from(account_name, id, secret, token_id, now))
}

/// Creates the data of a new authentication for `account_name`, with fresh
/// random UUIDs for the entry id, the secret and the token, valid for thirty
/// days from the current time: the result of `generate_data_at` for the
/// drawn UUIDs and the clock reading.
pub fn generate_data(account_name: &Option<String>) -> (r: Option<NewAuthenticationDataSet>)
    ensures
        exists|id: u128, secret: u128, token_id: u128, clock: Timestamp|
            #![trigger can_issue(requested_name(*account_name), id, clock), is_v4_uuid(secret), is_v4_uuid(token_id)]
            {
                &&& is_v4_uuid(id) && is_v4_uuid(secret) && is_v4_uuid(token_id)
                &&& (r is Some <==> can_issue(requested_name(*account_name), id, clock))
                &&& (r matches Some(d) ==> issued(
                    d,
                    requested_name(*account_name),
                    id,
                    secret,
                    token_id,
                    clock.secs as u64,
                ))
            },
{
    let id = new_uuid_v4();
    let secret = new_uuid_v4();
    let clock = utc_now();
    let token_id = new_uuid_v4();
    let r = generate_data_at(account_name, id, secret, token_id, clock);
    assert(can_issue(requested_name(*account_name), id, clock) == (r is Some));
    assert(is_v4_uuid(secret) && is_v4_uuid(token_id));
    r
}

/// The next thing to do with a request for a new authentication.
pub enum NewRequestStep {
    /// Answer with this error.
    Refuse(AuthenticatorErrors),
    /// Ask the blockchain whether this account exists, then continue with
    /// `after_account_lookup`.
    LookUpAccount(String),
    /// Create the authentication (`generate_data`), then store its entry
    /// and answer as `issue` says.
    Issue,
}

/// A name too long to be an account name: more than 12 bytes, and without a
/// value as an account name (more than 13 characters, or a 13th that does
/// not fit in 4 bits, or a character outside the alphabet).
pub open spec fn overlong_name(name: Seq<char>) -> bool {
    encode_utf8(name).len() > 12 && name_value(encode_utf8(name)) is Err
}

/// The first decision on a request: refuse it when throttled, refuse a
/// named account whose name is too long to be an account name, else look
/// the named account up (a shorter name with characters outside the
/// alphabet is looked up like any other), or issue right away when none is
/// named.
pub open spec fn admission(allowed: bool, account_name: Option<String>) -> NewRequestStep {
    if !allowed {
        NewRequestStep::Refuse(AuthenticatorErrors::TooManyUserAccesses)
    } else {
        match account_name {
            Some(name) => if overlong_name(name@) {
                NewRequestStep::Refuse(AuthenticatorErrors::InvalidAccountName)
            } else {
                NewRequestStep::LookUpAccount(name)
            },
            None => NewRequestStep::Issue,
        }
    }
}

/// The throttle is asked first and alone decides the refusal for too many
/// requests: a request over the limit is refused with
/// `TooManyUserAccesses` whatever account it names (or none), and one within
/// the limit is never refused for that reason.
pub proof fn lemma_throttle_decides_first(allowed: bool, account_name: Option<String>)
    ensures
        !allowed ==> admission(allowed, account_name) == NewRequestStep::Refuse(
            AuthenticatorErrors::TooManyUserAccesses,
        ),
        allowed ==> admission(allowed, account_name) != NewRequestStep::Refuse(
            AuthenticatorErrors::TooManyUserAccesses,
        ),
{
}

/// Records the request (made from `ip`) with the throttle and decides what
/// to do first. The account counted is the one the request names, or the
/// empty name.
pub fn new_request(
    stats: &mut AccessStatistics,
    request: &AuthenticationRequest,
    ip: &String,
    limits: &Blockchain,
) -> (step: NewRequestStep)
    requires
        old(stats).wf(),
    ensures
        final(stats).wf(),
        ({
            let id = access_identifier(requested_name(request.account_name), ip@);
            let h = final(stats)@[id];
            &&& final(stats)@.dom() == old(stats)@.dom().insert(id)
            &&& h.len() > 0
            &&& h.drop_last() == history(old(stats)@, id)
            &&& h.last().account_name@ == requested_name(request.account_name)
            &&& h.last().ip_address@ == ip@
            &&& step == admission(
                recent_count(
                    h,
                    requested_name(request.account_name),
                    ip@,
                    h.last().timestamp,
                    limits.request_time_limit as int,
                ) <= limits.request_amount_limit,
                request.account_name,
            )
            &&& (recent_count(
                h,
                requested_name(request.account_name),
                ip@,
                h.last().timestamp,
                limits.request_time_limit as int,
            ) > limits.request_amount_limit <==> step == NewRequestStep::Refuse(
                AuthenticatorErrors::TooManyUserAccesses,
            ))
        }),
{
    let account_name = match &request.account_name {
        Some(s) => s.clone(),
        None => String::new(),
    };
    let is_allowed = permission(stats, &account_name, ip, limits);
    proof {
        lemma_throttle_decides_first(is_allowed, request.account_name);
        let id = access_identifier(requested_name(request.account_name), ip@);
        assert(final(stats)@.dom() =~= old(stats)@.dom().insert(id));
        assert(final(stats)@[id].drop_last() =~= history(old(stats)@, id));
    }
    if !is_allowed {
        NewRequestStep::Refuse(AuthenticatorErrors::TooManyUserAccesses)
    } else {
        match &request.account_name {
            Some(name) => {
                let bytes = name.as_str().as_bytes();
                if bytes.len() > 12 && name_bytes_to_u64(bytes).is_err() {
                    NewRequestStep::Refuse(AuthenticatorErrors::InvalidAccountName)
                } else {
                    NewRequestStep::LookUpAccount(name.clone())
                }
            },
            None => NewRequestStep::Issue,
        }
    }
}

/// The decision once the blockchain has said whether the named account
/// exists.
pub fn after_account_lookup(account_found: bool) -> (step: NewRequestStep)
    ensures
        step == if account_found {
            NewRequestStep::Issue
        } else {
            NewRequestStep::Refuse(AuthenticatorErrors::AccountNotFound)
        },
{
    if account_found {
        NewRequestStep::Issue
    } else {
        NewRequestStep::Refuse(AuthenticatorErrors::AccountNotFound)
    }
}

/// The answer to the client: the entry id, the account (or the empty name),
/// the token, the expiry, the policy text and its signature.
pub fn answer_new(data: &NewAuthenticationDataSet, request: &AuthenticationRequest) -> (a: AnswerNew)
    ensures
        a.id@ == data.policy.id@,
        a.account_name@ == requested_name(request.account_name),
        a.token@ == data.token@,
        a.valid_until@ == data.policy.valid_until@,
        a.policy@ == data.signature.base64_policy@,
        a.signature@ == data.signature.signature@,
{
    let account_name = match &request.account_name {
        Some(s) => s.clone(),
        None => String::new(),
    };
    AnswerNew {
        id: data.policy.id.clone(),
        account_name,
        token: data.token.clone(),
        valid_until: data.policy.valid_until.clone(),
        policy: data.signature.base64_policy.clone(),
        signature: data.signature.signature.clone(),
    }
}

/// What issuing a new authentication does: store `entry` under `key` among
/// the entries awaiting confirmation, and send `reply`.
pub struct Issuance {
    pub key: String,
    pub entry: AuthenticationEntry,
    pub reply: Reply,
}

/// Issues the authentication created in `data` for `request`: its entry is
/// stored under the policy's id (the text of the entry's id), and the answer
/// (`answer_new`) is sent with status 200.
pub fn issue(data: NewAuthenticationDataSet, request: &AuthenticationRequest) -> (i: Issuance)
    ensures
        i.key@ == data.policy.id@,
        i.entry == data.authentication_entry,
        i.reply.status == SUCCESS,
        i.reply.body@ == answer_body(
            data.policy.id@,
            requested_name(request.account_name),
            data.token@,
            data.policy.valid_until@,
            data.signature.base64_policy@,
            data.signature.signature@,
        ),
{
    let answer = answer_new(&data, request);
    let reply = answer_reply(&answer);
    Issuance { key: data.policy.id, entry: data.authentication_entry, reply }
}

/// The key an issued entry is stored under is the text of its own id.
pub proof fn lemma_issued_key_names_entry(
    d: NewAuthenticationDataSet,
    account: Seq<char>,
    id: u128,
    secret: u128,
    token_id: u128,
    now: u64,
)
    requires
        issued(d, account, id, secret, token_id, now),
    ensures
        d.policy.id@ == uuid_text(d.authentication_entry.id),
{
}

/// An issued token opens its own entry: presenting the token handed out with
/// a new authentication for the entry stored with it succeeds and yields
/// that entry.
pub proof fn lemma_issued_token_accepted(
    d: NewAuthenticationDataSet,
    account: Seq<char>,
    id: u128,
    secret: u128,
    token_id: u128,
    now: u64,
)
    requires
        issued(d, account, id, secret, token_id, now),
    ensures
        authentication_lookup(Some(d.authentication_entry), d.token@) == Ok::<
            AuthenticationEntry,
            AuthenticatorErrors,
        >(d.authentication_entry),
{
}

/// The stored entry and the token suffice to check a signature: signing the
/// entry's policy text with the entry's secret and the issued token gives
/// the signature handed out.
pub proof fn lemma_signature_recomputable(
    d: NewAuthenticationDataSet,
    account: Seq<char>,
    id: u128,
    secret: u128,
    token_id: u128,
    now: u64,
)
    requires
        issued(d, account, id, secret, token_id, now),
    ensures
        d.signature.signature@ == policy_signature(
            d.authentication_entry.policy_base64@,
            uuid_text(d.authentication_entry.secret),
            d.token@,
        ),
        d.signature.base64_policy@ == d.authentication_entry.policy_base64@,
{
}

} // verus!
