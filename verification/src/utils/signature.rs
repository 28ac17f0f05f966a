use vstd::prelude::*;
use vstd::utf8::encode_utf8;
use hmac::{Hmac, Mac, NewMac};
use sha2::{Digest, Sha256};
use crate::utils::text::{hex_lower, to_hex_lower};

verus! {

/// What a signed policy grants: the account, the entry id and the instant
/// (seconds since the epoch, in decimal) until which it is valid.
pub struct Policy {
    pub valid_until: String,
    pub account_name: String,
    pub id: String,
}

/// A policy text together with its signature.
pub struct Signature {
    pub base64_policy: String,
    pub signature: String,
}

/// The SHA-256 digest of `data`, as computed by the `sha2` crate.
pub uninterp spec fn sha256_digest(data: Seq<u8>) -> Seq<u8>;

/// The HMAC-SHA256 tag of `message` under `key`, as computed by the `hmac`
/// crate over `sha2`.
pub uninterp spec fn hmac_sha256_tag(key: Seq<u8>, message: Seq<u8>) -> Seq<u8>;


/// Trusted: `sha2::Sha256` (`new`, `update`, `finalize`). The result is the
/// digest of `data`, named `sha256_digest`; SHA-256 digests are 32 bytes
/// (the output size of `Sha256`).
#[verifier::external_body]
fn sha256(data: &[u8]) -> (digest: Vec<u8>)
    ensures
        digest@ == sha256_digest(data@),
        digest@.len() == 32,
{
    let mut hasher = Sha256::new();
    hasher.update(data);
    hasher.finalize().to_vec()
}

/// Trusted: `hmac::Hmac::<Sha256>` (`new_from_slice`, `update`, `finalize`,
/// `into_bytes`). `new_from_slice` accepts keys of every length (longer keys
/// are hashed first), so it never fails. The result is the tag named
/// `hmac_sha256_tag`, 32 bytes long.
#[verifier::external_body]
fn hmac_sha256(key: &[u8], message: &[u8]) -> (tag: Vec<u8>)
    ensures
        tag@ == hmac_sha256_tag(key@, message@),
        tag@.len() == 32,
{
    let mut mac = Hmac::<Sha256>::new_from_slice(key).unwrap();
    mac.update(message);
    mac.finalize().into_bytes().to_vec()
}

/// The character of the standard base64 alphabet for the 6-bit value `v`:
/// `A`-`Z` for 0-25, `a`-`z` for 26-51, `0`-`9` for 52-61, `+` for 62 and
/// `/` for 63.
pub open spec fn base64_digit(v: int) -> char {
    if v < 26 {
        ('A' as int + v) as char
    } else if v < 52 {
        ('a' as int + (v - 26)) as char
    } else if v < 62 {
        ('0' as int + (v - 52)) as char
    } else if v == 62 {
        '+'
    } else {
        '/'
    }
}

/// The standard padded base64 text of `data` (RFC 4648, section 4): each
/// group of 3 bytes, read as 24 bits, gives 4 characters of 6 bits each; a
/// last group of 1 or 2 bytes is filled out with zero bits, and each
/// character it lacks is written `=`.
pub open spec fn base64_standard(data: Seq<u8>) -> Seq<char>
    decreases data.len(),
{
    if data.len() == 0 {
        Seq::empty()
    } else if data.len() == 1 {
        seq![base64_digit((data[0] as int) / 4), base64_digit(((data[0] as int) % 4) * 16), '=', '=']
    } else if data.len() == 2 {
        seq![
            base64_digit((data[0] as int) / 4),
            base64_digit(((data[0] as int) % 4) * 16 + (data[1] as int) / 16),
            base64_digit(((data[1] as int) % 16) * 4),
            '=',
        ]
    } else {
        seq![
            base64_digit((data[0] as int) / 4),
            base64_digit(((data[0] as int) % 4) * 16 + (data[1] as int) / 16),
            base64_digit(((data[1] as int) % 16) * 4 + (data[2] as int) / 64),
            base64_digit((data[2] as int) % 64),
        ] + base64_standard(data.subrange(3, data.len() as int))
    }
}

/// A character of the standard base64 alphabet (`A`-`Z`, `a`-`z`, `0`-`9`,
/// `+`, `/`).
pub open spec fn is_base64_char(c: char) -> bool {
    ('A' <= c <= 'Z') || ('a' <= c <= 'z') || ('0' <= c <= '9') || c == '+' || c == '/'
}

/// How many `=` end the padded base64 text of `n` bytes.
pub open spec fn base64_padding(n: nat) -> nat {
    ((3 - n % 3) % 3) as nat
}

/// Every 6-bit value has a character of the alphabet.
pub proof fn lemma_base64_digit(v: int)
    requires
        0 <= v < 64,
    ensures
        is_base64_char(base64_digit(v)),
{
}

/// The base64 text of `n` bytes has 4 characters per started group of 3
/// bytes: characters of the alphabet, then one `=` for each byte missing from
/// the last group.
pub proof fn lemma_base64_shape(data: Seq<u8>)
    ensures
        base64_standard(data).len() == (data.len() + 2) / 3 * 4,
        forall|i: int|
            0 <= i < base64_standard(data).len() - base64_padding(data.len()) ==> is_base64_char(
                #[trigger] base64_standard(data)[i],
            ),
        forall|i: int|
            base64_standard(data).len() - base64_padding(data.len()) <= i < base64_standard(
                data,
            ).len() ==> #[trigger] base64_standard(data)[i] == '=',
    decreases data.len(),
{
    let t = base64_standard(data);
    if data.len() == 1 {
        lemma_base64_digit((data[0] as int) / 4);
        lemma_base64_digit(((data[0] as int) % 4) * 16);
    } else if data.len() == 2 {
        lemma_base64_digit((data[0] as int) / 4);
        lemma_base64_digit(((data[0] as int) % 4) * 16 + (data[1] as int) / 16);
        lemma_base64_digit(((data[1] as int) % 16) * 4);
    } else if data.len() >= 3 {
        let rest = data.subrange(3, data.len() as int);
        lemma_base64_shape(rest);
        lemma_base64_digit((data[0] as int) / 4);
        lemma_base64_digit(((data[0] as int) % 4) * 16 + (data[1] as int) / 16);
        lemma_base64_digit(((data[1] as int) % 16) * 4 + (data[2] as int) / 64);
        lemma_base64_digit((data[2] as int) % 64);
        let r = base64_standard(rest);
        assert(base64_padding(data.len()) == base64_padding(rest.len()));
        assert forall|i: int| 0 <= i < t.len() - base64_padding(data.len()) implies is_base64_char(
            #[trigger] t[i],
        ) by {
            if i >= 4 {
                assert(t[i] == r[i - 4]);
            }
        }
        assert forall|i: int| t.len() - base64_padding(data.len()) <= i < t.len() implies #[trigger] t[i]
            == '=' by {
            assert(t[i] == r[i - 4]);
        }
    }
}

/// Trusted: `base64::encode`, which writes the standard alphabet with
/// padding (`STANDARD`): the result is the base64 text of `data`. It panics
/// when the encoded length overflows `usize`, which the bound on the input
/// length rules out.
#[verifier::external_body]
pub(crate) fn base64_encode(data: &[u8]) -> (text: String)
    requires
        data@.len() <= usize::MAX / 4 * 3,
    ensures
        text@ == base64_standard(data@),
{
    base64::encode(data)
}

/// The key under which a policy is signed: the secret, `|`, the token.
pub open spec fn signing_key(secret: Seq<char>, token: Seq<char>) -> Seq<char> {
    secret + seq!['|'] + token
}

/// The signature text of `policy`: base64 of its HMAC-SHA256 tag under the
/// signing key of `secret` and `token` (all taken as UTF-8 bytes).
pub open spec fn policy_signature(policy: Seq<char>, secret: Seq<char>, token: Seq<char>) -> Seq<
    char,
> {
    base64_standard(hmac_sha256_tag(encode_utf8(signing_key(secret, token)), encode_utf8(policy)))
}

/// The stored form of a token: the lowercase hex of the SHA-256 digest of
/// its UTF-8 bytes.
pub open spec fn token_hash(token: Seq<char>) -> Seq<char> {
    hex_lower(sha256_digest(encode_utf8(token)))
}

/// Signs `policy` with HMAC-SHA256 under the key `secret|token`.
pub fn sign(policy: &String, secret: &String, token: &String) -> (s: Signature)
    ensures
        s.base64_policy@ == policy@,
        s.signature@ == policy_signature(policy@, secret@, token@),
        s.signature@.len() == 44,
        forall|i: int| 0 <= i < 43 ==> is_base64_char(#[trigger] s.signature@[i]),
        s.signature@[43] == '=',
{
    let mut key = String::new();
    key.append(secret.as_str());
    key.append("|");
    key.append(token.as_str());
    proof {
        reveal_strlit("|");
        assert(key@ =~= signing_key(secret@, token@));
    }
    let tag = hmac_sha256(key.as_str().as_bytes(), policy.as_str().as_bytes());
    let signature = base64_encode(tag.as_slice());
    proof {
        lemma_base64_shape(tag@);
    }
    Signature { base64_policy: policy.clone(), signature }
}

/// The lowercase hex SHA-256 digest of `token`, the form in which tokens are
/// stored.
pub fn hash_token(token: &String) -> (hash: String)
    ensures
        hash@ == token_hash(token@),
        hash@.len() == 64,
{
    let digest = sha256(token.as_str().as_bytes());
    to_hex_lower(&digest)
}

} // verus!
