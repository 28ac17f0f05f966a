use vstd::prelude::*;

verus! {

/// Every way in which a request to the authenticator can be refused.
#[derive(Debug, Clone, Copy, PartialEq, Eq, Structural)]
pub enum AuthenticatorErrors {
    AccountNotFound,
    InvalidId,
    InvalidToken,
    BlockchainError,
    NotStoredBlockchain,
    MismatchedPolicies,
    ExpiredPolicy,
    InvalidSignature,
    TooManyUserAccesses,
    InvalidAccountName,
}

/// Body of an error answer.
pub struct MyErrorResponse {
    pub error_message: String,
}

/// The HTTP status code that answers a request refused with `e`.
pub open spec fn error_status(e: AuthenticatorErrors) -> u16 {
    match e {
        AuthenticatorErrors::AccountNotFound => 404,
        AuthenticatorErrors::InvalidId => 404,
        AuthenticatorErrors::InvalidToken => 403,
        AuthenticatorErrors::BlockchainError => 503,
        AuthenticatorErrors::NotStoredBlockchain => 404,
        AuthenticatorErrors::MismatchedPolicies => 403,
        AuthenticatorErrors::ExpiredPolicy => 403,
        AuthenticatorErrors::InvalidSignature => 403,
        AuthenticatorErrors::TooManyUserAccesses => 429,
        AuthenticatorErrors::InvalidAccountName => 403,
    }
}

/// The human-readable message that explains `e`.
pub open spec fn error_message(e: AuthenticatorErrors) -> Seq<char> {
    match e {
        AuthenticatorErrors::AccountNotFound => "Account not found."@,
        AuthenticatorErrors::InvalidId => "Invalid id."@,
        AuthenticatorErrors::InvalidToken => "Invalid token."@,
        AuthenticatorErrors::BlockchainError => "Error accessing the blockchain."@,
        AuthenticatorErrors::NotStoredBlockchain => "Authentication entry not found on blockchain."@,
        AuthenticatorErrors::MismatchedPolicies =>
            "The policy stored on the blockchain doesn't match the policy stored on the authenticator."@,
        AuthenticatorErrors::ExpiredPolicy => "The policy expired."@,
        AuthenticatorErrors::InvalidSignature => "The signatures didn't match."@,
        AuthenticatorErrors::TooManyUserAccesses => "Too many requests. Try again soon."@,
        AuthenticatorErrors::InvalidAccountName => "Your account name is invalid."@,
    }
}

impl AuthenticatorErrors {
    /// The HTTP status code of the answer (the code that the web framework's
    /// status value carries).
    pub fn status_code(&self) -> (code: u16)
        ensures
            code == error_status(*self),
    {
        match self {
            AuthenticatorErrors::AccountNotFound => 404,
            AuthenticatorErrors::InvalidId => 404,
            AuthenticatorErrors::InvalidToken => 403,
            AuthenticatorErrors::BlockchainError => 503,
            AuthenticatorErrors::NotStoredBlockchain => 404,
            AuthenticatorErrors::MismatchedPolicies => 403,
            AuthenticatorErrors::ExpiredPolicy => 403,
            AuthenticatorErrors::InvalidSignature => 403,
            AuthenticatorErrors::TooManyUserAccesses => 429,
            AuthenticatorErrors::InvalidAccountName => 403,
        }
    }

    /// The message sent to the client.
    pub fn get_error(&self) -> (message: String)
        ensures
            message@ == error_message(*self),
    {
        match self {
            AuthenticatorErrors::AccountNotFound => String::from_str("Account not found."),
            AuthenticatorErrors::InvalidId => String::from_str("Invalid id."),
            AuthenticatorErrors::InvalidToken => String::from_str("Invalid token."),
            AuthenticatorErrors::BlockchainError => String::from_str(
                "Error accessing the blockchain.",
            ),
            AuthenticatorErrors::NotStoredBlockchain => String::from_str(
                "Authentication entry not found on blockchain.",
            ),
            AuthenticatorErrors::MismatchedPolicies => String::from_str(
                "The policy stored on the blockchain doesn't match the policy stored on the authenticator.",
            ),
            AuthenticatorErrors::ExpiredPolicy => String::from_str("The policy expired."),
            AuthenticatorErrors::InvalidSignature => String::from_str(
                "The signatures didn't match.",
            ),
            AuthenticatorErrors::TooManyUserAccesses => String::from_str(
                "Too many requests. Try again soon.",
            ),
            AuthenticatorErrors::InvalidAccountName => String::from_str(
                "Your account name is invalid.",
            ),
        }
    }
}

/// Every refusal is answered with a client or server error status (4xx or
/// 5xx), and no two refusals share their message.
pub proof fn lemma_errors_are_distinguishable(e1: AuthenticatorErrors, e2: AuthenticatorErrors)
    ensures
        400 <= error_status(e1) < 600,
        e1 != e2 ==> error_message(e1) != error_message(e2),
{
    reveal_strlit("Account not found.");
    reveal_strlit("Invalid id.");
    reveal_strlit("Invalid token.");
    reveal_strlit("Error accessing the blockchain.");
    reveal_strlit("Authentication entry not found on blockchain.");
    reveal_strlit(
        "The policy stored on the blockchain doesn't match the policy stored on the authenticator.",
    );
    reveal_strlit("The policy expired.");
    reveal_strlit("The signatures didn't match.");
    reveal_strlit("Too many requests. Try again soon.");
    reveal_strlit("Your account name is invalid.");
    if e1 != e2 {
        let m1 = error_message(e1);
        let m2 = error_message(e2);
        if m1.len() == m2.len() {
            assert(m1[0] != m2[0] || m1[1] != m2[1] || m1[2] != m2[2] || m1[4] != m2[4]);
        }
    }
}

} // verus!
