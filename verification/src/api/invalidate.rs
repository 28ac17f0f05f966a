use vstd::prelude::*;
use crate::api::reply::{Reply, ACCEPTED, accepted_reply, error_body, error_reply, ok_body};
use crate::database::{AuthenticationEntry, get_authentication_entry};
use crate::utils::errors::{AuthenticatorErrors, error_status};
use crate::utils::signature::token_hash;

verus! {

/// A request to withdraw an authentication, proven by its token.
pub struct InvalidateRequest {
    pub token: String,
}

/// The answer to an invalidation and whether to remove the confirmed entry.
pub struct InvalidateOutcome {
    pub reply: Reply,
    pub remove_entry: bool,
}

/// Decides a request to invalidate the entry that the database holds under
/// the requested id (`found`): it is removed, and the request accepted,
/// exactly when the request carries that entry's token.
pub fn invalidate(found: Option<AuthenticationEntry>, request: &InvalidateRequest) -> (o:
    InvalidateOutcome)
    ensures
        o.remove_entry == (found matches Some(e) && e.token_hash@ == token_hash(request.token@)),
        o.remove_entry ==> o.reply.status == ACCEPTED && o.reply.body@ == ok_body(),
        !o.remove_entry ==> {
            let e = if found is None {
                AuthenticatorErrors::InvalidId
            } else {
                AuthenticatorErrors::InvalidToken
            };
            o.reply.status == error_status(e) && o.reply.body@ == error_body(e)
        },
{
    match get_authentication_entry(found, &request.token) {
        Ok(_) => InvalidateOutcome { reply: accepted_reply(), remove_entry: true },
        Err(error) => InvalidateOutcome { reply: error_reply(error), remove_entry: false },
    }
}

} // verus!
