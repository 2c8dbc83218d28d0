//! What the core states about authentication: the claims a login issues
//! and the principal a verified credential certifies. Encoding and
//! checking the bearer token itself is the token collaborator's work at
//! the edge; the core only fixes the shapes.

use vstd::prelude::*;
use crate::models::{AuthenticatedUser, Claims, User};

verus! {

/// How long an issued credential stays valid, in seconds.
pub const TOKEN_LIFETIME_SECS: usize = 3600 * 24;

/// The claims issued for a logged-in user at `now_secs` (seconds since
/// the Unix epoch): subject and username are the user's unique
/// username, and the expiry lies one lifetime ahead.
pub fn claims_for(user: &User, now_secs: usize) -> (r: Claims)
    requires
        now_secs + TOKEN_LIFETIME_SECS <= usize::MAX,
    ensures
        r@.sub == user@.username,
        r@.username == user@.username,
        r@.user_id == user@.id,
        r@.exp == now_secs + TOKEN_LIFETIME_SECS,
{
    Claims {
        sub: user.username.clone(),
        user_id: user.id,
        username: user.username.clone(),
        exp: now_secs + TOKEN_LIFETIME_SECS,
    }
}

/// The authenticated principal certified by verified claims.
pub fn authenticated_from_claims(claims: &Claims) -> (r: AuthenticatedUser)
    ensures
        r@.user_id == claims@.user_id,
        r@.username == claims@.username,
{
    AuthenticatedUser { user_id: claims.user_id, username: claims.username.clone() }
}

} // verus!
