//! The request guard: turns a bearer token, the ban registry and a required
//! role into a capability value or a typed refusal, in a fixed order that
//! stops at the first failure.
use vstd::prelude::*;
use crate::banned::BanTable;
use crate::banned::BannedSet;
use crate::error::WeekendAtJoesError;
use crate::identifiers::UserUuid;
use crate::roles::RoleSet;
use crate::roles::UserRole;
use crate::secret::Secret;
use crate::token::TokenClaims;
use crate::token::current_unix_time;
use crate::token::decode_at;
use crate::token::spec_decode;

verus! {

/// Proof, handed to a route handler, that authorization succeeded: the
/// verified subject and the roles its token carried. Handlers never
/// re-derive authorization from this.
#[derive(Debug, Clone, Copy, PartialEq, Eq, Structural)]
pub struct Capability {
    pub subject: UserUuid,
    pub roles: RoleSet,
}

/// The token bytes a request carries, if it carries any.
pub open spec fn spec_token_of(token: Option<&str>) -> Option<Seq<u8>> {
    match token {
        None => None,
        Some(t) => Some(vstd::utf8::encode_utf8(t@)),
    }
}

/// Everything the guard decides, in order: no token is `MissingToken`; a
/// token the codec refuses propagates the codec's error; a banned subject is
/// `NotAuthorized` for being banned; a missing required role is
/// `NotAuthorized` for insufficient role; otherwise the capability.
pub open spec fn spec_authorize(
    key: Seq<u8>,
    token: Option<Seq<u8>>,
    banned: Set<UserUuid>,
    required: Option<UserRole>,
    now: u64,
) -> Result<Capability, WeekendAtJoesError> {
    match token {
        None => Err(WeekendAtJoesError::MissingToken),
        Some(t) => match spec_decode(key, t, now) {
            Err(e) => Err(e),
            Ok(c) => if banned.contains(c.subject) {
                Err(WeekendAtJoesError::NotAuthorized { reason: "banned" })
            } else if match required {
                Some(r) => !c.roles@.contains(r),
                None => false,
            } {
                Err(WeekendAtJoesError::NotAuthorized { reason: "insufficient role" })
            } else {
                Ok(Capability { subject: c.subject, roles: c.roles })
            },
        },
    }
}

/// Evaluates the guard against one fixed snapshot of the ban table, at time
/// `now`, exactly as `spec_authorize` says.
pub fn authorize_with_table(
    secret: &Secret,
    token: Option<&str>,
    table: &BanTable,
    required: Option<UserRole>,
    now: u64,
) -> (r: Result<Capability, WeekendAtJoesError>)
    ensures
        r == spec_authorize(secret@, spec_token_of(token), table@, required, now),
{
    let t = match token {
        None => {
            return Err(WeekendAtJoesError::MissingToken);
        },
        Some(t) => t,
    };
    let claims = match decode_at(secret, t, now) {
        Err(e) => {
            return Err(e);
        },
        Ok(c) => c,
    };
    if table.is_banned(&claims.subject) {
        return Err(WeekendAtJoesError::NotAuthorized { reason: "banned" });
    }
    if let Some(r) = required {
        if !claims.roles.contains(r) {
            return Err(WeekendAtJoesError::NotAuthorized { reason: "insufficient role" });
        }
    }
    Ok(Capability { subject: claims.subject, roles: claims.roles })
}

/// Evaluates the guard against the shared registry as of the current clock
/// reading: the result is `spec_authorize` for the banned set as it stood
/// when the read lock was granted.
pub fn authorize(
    secret: &Secret,
    token: Option<&str>,
    banned: &BannedSet,
    required: Option<UserRole>,
) -> (r: Result<Capability, WeekendAtJoesError>)
    ensures
        exists|b: Set<UserUuid>, now: u64|
            r == spec_authorize(secret@, spec_token_of(token), b, required, now),
{
    let now = current_unix_time();
    let handle = banned.lock.acquire_read();
    let r = authorize_with_table(secret, token, handle.borrow(), required, now);
    handle.release_read();
    r
}

/// Ban precedence: once a subject is in the banned set, the guard refuses
/// every structurally valid, unexpired token of that subject as
/// `NotAuthorized`, even though the codec alone would accept it.
pub proof fn lemma_ban_precedence(
    key: Seq<u8>,
    t: Seq<u8>,
    banned: Set<UserUuid>,
    required: Option<UserRole>,
    now: u64,
    c: TokenClaims,
)
    requires
        spec_decode(key, t, now) == Ok::<TokenClaims, WeekendAtJoesError>(c),
        banned.contains(c.subject),
    ensures
        spec_authorize(key, Some(t), banned, required, now) == Err::<
            Capability,
            WeekendAtJoesError,
        >(WeekendAtJoesError::NotAuthorized { reason: "banned" }),
{
}

/// Unban reversal: after the subject is removed from the banned set, a
/// still-valid token passes the guard again whenever the required role is
/// met.
pub proof fn lemma_unban_reversal(
    key: Seq<u8>,
    t: Seq<u8>,
    banned: Set<UserUuid>,
    required: Option<UserRole>,
    now: u64,
    c: TokenClaims,
)
    requires
        spec_decode(key, t, now) == Ok::<TokenClaims, WeekendAtJoesError>(c),
        match required {
            Some(r) => c.roles@.contains(r),
            None => true,
        },
    ensures
        spec_authorize(key, Some(t), banned.remove(c.subject), required, now) == Ok::<
            Capability,
            WeekendAtJoesError,
        >(Capability { subject: c.subject, roles: c.roles }),
{
}

/// Role gating: with a valid token and an unbanned subject, the guard that
/// requires a role succeeds exactly when the token carries it, while the
/// guard for any authenticated user always succeeds.
pub proof fn lemma_role_gating(
    key: Seq<u8>,
    t: Seq<u8>,
    banned: Set<UserUuid>,
    role: UserRole,
    now: u64,
    c: TokenClaims,
)
    requires
        spec_decode(key, t, now) == Ok::<TokenClaims, WeekendAtJoesError>(c),
        !banned.contains(c.subject),
    ensures
        spec_authorize(key, Some(t), banned, None, now) == Ok::<
            Capability,
            WeekendAtJoesError,
        >(Capability { subject: c.subject, roles: c.roles }),
        c.roles@.contains(role) ==> spec_authorize(key, Some(t), banned, Some(role), now)
            == Ok::<Capability, WeekendAtJoesError>(
            Capability { subject: c.subject, roles: c.roles },
        ),
        !c.roles@.contains(role) ==> spec_authorize(key, Some(t), banned, Some(role), now)
            == Err::<Capability, WeekendAtJoesError>(
            WeekendAtJoesError::NotAuthorized { reason: "insufficient role" },
        ),
{
}

} // verus!
