//! Error kinds shared by the whole crate, and the mapping from each kind to
//! the HTTP status class that the surrounding web layer answers with.
use vstd::prelude::*;
use vstd::std_specs::convert::FromSpec;
use vstd::string::StringExecFns;

verus! {

/// Every failure the core can report. Token checks yield `MissingToken`,
/// `IllegalToken` or `ExpiredToken`; authorization yields `NotAuthorized`;
/// password hashing yields `HashingFailure`; the persistence collaborator
/// yields `DatabaseError` or `NotFound`.
#[derive(Debug, Clone, PartialEq)]
pub enum WeekendAtJoesError {
    DatabaseError(Option<String>),
    InternalServerError,
    NotFound { entity_name: &'static str },
    BadRequest,
    /// The user did not have privileges to access the given method.
    NotAuthorized { reason: &'static str },
    /// The thread being posted to or edited was locked by an admin.
    ThreadLocked,
    /// The signature does not match the hashed contents + secret.
    IllegalToken,
    /// The expiry field in the token is in the past.
    ExpiredToken,
    /// The request did not have a token.
    MissingToken,
    /// The key-derivation function failed to produce an encoded hash.
    HashingFailure,
}

pub type JoeResult<T> = Result<T, WeekendAtJoesError>;

impl WeekendAtJoesError {
    /// The HTTP status code the web layer answers with for this error:
    /// absent, malformed or expired tokens are 401, refused authorization is
    /// 403, a missing row is 404, a malformed request is 400, a locked thread
    /// is 405, and everything else is a 500.
    pub fn status_code(&self) -> (code: u16)
        ensures
            code == match self {
                WeekendAtJoesError::DatabaseError(_) => 500u16,
                WeekendAtJoesError::InternalServerError => 500u16,
                WeekendAtJoesError::NotFound { .. } => 404u16,
                WeekendAtJoesError::BadRequest => 400u16,
                WeekendAtJoesError::NotAuthorized { .. } => 403u16,
                WeekendAtJoesError::ThreadLocked => 405u16,
                WeekendAtJoesError::IllegalToken => 401u16,
                WeekendAtJoesError::ExpiredToken => 401u16,
                WeekendAtJoesError::MissingToken => 401u16,
                WeekendAtJoesError::HashingFailure => 500u16,
            },
    {
        match self {
            WeekendAtJoesError::DatabaseError(_) => 500,
            WeekendAtJoesError::InternalServerError => 500,
            WeekendAtJoesError::NotFound { .. } => 404,
            WeekendAtJoesError::BadRequest => 400,
            WeekendAtJoesError::NotAuthorized { .. } => 403,
            WeekendAtJoesError::ThreadLocked => 405,
            WeekendAtJoesError::IllegalToken => 401,
            WeekendAtJoesError::ExpiredToken => 401,
            WeekendAtJoesError::MissingToken => 401,
            WeekendAtJoesError::HashingFailure => 500,
        }
    }

    /// The response body the web layer sends for this error. A database
    /// error always answers with the same generic body, whether or not a
    /// message was attached: internal error text never reaches a client.
    pub fn message(&self) -> (msg: String)
        ensures
            msg@ == match self {
                WeekendAtJoesError::DatabaseError(_) => "Database Error"@,
                WeekendAtJoesError::InternalServerError => "Internal Server Error"@,
                WeekendAtJoesError::NotFound { entity_name } => "Could not find requested "@
                    + entity_name@,
                WeekendAtJoesError::BadRequest => "Malformed request"@,
                WeekendAtJoesError::NotAuthorized { reason } => reason@,
                WeekendAtJoesError::ThreadLocked =>
                    "Thread being operated upon is locked and therefore cant be changed"@,
                WeekendAtJoesError::IllegalToken =>
                    "Login token's contents do not match its signature."@,
                WeekendAtJoesError::ExpiredToken => "Login token has expired."@,
                WeekendAtJoesError::MissingToken => "Login token not supplied."@,
                WeekendAtJoesError::HashingFailure => "Failed to hash password."@,
            },
    {
        match self {
            WeekendAtJoesError::DatabaseError(_) => String::from_str("Database Error"),
            WeekendAtJoesError::InternalServerError => String::from_str("Internal Server Error"),
            WeekendAtJoesError::NotFound { entity_name } => String::from_str(
                "Could not find requested ",
            ).concat(entity_name),
            WeekendAtJoesError::BadRequest => String::from_str("Malformed request"),
            WeekendAtJoesError::NotAuthorized { reason } => String::from_str(reason),
            WeekendAtJoesError::ThreadLocked => String::from_str(
                "Thread being operated upon is locked and therefore cant be changed",
            ),
            WeekendAtJoesError::IllegalToken => String::from_str(
                "Login token's contents do not match its signature.",
            ),
            WeekendAtJoesError::ExpiredToken => String::from_str("Login token has expired."),
            WeekendAtJoesError::MissingToken => String::from_str("Login token not supplied."),
            WeekendAtJoesError::HashingFailure => String::from_str("Failed to hash password."),
        }
    }
}

/// Allows the conversion of `JoeResult<Vec<T>>` to `JoeResult<Vec<W>>` as a
/// one liner.
pub trait VectorMappable<T> {
    fn convert_inner_vec<W: From<T>>(self) -> (r: JoeResult<Vec<W>>) where
        Self: Sized,
    ;
}

impl<T> VectorMappable<T> for JoeResult<Vec<T>> {
    /// Maps every element of the inner vector through `W::from`, keeping the
    /// order; an error is passed through unchanged.
    fn convert_inner_vec<W: From<T>>(self) -> (r: JoeResult<Vec<W>>)
        ensures
            r is Ok <==> self is Ok,
            self is Err ==> r == Err::<Vec<W>, WeekendAtJoesError>(self->Err_0),
            self is Ok ==> r->Ok_0@.len() == self->Ok_0@.len(),
            self is Ok && W::obeys_from_spec() ==> r->Ok_0@ == self->Ok_0@.map_values(
                |t: T| W::from_spec(t),
            ),
    {
        match self {
            Ok(vec) => {
                let ghost orig: Seq<T> = vec@;
                let mut vec = vec;
                let mut out: Vec<W> = Vec::new();
                while vec.len() > 0
                    invariant
                        orig.len() == out@.len() + vec@.len(),
                        vec@ == orig.subrange(out@.len() as int, orig.len() as int),
                        W::obeys_from_spec() ==> out@ == orig.subrange(
                            0,
                            out@.len() as int,
                        ).map_values(|t: T| W::from_spec(t)),
                    decreases vec@.len(),
                {
                    let t = vec.remove(0);
                    out.push(W::from(t));
                }
                proof {
                    assert(orig.subrange(0, orig.len() as int) =~= orig);
                    if W::obeys_from_spec() {
                        assert(out@ =~= orig.map_values(|t: T| W::from_spec(t)));
                    }
                }
                Ok(out)
            },
            Err(e) => Err(e),
        }
    }
}

} // verus!
