//! Authentication and authorization core: password hashing, signed expiring
//! tokens, an in-memory ban registry, and role-based request guards.
//!
//! A request carrying a bearer token goes through [`guard::authorize`],
//! which asks the token codec to check the signature and expiry, asks the
//! ban registry whether the subject is revoked, checks the required role,
//! and yields a capability value for the route handler. Passwords are
//! stored only as salted, self-describing scrypt hashes, and the signing
//! key lives in a process-wide [`secret::Secret`] built once at startup.

pub mod banned;
pub mod encoding;
pub mod error;
pub mod guard;
pub mod identifiers;
pub mod password;
pub mod roles;
pub mod secret;
pub mod token;

pub use error::JoeResult;
pub use error::VectorMappable;
pub use error::WeekendAtJoesError;
