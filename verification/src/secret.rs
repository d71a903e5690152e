//! The process-wide signing key: operator-supplied material checked against
//! the startup length policy, or freshly generated random material.
use vstd::prelude::*;
use vstd::string::StrSliceExecFns;
use rand::Rng;

verus! {

/// Below this many bytes a supplied key is refused outright and the server
/// must not start.
pub const MINIMUM_SECRET_LENGTH: usize = 128;

/// Below this many bytes a supplied key is accepted with a strength warning;
/// generated keys always have exactly this many.
pub const RECOMMENDED_SECRET_LENGTH: usize = 256;

/// What the startup policy says about a key of a given length.
#[derive(Debug, Clone, Copy, PartialEq, Eq, Structural)]
pub enum SecretStrength {
    /// Too short to use at all: startup must abort.
    Fatal,
    /// Usable, but short enough to deserve a warning.
    BelowRecommended,
    /// At or above the recommended length.
    Strong,
}

/// The symmetric key every token is signed and checked with. It is built
/// once at startup and never changes; only the token codec reads the raw
/// bytes.
pub struct Secret {
    key: Vec<u8>,
}

impl View for Secret {
    type V = Seq<u8>;

    closed spec fn view(&self) -> Seq<u8> {
        self.key@
    }
}

impl Secret {
    /// The startup verdict on a key of `len` bytes: fatal below the absolute
    /// minimum, a warning below the recommended length, strong otherwise.
    pub fn strength_of_length(len: usize) -> (s: SecretStrength)
        ensures
            s == SecretStrength::Fatal <==> len < MINIMUM_SECRET_LENGTH,
            s == SecretStrength::BelowRecommended <==> MINIMUM_SECRET_LENGTH <= len
                < RECOMMENDED_SECRET_LENGTH,
            s == SecretStrength::Strong <==> len >= RECOMMENDED_SECRET_LENGTH,
    {
        if len < MINIMUM_SECRET_LENGTH {
            SecretStrength::Fatal
        } else if len < RECOMMENDED_SECRET_LENGTH {
            SecretStrength::BelowRecommended
        } else {
            SecretStrength::Strong
        }
    }

    /// Wraps operator-supplied key material. The caller must already have
    /// applied the startup policy to the key's byte length: a key the policy
    /// calls fatal is not accepted here, which is what makes the abort happen
    /// at startup and nowhere later.
    pub fn from_user_supplied_string(key: String) -> (s: Secret)
        requires
            vstd::utf8::encode_utf8(key@).len() >= MINIMUM_SECRET_LENGTH as int,
        ensures
            s@ == vstd::utf8::encode_utf8(key@),
            s@.len() >= MINIMUM_SECRET_LENGTH as int,
    {
        let bytes: Vec<u8> = key.as_str().as_bytes_vec();
        Secret { key: bytes }
    }

    /// A freshly generated random key of the recommended length, made of
    /// ASCII letters and digits.
    pub fn generate() -> (s: Secret)
        ensures
            s@.len() == RECOMMENDED_SECRET_LENGTH as int,
            forall|i: int|
                0 <= i < s@.len() ==> (48 <= #[trigger] s@[i] <= 57 || 65 <= s@[i] <= 90 || 97
                    <= s@[i] <= 122),
    {
        let bytes = random_alphanumeric_bytes(RECOMMENDED_SECRET_LENGTH);
        Secret { key: bytes }
    }

    /// The raw key bytes, readable only by the token codec.
    pub(crate) fn key_bytes(&self) -> (b: &Vec<u8>)
        ensures
            b@ == self@,
    {
        &self.key
    }
}

/// Relies on rand's `Alphanumeric` distribution: every sampled byte is one
/// ASCII letter or digit, and sampling `thread_rng` does not fail.
#[verifier::external_body]
fn random_alphanumeric_bytes(len: usize) -> (r: Vec<u8>)
    ensures
        r@.len() == len,
        forall|i: int|
            0 <= i < r@.len() ==> (48 <= #[trigger] r@[i] <= 57 || 65 <= r@[i] <= 90 || 97
                <= r@[i] <= 122),
{
    rand::thread_rng().sample_iter(rand::distributions::Alphanumeric).take(len).collect()
}

} // verus!
