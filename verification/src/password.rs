//! Password storage: a deliberately slow scrypt digest over a fresh random
//! salt, written into a self-describing encoded hash whose parameters travel
//! with it, and verified by recomputing the digest from those parameters.
use vstd::prelude::*;
use vstd::string::StrSliceExecFns;
use vstd::string::StringSliceAdditionalSpecFns;
use rand::Rng;
use crate::encoding::append_bytes_hex;
use crate::encoding::append_hex;
use crate::encoding::ascii_chars_of;
use crate::encoding::fixed_time_eq;
use crate::encoding::lemma_bytes_hex_ascii;
use crate::encoding::lemma_bytes_hex_round_trip;
use crate::encoding::lemma_hex_digits_ascii;
use crate::encoding::lemma_hex_parse_bound;
use crate::encoding::lemma_hex_round_trip;
use crate::encoding::parse_bytes_hex;
use crate::encoding::parse_hex;
use crate::encoding::pow16;
use crate::encoding::spec_bytes_hex;
use crate::encoding::spec_hex_of;
use crate::encoding::spec_hex_parse;
use crate::encoding::spec_parse_bytes_hex;
use crate::encoding::string_from_ascii;
use crate::error::JoeResult;
use crate::error::WeekendAtJoesError;

verus! {

/// The scrypt cost exponent the hasher writes into new hashes.
pub const HASH_LOG_N: u8 = 10;

/// The scrypt block-size parameter the hasher writes into new hashes.
pub const HASH_R: u32 = 10;

/// The scrypt parallelism parameter the hasher writes into new hashes.
pub const HASH_P: u32 = 10;

/// What scrypt derives: the 32-byte digest of a password and salt under the
/// given cost parameters; a function of its arguments alone.
pub uninterp spec fn scrypt32_of(
    password: Seq<u8>,
    salt: Seq<u8>,
    log_n: u8,
    r: u32,
    p: u32,
) -> Seq<u8>;

/// The eight bytes `$scrypt$` that open an encoded hash.
pub open spec fn spec_hash_header() -> Seq<u8> {
    seq![36u8, 115u8, 99u8, 114u8, 121u8, 112u8, 116u8, 36u8]
}

/// The 127-byte encoded form of a hash: the header, then the cost exponent
/// as 2 hex digits, the block size and parallelism as 8 each, the 16-byte
/// salt and the 32-byte digest as hex, each field closed by `$`.
pub open spec fn spec_encoded_hash(
    log_n: u8,
    r: u32,
    p: u32,
    salt: Seq<u8>,
    dk: Seq<u8>,
) -> Seq<u8> {
    spec_hash_header() + spec_hex_of(log_n as int, 2) + seq![36u8] + spec_hex_of(r as int, 8)
        + seq![36u8] + spec_hex_of(p as int, 8) + seq![36u8] + spec_bytes_hex(salt)
        + seq![36u8] + spec_bytes_hex(dk) + seq![36u8]
}

/// The fields an encoded hash spells, or `None` when its shape, a digit or
/// a separator is wrong.
pub open spec fn spec_parse_hash(s: Seq<u8>) -> Option<(u8, u32, u32, Seq<u8>, Seq<u8>)> {
    if s.len() == 127 && s.subrange(0, 8) == spec_hash_header() && s[10] == 36 && s[19] == 36
        && s[28] == 36 && s[61] == 36 && s[126] == 36 {
        match (
            spec_hex_parse(s.subrange(8, 10)),
            spec_hex_parse(s.subrange(11, 19)),
            spec_hex_parse(s.subrange(20, 28)),
            spec_parse_bytes_hex(s.subrange(29, 61)),
            spec_parse_bytes_hex(s.subrange(62, 126)),
        ) {
            (Some(ln), Some(r), Some(p), Some(salt), Some(dk)) => Some(
                (ln as u8, r as u32, p as u32, salt, dk),
            ),
            _ => None,
        }
    } else {
        None
    }
}

/// The cost parameters the verifier is prepared to recompute under. They
/// cover everything the hasher writes and bound the memory the key
/// derivation may ask for.
pub open spec fn spec_params_supported(log_n: u8, r: u32, p: u32) -> bool {
    0 < log_n <= 20 && 0 < r <= 32 && 0 < p <= 32 && (log_n as int) < (r as int) * 16
}

/// An encoded hash the verifier accepts: it parses and its parameters are
/// supported.
pub open spec fn spec_hash_wf(s: Seq<u8>) -> bool {
    match spec_parse_hash(s) {
        Some((ln, r, p, _salt, _dk)) => spec_params_supported(ln, r, p),
        None => false,
    }
}

/// Whether a password matches a well-formed encoded hash: the digest
/// recomputed under the embedded parameters and salt equals the embedded
/// digest.
pub open spec fn spec_hash_matches(password: Seq<u8>, s: Seq<u8>) -> bool {
    &&& spec_hash_wf(s)
    &&& match spec_parse_hash(s) {
        Some((ln, r, p, salt, dk)) => scrypt32_of(password, salt, ln, r, p) == dk,
        None => false,
    }
}

/// Relies on `crypto::scrypt::scrypt` with `crypto::scrypt::ScryptParams::new`:
/// the 32-byte scrypt digest, a function of password, salt and parameters
/// alone. The parameter bounds keep every assertion inside both calls from
/// firing.
#[verifier::external_body]
fn scrypt_digest(password: &Vec<u8>, salt: &Vec<u8>, log_n: u8, r: u32, p: u32) -> (out: Vec<
    u8,
>)
    requires
        spec_params_supported(log_n, r, p),
    ensures
        out@ == scrypt32_of(password@, salt@, log_n, r, p),
        out@.len() == 32,
{
    let params = crypto::scrypt::ScryptParams::new(log_n, r, p);
    let mut out = vec![0u8; 32];
    crypto::scrypt::scrypt(password.as_slice(), salt.as_slice(), &params, &mut out);
    out
}

/// Relies on `rand::Rng::try_fill`: fills the buffer from the thread's
/// generator, failing only when the entropy source fails.
#[verifier::external_body]
fn random_salt() -> (r: Result<Vec<u8>, ()>)
    ensures
        r matches Ok(v) ==> v@.len() == 16,
{
    let mut buf = vec![0u8; 16];
    match rand::thread_rng().try_fill(&mut buf[..]) {
        Ok(()) => Ok(buf),
        Err(_) => Err(()),
    }
}

/// Derives a fresh salted hash of `password` and writes it in the encoded
/// form; two calls draw different salts, so their outputs differ. Fails only
/// when the entropy source does, with `HashingFailure`.
pub fn hash_password(password: &str) -> (r: JoeResult<String>)
    ensures
        r matches Ok(h) ==> exists|salt: Seq<u8>|
            #![auto]
            salt.len() == 16 && scrypt32_of(
                password.spec_bytes(),
                salt,
                HASH_LOG_N,
                HASH_R,
                HASH_P,
            ).len() == 32 && h@ == ascii_chars_of(
                spec_encoded_hash(
                    HASH_LOG_N,
                    HASH_R,
                    HASH_P,
                    salt,
                    scrypt32_of(password.spec_bytes(), salt, HASH_LOG_N, HASH_R, HASH_P),
                ),
            ),
        r is Err ==> r == Err::<String, WeekendAtJoesError>(WeekendAtJoesError::HashingFailure),
{
    let salt = match random_salt() {
        Ok(s) => s,
        Err(_) => {
            return Err(WeekendAtJoesError::HashingFailure);
        },
    };
    let pw: Vec<u8> = password.as_bytes_vec();
    let dk = scrypt_digest(&pw, &salt, HASH_LOG_N, HASH_R, HASH_P);
    let mut out: Vec<u8> = Vec::new();
    out.push(36);
    out.push(115);
    out.push(99);
    out.push(114);
    out.push(121);
    out.push(112);
    out.push(116);
    out.push(36);
    append_hex(&mut out, HASH_LOG_N as u128, 2);
    out.push(36);
    append_hex(&mut out, HASH_R as u128, 8);
    out.push(36);
    append_hex(&mut out, HASH_P as u128, 8);
    out.push(36);
    append_bytes_hex(&mut out, &salt);
    out.push(36);
    append_bytes_hex(&mut out, &dk);
    out.push(36);
    proof {
        assert(out@ =~= spec_encoded_hash(HASH_LOG_N, HASH_R, HASH_P, salt@, dk@));
        lemma_encoded_hash_ascii(HASH_LOG_N, HASH_R, HASH_P, salt@, dk@);
    }
    Ok(string_from_ascii(out))
}

/// Recomputes the digest of `plaintext` under the parameters and salt
/// embedded in `expected_hash` and compares in fixed time: `Ok(true)` on a
/// match, `Ok(false)` on a mismatch, and an error exactly when the encoded
/// hash is not well formed.
pub fn verify_hash(plaintext: &str, expected_hash: &str) -> (r: Result<bool, &'static str>)
    ensures
        r matches Ok(b) ==> spec_hash_wf(expected_hash.spec_bytes()) && b == spec_hash_matches(
            plaintext.spec_bytes(),
            expected_hash.spec_bytes(),
        ),
        r is Err <==> !spec_hash_wf(expected_hash.spec_bytes()),
{
    let s: Vec<u8> = expected_hash.as_bytes_vec();
    let malformed: &'static str = "Hash is not in the expected encoded form.";
    if s.len() != 127 {
        return Err(malformed);
    }
    if !(s[0] == 36 && s[1] == 115 && s[2] == 99 && s[3] == 114 && s[4] == 121 && s[5] == 112
        && s[6] == 116 && s[7] == 36) {
        proof {
            assert(s@.subrange(0, 8) != spec_hash_header());
        }
        return Err(malformed);
    }
    if !(s[10] == 36 && s[19] == 36 && s[28] == 36 && s[61] == 36 && s[126] == 36) {
        return Err(malformed);
    }
    proof {
        assert(s@.subrange(0, 8) =~= spec_hash_header());
    }
    let ln = match parse_hex(&s, 8, 2) {
        Some(v) => v,
        None => {
            return Err(malformed);
        },
    };
    let r = match parse_hex(&s, 11, 8) {
        Some(v) => v,
        None => {
            return Err(malformed);
        },
    };
    let p = match parse_hex(&s, 20, 8) {
        Some(v) => v,
        None => {
            return Err(malformed);
        },
    };
    let salt = match parse_bytes_hex(&s, 29, 16) {
        Some(v) => v,
        None => {
            return Err(malformed);
        },
    };
    let dk = match parse_bytes_hex(&s, 62, 32) {
        Some(v) => v,
        None => {
            return Err(malformed);
        },
    };
    proof {
        lemma_hex_parse_bound(s@.subrange(8, 10));
        lemma_hex_parse_bound(s@.subrange(11, 19));
        lemma_hex_parse_bound(s@.subrange(20, 28));
        lemma_pow16_2();
        lemma_pow16_8();
    }
    let log_n: u8 = ln as u8;
    let r32: u32 = r as u32;
    let p32: u32 = p as u32;
    if !(0 < log_n && log_n <= 20 && 0 < r32 && r32 <= 32 && 0 < p32 && p32 <= 32 && (log_n
        as u32) < r32 * 16) {
        return Err(malformed);
    }
    let pw: Vec<u8> = plaintext.as_bytes_vec();
    let recomputed = scrypt_digest(&pw, &salt, log_n, r32, p32);
    Ok(fixed_time_eq(&recomputed, &dk))
}

/// Two hex digits hold exactly the values of a byte.
proof fn lemma_pow16_2()
    ensures
        pow16(2) == 0x100,
{
    reveal_with_fuel(pow16, 3);
}

/// Eight hex digits hold exactly the values of a 32-bit integer.
proof fn lemma_pow16_8()
    ensures
        pow16(8) == 0x1_0000_0000,
{
    reveal_with_fuel(pow16, 9);
}

/// Every byte of an encoded hash is ASCII: the header, separators and hex
/// digits.
proof fn lemma_encoded_hash_ascii(log_n: u8, r: u32, p: u32, salt: Seq<u8>, dk: Seq<u8>)
    ensures
        forall|i: int|
            0 <= i < spec_encoded_hash(log_n, r, p, salt, dk).len()
                ==> #[trigger] spec_encoded_hash(log_n, r, p, salt, dk)[i] < 128,
{
    lemma_hex_digits_ascii(log_n as int, 2);
    lemma_hex_digits_ascii(r as int, 8);
    lemma_hex_digits_ascii(p as int, 8);
    lemma_bytes_hex_ascii(salt);
    lemma_bytes_hex_ascii(dk);
}

/// Hashing then verifying succeeds: for every password, every salt the
/// entropy source can draw, and the 32-byte digest scrypt derives from
/// them, the encoded hash that `hash_password` writes is well formed and
/// `verify_hash` matches the same password against it.
pub proof fn lemma_hash_verifies(password: Seq<u8>, salt: Seq<u8>, dk: Seq<u8>)
    requires
        salt.len() == 16,
        dk.len() == 32,
        dk == scrypt32_of(password, salt, HASH_LOG_N, HASH_R, HASH_P),
    ensures
        spec_hash_wf(spec_encoded_hash(HASH_LOG_N, HASH_R, HASH_P, salt, dk)),
        spec_hash_matches(password, spec_encoded_hash(HASH_LOG_N, HASH_R, HASH_P, salt, dk)),
        spec_parse_hash(spec_encoded_hash(HASH_LOG_N, HASH_R, HASH_P, salt, dk)) == Some(
            (HASH_LOG_N, HASH_R, HASH_P, salt, dk),
        ),
{
    lemma_parse_encoded_hash(salt, dk);
}

/// The hash law carried to the strings the hasher hands out: the UTF-8
/// bytes of an encoded hash `hash_password` built are the encoded bytes
/// themselves, so by `verify_hash`'s contract the same password matches the
/// stored string.
pub proof fn lemma_hash_string_verifies(
    password: Seq<u8>,
    salt: Seq<u8>,
    dk: Seq<u8>,
    h: Seq<char>,
)
    requires
        salt.len() == 16,
        dk.len() == 32,
        dk == scrypt32_of(password, salt, HASH_LOG_N, HASH_R, HASH_P),
        h == ascii_chars_of(spec_encoded_hash(HASH_LOG_N, HASH_R, HASH_P, salt, dk)),
    ensures
        spec_hash_wf(vstd::utf8::encode_utf8(h)),
        spec_hash_matches(password, vstd::utf8::encode_utf8(h)),
{
    lemma_encoded_hash_ascii(HASH_LOG_N, HASH_R, HASH_P, salt, dk);
    crate::encoding::lemma_ascii_chars_of_bytes(
        spec_encoded_hash(HASH_LOG_N, HASH_R, HASH_P, salt, dk),
    );
    lemma_hash_verifies(password, salt, dk);
}

/// A password whose digest under the embedded parameters differs from the
/// stored digest does not match the encoded hash, which for a different
/// password is the overwhelmingly likely case.
pub proof fn lemma_different_digest_fails(
    other: Seq<u8>,
    salt: Seq<u8>,
    dk: Seq<u8>,
)
    requires
        salt.len() == 16,
        dk.len() == 32,
        scrypt32_of(other, salt, HASH_LOG_N, HASH_R, HASH_P) != dk,
    ensures
        !spec_hash_matches(other, spec_encoded_hash(HASH_LOG_N, HASH_R, HASH_P, salt, dk)),
{
    let s = spec_encoded_hash(HASH_LOG_N, HASH_R, HASH_P, salt, dk);
    if spec_hash_wf(s) {
        lemma_parse_encoded_hash(salt, dk);
    }
}

/// An encoded hash parses back to exactly the fields it was built from.
proof fn lemma_parse_encoded_hash(salt: Seq<u8>, dk: Seq<u8>)
    requires
        salt.len() == 16,
        dk.len() == 32,
    ensures
        spec_parse_hash(spec_encoded_hash(HASH_LOG_N, HASH_R, HASH_P, salt, dk)) == Some(
            (HASH_LOG_N, HASH_R, HASH_P, salt, dk),
        ),
{
    let s = spec_encoded_hash(HASH_LOG_N, HASH_R, HASH_P, salt, dk);
    lemma_hex_digits_ascii(HASH_LOG_N as int, 2);
    lemma_hex_digits_ascii(HASH_R as int, 8);
    lemma_hex_digits_ascii(HASH_P as int, 8);
    lemma_bytes_hex_ascii(salt);
    lemma_bytes_hex_ascii(dk);
    assert(s.len() == 127);
    assert(s.subrange(0, 8) =~= spec_hash_header());
    assert(s.subrange(8, 10) =~= spec_hex_of(HASH_LOG_N as int, 2));
    assert(s.subrange(11, 19) =~= spec_hex_of(HASH_R as int, 8));
    assert(s.subrange(20, 28) =~= spec_hex_of(HASH_P as int, 8));
    assert(s.subrange(29, 61) =~= spec_bytes_hex(salt));
    assert(s.subrange(62, 126) =~= spec_bytes_hex(dk));
    lemma_pow16_2();
    lemma_pow16_8();
    lemma_hex_round_trip(HASH_LOG_N as int, 2);
    lemma_hex_round_trip(HASH_R as int, 8);
    lemma_hex_round_trip(HASH_P as int, 8);
    lemma_bytes_hex_round_trip(salt);
    lemma_bytes_hex_round_trip(dk);
}

} // verus!
