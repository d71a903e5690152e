//! The token codec: claims are written as a fixed-width hexadecimal payload,
//! signed with the process secret, and read back only when the signature
//! still matches and the token has not expired.
use vstd::prelude::*;
use vstd::string::StrSliceExecFns;
use crypto::mac::Mac;
use crate::encoding::append_bytes_hex;
use crate::encoding::fixed_time_eq;
use crate::encoding::append_hex;
use crate::encoding::ascii_chars_of;
use crate::encoding::lemma_bytes_hex_ascii;
use crate::encoding::lemma_hex_digits_ascii;
use crate::encoding::lemma_hex_parse_bound;
use crate::encoding::lemma_hex_round_trip;
use crate::encoding::lemma_pow16_16;
use crate::encoding::lemma_pow16_32;
use crate::encoding::parse_hex;
use crate::encoding::pow16;
use crate::encoding::spec_bytes_hex;
use crate::encoding::spec_hex_of;
use crate::encoding::spec_hex_parse;
use crate::encoding::string_from_ascii;
use crate::error::WeekendAtJoesError;
use crate::identifiers::UserUuid;
use crate::roles::RoleSet;
use crate::roles::lemma_role_mask_round_trip;
use crate::roles::spec_role_mask;
use crate::roles::spec_role_set_of_mask;
use crate::secret::Secret;

verus! {

/// What a token certifies: who the bearer is, which roles they held when it
/// was issued, and the window `[issued_at, expires_at)` of seconds since the
/// Unix epoch during which it is valid.
#[derive(Debug, Clone, Copy, PartialEq, Eq, Structural)]
pub struct TokenClaims {
    pub subject: UserUuid,
    pub roles: RoleSet,
    pub issued_at: u64,
    pub expires_at: u64,
}

/// The ASCII byte `.` that separates the payload from the signature.
pub open spec fn separator() -> u8 {
    46
}

/// What HMAC-SHA256 computes over a message with a key; the value depends on
/// the two arguments alone.
pub uninterp spec fn hmac_sha256_of(key: Seq<u8>, msg: Seq<u8>) -> Seq<u8>;

/// The 65-byte payload of a claims value: the subject as 32 hex digits, the
/// role set as one, then the two timestamps as 16 each.
pub open spec fn spec_payload_of(c: TokenClaims) -> Seq<u8> {
    spec_hex_of(c.subject.0 as int, 32) + spec_hex_of(spec_role_mask(c.roles) as int, 1)
        + spec_hex_of(c.issued_at as int, 16) + spec_hex_of(c.expires_at as int, 16)
}

/// The claims a payload spells, or `None` when its shape or a digit is
/// wrong.
pub open spec fn spec_parse_payload(s: Seq<u8>) -> Option<TokenClaims> {
    if s.len() != 65 {
        None
    } else {
        match (
            spec_hex_parse(s.subrange(0, 32)),
            spec_hex_parse(s.subrange(32, 33)),
            spec_hex_parse(s.subrange(33, 49)),
            spec_hex_parse(s.subrange(49, 65)),
        ) {
            (Some(su), Some(m), Some(ia), Some(ex)) => Some(
                TokenClaims {
                    subject: UserUuid(su as u128),
                    roles: spec_role_set_of_mask(m as u8),
                    issued_at: ia as u64,
                    expires_at: ex as u64,
                },
            ),
            _ => None,
        }
    }
}

/// The whole token for a claims value under a key: the payload, the
/// separator, and the hex form of the payload's signature.
pub open spec fn spec_token_bytes(key: Seq<u8>, c: TokenClaims) -> Seq<u8> {
    spec_payload_of(c) + seq![separator()] + spec_bytes_hex(
        hmac_sha256_of(key, spec_payload_of(c)),
    )
}

/// Everything `decode` does, as one function of the key, the token bytes and
/// the time of the check: any token whose shape is wrong or whose signature
/// does not match the payload is an `IllegalToken`; a signed token past its
/// expiry is an `ExpiredToken`; otherwise the claims are returned.
pub open spec fn spec_decode(key: Seq<u8>, s: Seq<u8>, now: u64) -> Result<
    TokenClaims,
    WeekendAtJoesError,
> {
    if s.len() < 66 || s[65] != separator() {
        Err(WeekendAtJoesError::IllegalToken)
    } else {
        let payload = s.subrange(0, 65);
        let sig = s.subrange(66, s.len() as int);
        if sig != spec_bytes_hex(hmac_sha256_of(key, payload)) {
            Err(WeekendAtJoesError::IllegalToken)
        } else {
            match spec_parse_payload(payload) {
                None => Err(WeekendAtJoesError::IllegalToken),
                Some(c) => if now >= c.expires_at {
                    Err(WeekendAtJoesError::ExpiredToken)
                } else {
                    Ok(c)
                },
            }
        }
    }
}

/// Relies on `crypto::hmac::Hmac` over `crypto::sha2::Sha256`: the MAC of a
/// message under a key, 32 bytes, a function of key and message alone.
#[verifier::external_body]
fn sign_bytes(key: &Vec<u8>, msg: &Vec<u8>) -> (r: Vec<u8>)
    ensures
        r@ == hmac_sha256_of(key@, msg@),
        r@.len() == 32,
{
    let mut mac = crypto::hmac::Hmac::new(crypto::sha2::Sha256::new(), key.as_slice());
    mac.input(msg.as_slice());
    mac.result().code().to_vec()
}

/// Relies on `chrono::Utc::now`: the current time as whole seconds since
/// the Unix epoch.
#[verifier::external_body]
fn unix_timestamp() -> i64 {
    chrono::Utc::now().timestamp()
}

/// The current time as seconds since the Unix epoch; a reading the clock
/// reports as negative is clamped to zero.
pub fn current_unix_time() -> u64 {
    let t = unix_timestamp();
    if t < 0 {
        0
    } else {
        t as u64
    }
}

/// `a + b`, stopping at the largest 64-bit value instead of wrapping.
pub open spec fn spec_saturating_add(a: u64, b: u64) -> u64 {
    if a + b > u64::MAX {
        u64::MAX
    } else {
        (a + b) as u64
    }
}

/// Builds and signs a token for `subject` holding `roles`, issued at `now`
/// and expiring `ttl` seconds later.
pub fn issue_at(secret: &Secret, subject: UserUuid, roles: RoleSet, now: u64, ttl: u64) -> (t:
    String)
    requires
        now + ttl <= u64::MAX,
    ensures
        t@ == ascii_chars_of(
            spec_token_bytes(
                secret@,
                TokenClaims { subject, roles, issued_at: now, expires_at: (now + ttl) as u64 },
            ),
        ),
{
    let ghost c = TokenClaims { subject, roles, issued_at: now, expires_at: (now + ttl) as u64 };
    let mut payload: Vec<u8> = Vec::new();
    append_hex(&mut payload, subject.0, 32);
    let mask = roles.mask();
    append_hex(&mut payload, mask as u128, 1);
    append_hex(&mut payload, now as u128, 16);
    let expires: u64 = now + ttl;
    append_hex(&mut payload, expires as u128, 16);
    proof {
        assert(payload@ =~= spec_payload_of(c));
    }
    let mac = sign_bytes(secret.key_bytes(), &payload);
    let mut out: Vec<u8> = payload;
    out.push(46);
    append_bytes_hex(&mut out, &mac);
    proof {
        assert(out@ =~= spec_token_bytes(secret@, c));
        lemma_token_bytes_ascii(secret@, c);
    }
    string_from_ascii(out)
}

/// Checks a token string against the key at time `now`, exactly as
/// `spec_decode` says.
pub fn decode_at(secret: &Secret, token: &str, now: u64) -> (r: Result<
    TokenClaims,
    WeekendAtJoesError,
>)
    ensures
        r == spec_decode(secret@, vstd::utf8::encode_utf8(token@), now),
{
    let b: Vec<u8> = token.as_bytes_vec();
    if b.len() < 66 {
        return Err(WeekendAtJoesError::IllegalToken);
    }
    if b[65] != 46 {
        return Err(WeekendAtJoesError::IllegalToken);
    }
    let blen: usize = b.len();
    let mut payload: Vec<u8> = Vec::new();
    let mut i: usize = 0;
    while i < 65
        invariant
            b@.len() >= 66,
            i <= 65,
            payload@ =~= b@.subrange(0, i as int),
        decreases 65 - i,
    {
        payload.push(b[i]);
        i = i + 1;
    }
    let mut sig: Vec<u8> = Vec::new();
    let mut j: usize = 66;
    while j < blen
        invariant
            blen == b@.len() >= 66,
            66 <= j <= blen,
            sig@ =~= b@.subrange(66, j as int),
        decreases blen - j,
    {
        sig.push(b[j]);
        j = j + 1;
    }
    let mac = sign_bytes(secret.key_bytes(), &payload);
    let mut expected: Vec<u8> = Vec::new();
    append_bytes_hex(&mut expected, &mac);
    if !fixed_time_eq(&sig, &expected) {
        return Err(WeekendAtJoesError::IllegalToken);
    }
    match parse_payload(&payload) {
        None => Err(WeekendAtJoesError::IllegalToken),
        Some(c) => {
            if now >= c.expires_at {
                Err(WeekendAtJoesError::ExpiredToken)
            } else {
                Ok(c)
            }
        },
    }
}

/// Issues a token for `subject` as of the current clock reading; a time to
/// live that would pass the largest representable time is cut off there.
pub fn issue(secret: &Secret, subject: UserUuid, roles: RoleSet, ttl: u64) -> (t: String)
    ensures
        exists|now: u64|
            t@ == ascii_chars_of(
                spec_token_bytes(
                    secret@,
                    TokenClaims {
                        subject,
                        roles,
                        issued_at: now,
                        expires_at: spec_saturating_add(now, ttl),
                    },
                ),
            ),
{
    let now = current_unix_time();
    let capped_ttl: u64 = if ttl > u64::MAX - now {
        u64::MAX - now
    } else {
        ttl
    };
    let t = issue_at(secret, subject, roles, now, capped_ttl);
    proof {
        assert(now + capped_ttl == spec_saturating_add(now, ttl));
    }
    t
}

/// Checks a token string against the key as of the current clock reading.
pub fn decode(secret: &Secret, token: &str) -> (r: Result<TokenClaims, WeekendAtJoesError>)
    ensures
        exists|now: u64| r == spec_decode(secret@, vstd::utf8::encode_utf8(token@), now),
{
    let now = current_unix_time();
    decode_at(secret, token, now)
}

/// Reads the four fields of a 65-byte payload.
fn parse_payload(b: &Vec<u8>) -> (r: Option<TokenClaims>)
    ensures
        r == spec_parse_payload(b@),
{
    if b.len() != 65 {
        return None;
    }
    let su = match parse_hex(b, 0, 32) {
        Some(v) => v,
        None => {
            return None;
        },
    };
    let m = match parse_hex(b, 32, 1) {
        Some(v) => v,
        None => {
            return None;
        },
    };
    let ia = match parse_hex(b, 33, 16) {
        Some(v) => v,
        None => {
            return None;
        },
    };
    let ex = match parse_hex(b, 49, 16) {
        Some(v) => v,
        None => {
            return None;
        },
    };
    proof {
        lemma_hex_parse_bound(b@.subrange(32, 33));
        lemma_hex_parse_bound(b@.subrange(33, 49));
        lemma_hex_parse_bound(b@.subrange(49, 65));
        lemma_pow16_16();
        assert(pow16(1) == 16) by {
            reveal_with_fuel(pow16, 2);
        }
    }
    Some(
        TokenClaims {
            subject: UserUuid(su),
            roles: RoleSet::from_mask(m as u8),
            issued_at: ia as u64,
            expires_at: ex as u64,
        },
    )
}

/// Every byte of a token is ASCII: hex digits and the separator.
pub proof fn lemma_token_bytes_ascii(key: Seq<u8>, c: TokenClaims)
    ensures
        spec_token_bytes(key, c).len() >= 66,
        forall|i: int|
            0 <= i < spec_token_bytes(key, c).len() ==> #[trigger] spec_token_bytes(key, c)[i]
                < 128,
{
    lemma_payload_ascii(c);
    lemma_bytes_hex_ascii(hmac_sha256_of(key, spec_payload_of(c)));
}

/// The payload is 65 bytes of ASCII hex digits.
pub proof fn lemma_payload_ascii(c: TokenClaims)
    ensures
        spec_payload_of(c).len() == 65,
        forall|i: int|
            0 <= i < 65 ==> 48 <= #[trigger] spec_payload_of(c)[i] <= 102,
{
    lemma_hex_digits_ascii(c.subject.0 as int, 32);
    lemma_hex_digits_ascii(spec_role_mask(c.roles) as int, 1);
    lemma_hex_digits_ascii(c.issued_at as int, 16);
    lemma_hex_digits_ascii(c.expires_at as int, 16);
}

/// A payload built from claims reads back as exactly those claims.
pub proof fn lemma_payload_round_trip(c: TokenClaims)
    ensures
        spec_parse_payload(spec_payload_of(c)) == Some(c),
{
    let p = spec_payload_of(c);
    lemma_payload_ascii(c);
    lemma_hex_digits_ascii(c.subject.0 as int, 32);
    lemma_hex_digits_ascii(spec_role_mask(c.roles) as int, 1);
    lemma_hex_digits_ascii(c.issued_at as int, 16);
    lemma_hex_digits_ascii(c.expires_at as int, 16);
    assert(p.subrange(0, 32) =~= spec_hex_of(c.subject.0 as int, 32));
    assert(p.subrange(32, 33) =~= spec_hex_of(spec_role_mask(c.roles) as int, 1));
    assert(p.subrange(33, 49) =~= spec_hex_of(c.issued_at as int, 16));
    assert(p.subrange(49, 65) =~= spec_hex_of(c.expires_at as int, 16));
    lemma_pow16_32();
    lemma_pow16_16();
    assert(pow16(1) == 16) by {
        reveal_with_fuel(pow16, 2);
    }
    lemma_hex_round_trip(c.subject.0 as int, 32);
    lemma_hex_round_trip(spec_role_mask(c.roles) as int, 1);
    lemma_hex_round_trip(c.issued_at as int, 16);
    lemma_hex_round_trip(c.expires_at as int, 16);
    lemma_role_mask_round_trip(c.roles);
}

/// Round trip: decoding an issued token before its expiry returns exactly
/// the claims that were issued.
pub proof fn lemma_token_round_trip(key: Seq<u8>, c: TokenClaims, now: u64)
    requires
        now < c.expires_at,
    ensures
        spec_decode(key, spec_token_bytes(key, c), now) == Ok::<
            TokenClaims,
            WeekendAtJoesError,
        >(c),
{
    lemma_decode_of_issued(key, c, now);
}

/// Expiry: decoding an issued token at or after its expiry is refused as
/// `ExpiredToken`, never accepted.
pub proof fn lemma_token_expired(key: Seq<u8>, c: TokenClaims, now: u64)
    requires
        now >= c.expires_at,
    ensures
        spec_decode(key, spec_token_bytes(key, c), now) == Err::<
            TokenClaims,
            WeekendAtJoesError,
        >(WeekendAtJoesError::ExpiredToken),
{
    lemma_decode_of_issued(key, c, now);
}

/// Decoding an untampered issued token takes the signature-match path and
/// ends on the expiry test alone.
proof fn lemma_decode_of_issued(key: Seq<u8>, c: TokenClaims, now: u64)
    ensures
        spec_decode(key, spec_token_bytes(key, c), now) == (if now >= c.expires_at {
            Err::<TokenClaims, WeekendAtJoesError>(WeekendAtJoesError::ExpiredToken)
        } else {
            Ok::<TokenClaims, WeekendAtJoesError>(c)
        }),
{
    let s = spec_token_bytes(key, c);
    let p = spec_payload_of(c);
    lemma_payload_ascii(c);
    lemma_bytes_hex_ascii(hmac_sha256_of(key, p));
    assert(s[65] == separator());
    assert(s.subrange(0, 65) =~= p);
    assert(s.subrange(66, s.len() as int) =~= spec_bytes_hex(hmac_sha256_of(key, p)));
    lemma_payload_round_trip(c);
}

/// The round trip carried to the strings the codec hands out: the UTF-8
/// bytes of a token `issue_at` built are the token bytes themselves, so by
/// `decode_at`'s contract the string decodes to the issued claims while
/// unexpired, and to `ExpiredToken` afterwards.
pub proof fn lemma_issued_string_decodes(key: Seq<u8>, c: TokenClaims, t: Seq<char>, now: u64)
    requires
        t == ascii_chars_of(spec_token_bytes(key, c)),
    ensures
        spec_decode(key, vstd::utf8::encode_utf8(t), now) == (if now >= c.expires_at {
            Err::<TokenClaims, WeekendAtJoesError>(WeekendAtJoesError::ExpiredToken)
        } else {
            Ok::<TokenClaims, WeekendAtJoesError>(c)
        }),
{
    lemma_token_bytes_ascii(key, c);
    crate::encoding::lemma_ascii_chars_of_bytes(spec_token_bytes(key, c));
    lemma_decode_of_issued(key, c, now);
}

/// Tampering with the signature: a token whose signature part is anything
/// but the hex form of the payload's MAC is refused as `IllegalToken`.
pub proof fn lemma_signature_tamper(key: Seq<u8>, c: TokenClaims, sig: Seq<u8>, now: u64)
    requires
        sig != spec_bytes_hex(hmac_sha256_of(key, spec_payload_of(c))),
    ensures
        spec_decode(key, spec_payload_of(c) + seq![separator()] + sig, now) == Err::<
            TokenClaims,
            WeekendAtJoesError,
        >(WeekendAtJoesError::IllegalToken),
{
    let s = spec_payload_of(c) + seq![separator()] + sig;
    let p = spec_payload_of(c);
    lemma_payload_ascii(c);
    assert(s[65] == separator());
    assert(s.subrange(0, 65) =~= p);
    assert(s.subrange(66, s.len() as int) =~= sig);
}

/// Tampering with the payload: replacing the payload of an issued token
/// while keeping its signature is refused as `IllegalToken` whenever the two
/// payloads' MACs differ, which is the overwhelmingly likely case.
pub proof fn lemma_payload_tamper(key: Seq<u8>, c: TokenClaims, other: Seq<u8>, now: u64)
    requires
        other.len() == 65,
        hmac_sha256_of(key, other) != hmac_sha256_of(key, spec_payload_of(c)),
    ensures
        spec_decode(
            key,
            other + seq![separator()] + spec_bytes_hex(
                hmac_sha256_of(key, spec_payload_of(c)),
            ),
            now,
        ) == Err::<TokenClaims, WeekendAtJoesError>(WeekendAtJoesError::IllegalToken),
{
    let orig_sig = spec_bytes_hex(hmac_sha256_of(key, spec_payload_of(c)));
    let s = other + seq![separator()] + orig_sig;
    lemma_bytes_hex_ascii(hmac_sha256_of(key, spec_payload_of(c)));
    assert(s[65] == separator());
    assert(s.subrange(0, 65) =~= other);
    assert(s.subrange(66, s.len() as int) =~= orig_sig);
    if orig_sig == spec_bytes_hex(hmac_sha256_of(key, other)) {
        crate::encoding::lemma_bytes_hex_injective(
            hmac_sha256_of(key, other),
            hmac_sha256_of(key, spec_payload_of(c)),
        );
    }
}

} // verus!
