use auth::WeekendAtJoesError;
use auth::identifiers::UserUuid;
use auth::roles::RoleSet;
use auth::roles::UserRole;
use auth::secret::Secret;
use auth::token::current_unix_time;
use auth::token::decode;
use auth::token::decode_at;
use auth::token::issue;
use auth::token::issue_at;

fn test_secret() -> Secret {
    Secret::from_user_supplied_string("0123456789abcdef".repeat(16))
}

fn other_secret() -> Secret {
    Secret::from_user_supplied_string("fedcba9876543210".repeat(16))
}

fn publisher_roles() -> RoleSet {
    let mut roles = RoleSet::empty();
    roles.insert(UserRole::Publisher);
    roles
}

#[test]
fn round_trip_returns_issued_claims() {
    let secret = test_secret();
    let subject = UserUuid(0x0123_4567_89ab_cdef_0123_4567_89ab_cdef);
    let mut roles = RoleSet::empty();
    roles.insert(UserRole::Admin);
    roles.insert(UserRole::Unprivileged);
    let token = issue_at(&secret, subject, roles, 1_000_000, 3600);
    let claims = decode_at(&secret, token.as_str(), 1_000_500).expect("valid token");
    assert_eq!(claims.subject, subject);
    assert_eq!(claims.roles, roles);
    assert_eq!(claims.issued_at, 1_000_000);
    assert_eq!(claims.expires_at, 1_003_600);
}

#[test]
fn round_trip_with_clock() {
    let secret = test_secret();
    let subject = UserUuid(42);
    let roles = publisher_roles();
    let token = issue(&secret, subject, roles, 3600);
    let claims = decode(&secret, token.as_str()).expect("fresh token is valid");
    assert_eq!(claims.subject, subject);
    assert_eq!(claims.roles, roles);
    assert_eq!(claims.expires_at, claims.issued_at + 3600);
}

#[test]
fn round_trip_empty_role_set() {
    let secret = test_secret();
    let subject = UserUuid(7);
    let token = issue_at(&secret, subject, RoleSet::empty(), 500, 100);
    let claims = decode_at(&secret, token.as_str(), 599).expect("valid token");
    assert_eq!(claims.roles, RoleSet::empty());
    assert!(!claims.roles.contains(UserRole::Admin));
}

#[test]
fn zero_ttl_token_is_expired_at_issuance() {
    let secret = test_secret();
    let token = issue_at(&secret, UserUuid(1), publisher_roles(), 1_000, 0);
    assert_eq!(
        decode_at(&secret, token.as_str(), 1_000),
        Err(WeekendAtJoesError::ExpiredToken)
    );
    assert_eq!(
        decode_at(&secret, token.as_str(), 2_000),
        Err(WeekendAtJoesError::ExpiredToken)
    );
}

#[test]
fn expiry_boundary_is_exclusive() {
    let secret = test_secret();
    let token = issue_at(&secret, UserUuid(1), publisher_roles(), 1_000, 60);
    assert!(decode_at(&secret, token.as_str(), 1_059).is_ok());
    assert_eq!(
        decode_at(&secret, token.as_str(), 1_060),
        Err(WeekendAtJoesError::ExpiredToken)
    );
}

#[test]
fn every_bit_flip_in_payload_is_rejected() {
    let secret = test_secret();
    let token = issue_at(&secret, UserUuid(0xdead_beef), publisher_roles(), 1_000, 3600);
    let bytes = token.as_bytes();
    for pos in 0..65 {
        for bit in 0..8 {
            let mut tampered = bytes.to_vec();
            tampered[pos] ^= 1 << bit;
            let tampered = String::from_utf8_lossy(&tampered).into_owned();
            assert_eq!(
                decode_at(&secret, tampered.as_str(), 1_001),
                Err(WeekendAtJoesError::IllegalToken),
                "payload byte {} bit {} accepted",
                pos,
                bit
            );
        }
    }
}

#[test]
fn every_bit_flip_in_signature_is_rejected() {
    let secret = test_secret();
    let token = issue_at(&secret, UserUuid(0xdead_beef), publisher_roles(), 1_000, 3600);
    let bytes = token.as_bytes();
    for pos in 65..bytes.len() {
        for bit in 0..8 {
            let mut tampered = bytes.to_vec();
            tampered[pos] ^= 1 << bit;
            let tampered = String::from_utf8_lossy(&tampered).into_owned();
            assert_eq!(
                decode_at(&secret, tampered.as_str(), 1_001),
                Err(WeekendAtJoesError::IllegalToken),
                "signature byte {} bit {} accepted",
                pos,
                bit
            );
        }
    }
}

#[test]
fn token_of_one_key_fails_under_another() {
    let secret = test_secret();
    let token = issue_at(&secret, UserUuid(3), publisher_roles(), 1_000, 3600);
    assert_eq!(
        decode_at(&other_secret(), token.as_str(), 1_001),
        Err(WeekendAtJoesError::IllegalToken)
    );
}

#[test]
fn generated_keys_differ_between_processes_and_calls() {
    let first = Secret::generate();
    let second = Secret::generate();
    let token = issue_at(&first, UserUuid(9), publisher_roles(), 1_000, 3600);
    assert!(decode_at(&first, token.as_str(), 1_001).is_ok());
    assert_eq!(
        decode_at(&second, token.as_str(), 1_001),
        Err(WeekendAtJoesError::IllegalToken)
    );
}

#[test]
fn malformed_tokens_are_illegal() {
    let secret = test_secret();
    assert_eq!(
        decode_at(&secret, "", 0),
        Err(WeekendAtJoesError::IllegalToken)
    );
    assert_eq!(
        decode_at(&secret, "not-a-token", 0),
        Err(WeekendAtJoesError::IllegalToken)
    );
    let no_separator = "0".repeat(130);
    assert_eq!(
        decode_at(&secret, no_separator.as_str(), 0),
        Err(WeekendAtJoesError::IllegalToken)
    );
}

#[test]
fn truncated_token_is_illegal() {
    let secret = test_secret();
    let token = issue_at(&secret, UserUuid(5), publisher_roles(), 1_000, 3600);
    let truncated = &token.as_str()[..80];
    assert_eq!(
        decode_at(&secret, truncated, 1_001),
        Err(WeekendAtJoesError::IllegalToken)
    );
}

#[test]
fn token_shape_is_payload_dot_signature() {
    let secret = test_secret();
    let token = issue_at(&secret, UserUuid(5), publisher_roles(), 1_000, 3600);
    assert_eq!(token.len(), 130);
    assert_eq!(token.as_bytes()[65], b'.');
    assert!(token.bytes().all(|b| b == b'.' || b.is_ascii_hexdigit()));
}

#[test]
fn clock_reads_after_epoch() {
    assert!(current_unix_time() > 1_500_000_000);
}
