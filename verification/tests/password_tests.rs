use auth::WeekendAtJoesError;
use auth::password::hash_password;
use auth::password::verify_hash;

#[test]
fn verify_accepts_the_hashed_password() {
    let hash = hash_password("correct horse battery staple").expect("hashing succeeds");
    assert_eq!(
        verify_hash("correct horse battery staple", hash.as_str()),
        Ok(true)
    );
}

#[test]
fn verify_refuses_a_different_password() {
    let hash = hash_password("first password").expect("hashing succeeds");
    assert_eq!(verify_hash("second password", hash.as_str()), Ok(false));
    assert_eq!(verify_hash("", hash.as_str()), Ok(false));
    assert_eq!(verify_hash("first password ", hash.as_str()), Ok(false));
}

#[test]
fn two_hashes_of_one_password_differ() {
    let first = hash_password("same password").expect("hashing succeeds");
    let second = hash_password("same password").expect("hashing succeeds");
    assert_ne!(first, second);
    assert_eq!(verify_hash("same password", first.as_str()), Ok(true));
    assert_eq!(verify_hash("same password", second.as_str()), Ok(true));
}

#[test]
fn empty_password_round_trips() {
    let hash = hash_password("").expect("hashing succeeds");
    assert_eq!(verify_hash("", hash.as_str()), Ok(true));
    assert_eq!(verify_hash("x", hash.as_str()), Ok(false));
}

#[test]
fn encoded_hash_is_self_describing() {
    let hash = hash_password("pw").expect("hashing succeeds");
    assert_eq!(hash.len(), 127);
    assert!(hash.starts_with("$scrypt$0a$0000000a$0000000a$"));
    assert!(hash.ends_with('$'));
    let _ = WeekendAtJoesError::HashingFailure;
}

#[test]
fn malformed_hashes_are_errors_not_mismatches() {
    assert!(verify_hash("pw", "").is_err());
    assert!(verify_hash("pw", "$scrypt$").is_err());
    assert!(verify_hash("pw", &"a".repeat(127)).is_err());
    let hash = hash_password("pw").expect("hashing succeeds");
    let mut truncated = hash.clone();
    truncated.pop();
    assert!(verify_hash("pw", truncated.as_str()).is_err());
    let zero_cost = format!("$scrypt$00{}", &hash[10..]);
    assert!(verify_hash("pw", zero_cost.as_str()).is_err());
}

#[test]
fn tampered_digest_field_fails_verification() {
    let hash = hash_password("pw").expect("hashing succeeds");
    let mut bytes = hash.into_bytes();
    let digest_pos = 62;
    bytes[digest_pos] = if bytes[digest_pos] == b'0' { b'1' } else { b'0' };
    let tampered = String::from_utf8(bytes).unwrap();
    assert_eq!(verify_hash("pw", tampered.as_str()), Ok(false));
}
