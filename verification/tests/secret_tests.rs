use auth::identifiers::UserUuid;
use auth::roles::RoleSet;
use auth::secret::MINIMUM_SECRET_LENGTH;
use auth::secret::RECOMMENDED_SECRET_LENGTH;
use auth::secret::Secret;
use auth::secret::SecretStrength;
use auth::token::decode_at;
use auth::token::issue_at;

#[test]
fn sixty_four_byte_operator_secret_is_fatal() {
    assert_eq!(Secret::strength_of_length(64), SecretStrength::Fatal);
}

#[test]
fn two_hundred_byte_operator_secret_starts_with_a_warning() {
    assert_eq!(
        Secret::strength_of_length(200),
        SecretStrength::BelowRecommended
    );
}

#[test]
fn recommended_length_secret_is_strong() {
    assert_eq!(Secret::strength_of_length(256), SecretStrength::Strong);
    assert_eq!(Secret::strength_of_length(1000), SecretStrength::Strong);
}

#[test]
fn policy_thresholds_sit_exactly_at_the_limits() {
    assert_eq!(MINIMUM_SECRET_LENGTH, 128);
    assert_eq!(RECOMMENDED_SECRET_LENGTH, 256);
    assert_eq!(Secret::strength_of_length(127), SecretStrength::Fatal);
    assert_eq!(
        Secret::strength_of_length(128),
        SecretStrength::BelowRecommended
    );
    assert_eq!(
        Secret::strength_of_length(255),
        SecretStrength::BelowRecommended
    );
    assert_eq!(Secret::strength_of_length(256), SecretStrength::Strong);
}

#[test]
fn accepted_operator_secret_signs_working_tokens() {
    let secret = Secret::from_user_supplied_string("k".repeat(200));
    let token = issue_at(&secret, UserUuid(1), RoleSet::empty(), 100, 50);
    assert!(decode_at(&secret, token.as_str(), 120).is_ok());
}

#[test]
fn generated_secret_signs_working_tokens() {
    let secret = Secret::generate();
    let token = issue_at(&secret, UserUuid(1), RoleSet::empty(), 100, 50);
    assert!(decode_at(&secret, token.as_str(), 120).is_ok());
}
