use auth::WeekendAtJoesError;
use auth::banned::BanTable;
use auth::banned::BannedSet;
use auth::guard::authorize;
use auth::guard::authorize_with_table;
use auth::identifiers::UserUuid;
use auth::roles::RoleSet;
use auth::roles::UserRole;
use auth::secret::Secret;
use auth::token::issue;
use auth::token::issue_at;

fn test_secret() -> Secret {
    Secret::from_user_supplied_string("0123456789abcdef".repeat(16))
}

fn publisher_roles() -> RoleSet {
    let mut roles = RoleSet::empty();
    roles.insert(UserRole::Publisher);
    roles
}

#[test]
fn missing_token_is_refused_first() {
    let secret = test_secret();
    let banned = BannedSet::new();
    assert_eq!(
        authorize(&secret, None, &banned, None),
        Err(WeekendAtJoesError::MissingToken)
    );
    assert_eq!(
        authorize(&secret, None, &banned, Some(UserRole::Admin)),
        Err(WeekendAtJoesError::MissingToken)
    );
}

#[test]
fn valid_token_yields_capability() {
    let secret = test_secret();
    let banned = BannedSet::new();
    let subject = UserUuid(11);
    let token = issue(&secret, subject, publisher_roles(), 3600);
    let cap = authorize(&secret, Some(token.as_str()), &banned, None).expect("authorized");
    assert_eq!(cap.subject, subject);
    assert_eq!(cap.roles, publisher_roles());
}

#[test]
fn ban_precedence_overrides_valid_token() {
    let secret = test_secret();
    let banned = BannedSet::new();
    let subject = UserUuid(11);
    let token = issue(&secret, subject, publisher_roles(), 3600);
    assert!(authorize(&secret, Some(token.as_str()), &banned, None).is_ok());
    banned.ban_user(subject);
    assert_eq!(
        authorize(&secret, Some(token.as_str()), &banned, None),
        Err(WeekendAtJoesError::NotAuthorized { reason: "banned" })
    );
    assert_eq!(
        authorize(&secret, Some(token.as_str()), &banned, Some(UserRole::Publisher)),
        Err(WeekendAtJoesError::NotAuthorized { reason: "banned" })
    );
}

#[test]
fn unban_reversal_restores_access() {
    let secret = test_secret();
    let banned = BannedSet::new();
    let subject = UserUuid(11);
    let token = issue(&secret, subject, publisher_roles(), 3600);
    banned.ban_user(subject);
    assert!(authorize(&secret, Some(token.as_str()), &banned, None).is_err());
    banned.unban_user(&subject);
    let cap = authorize(&secret, Some(token.as_str()), &banned, None).expect("unbanned again");
    assert_eq!(cap.subject, subject);
}

#[test]
fn publisher_passes_any_user_but_not_admin_guard() {
    let secret = test_secret();
    let banned = BannedSet::new();
    let subject = UserUuid(21);
    let token = issue(&secret, subject, publisher_roles(), 3600);
    assert!(authorize(&secret, Some(token.as_str()), &banned, None).is_ok());
    assert!(authorize(&secret, Some(token.as_str()), &banned, Some(UserRole::Publisher)).is_ok());
    assert_eq!(
        authorize(&secret, Some(token.as_str()), &banned, Some(UserRole::Admin)),
        Err(WeekendAtJoesError::NotAuthorized { reason: "insufficient role" })
    );
}

#[test]
fn decode_errors_propagate_through_guard() {
    let secret = test_secret();
    let banned = BannedSet::new();
    assert_eq!(
        authorize(&secret, Some("garbage"), &banned, None),
        Err(WeekendAtJoesError::IllegalToken)
    );
    let expired = issue(&secret, UserUuid(3), publisher_roles(), 0);
    assert_eq!(
        authorize(&secret, Some(expired.as_str()), &banned, None),
        Err(WeekendAtJoesError::ExpiredToken)
    );
}

#[test]
fn table_snapshot_guard_is_deterministic() {
    let secret = test_secret();
    let subject = UserUuid(77);
    let token = issue_at(&secret, subject, publisher_roles(), 1_000, 600);
    let mut table = BanTable::new();
    let cap = authorize_with_table(&secret, Some(token.as_str()), &table, None, 1_100)
        .expect("not banned yet");
    assert_eq!(cap.subject, subject);
    table.ban(subject);
    assert_eq!(
        authorize_with_table(&secret, Some(token.as_str()), &table, None, 1_100),
        Err(WeekendAtJoesError::NotAuthorized { reason: "banned" })
    );
    assert_eq!(
        authorize_with_table(&secret, Some(token.as_str()), &table, None, 2_000),
        Err(WeekendAtJoesError::ExpiredToken)
    );
}
