use auth::JoeResult;
use auth::VectorMappable;
use auth::WeekendAtJoesError;
use auth::banned::BanTable;
use auth::banned::BannedSet;
use auth::identifiers::UserUuid;
use auth::roles::RoleSet;
use auth::roles::UserRole;

#[test]
fn role_identifiers_round_trip() {
    for role in [
        UserRole::Unprivileged,
        UserRole::Moderator,
        UserRole::Publisher,
        UserRole::Admin,
    ] {
        assert_eq!(UserRole::from_id(role.id()), Some(role));
    }
    assert_eq!(UserRole::from_id(0), None);
    assert_eq!(UserRole::from_id(5), None);
    assert_eq!(UserRole::from_id(-1), None);
}

#[test]
fn role_set_membership_and_mask() {
    let mut roles = RoleSet::empty();
    assert_eq!(roles.mask(), 0);
    roles.insert(UserRole::Admin);
    roles.insert(UserRole::Publisher);
    assert!(roles.contains(UserRole::Admin));
    assert!(roles.contains(UserRole::Publisher));
    assert!(!roles.contains(UserRole::Moderator));
    roles.insert(UserRole::Admin);
    assert_eq!(roles.mask(), 8 + 4);
    roles.remove(UserRole::Admin);
    assert!(!roles.contains(UserRole::Admin));
    assert_eq!(roles.mask(), 4);
}

#[test]
fn role_set_mask_round_trips() {
    for mask in 0u8..16 {
        assert_eq!(RoleSet::from_mask(mask).mask(), mask);
    }
}

#[test]
fn ban_table_tracks_membership() {
    let mut table = BanTable::new();
    let alice = UserUuid(1);
    let bob = UserUuid(2);
    assert!(!table.is_banned(&alice));
    table.ban(alice);
    table.ban(alice);
    assert!(table.is_banned(&alice));
    assert!(!table.is_banned(&bob));
    table.unban(&alice);
    assert!(!table.is_banned(&alice));
    table.unban(&bob);
    assert!(!table.is_banned(&bob));
}

#[test]
fn shared_registry_tracks_membership() {
    let registry = BannedSet::new();
    let user = UserUuid(9);
    assert!(!registry.is_banned(&user));
    registry.ban_user(user);
    assert!(registry.is_banned(&user));
    registry.unban_user(&user);
    assert!(!registry.is_banned(&user));
}

#[test]
fn status_codes_match_the_web_layer_mapping() {
    assert_eq!(WeekendAtJoesError::MissingToken.status_code(), 401);
    assert_eq!(WeekendAtJoesError::IllegalToken.status_code(), 401);
    assert_eq!(WeekendAtJoesError::ExpiredToken.status_code(), 401);
    assert_eq!(
        WeekendAtJoesError::NotAuthorized { reason: "banned" }.status_code(),
        403
    );
    assert_eq!(
        WeekendAtJoesError::NotFound { entity_name: "Thread" }.status_code(),
        404
    );
    assert_eq!(WeekendAtJoesError::BadRequest.status_code(), 400);
    assert_eq!(WeekendAtJoesError::ThreadLocked.status_code(), 405);
    assert_eq!(WeekendAtJoesError::DatabaseError(None).status_code(), 500);
    assert_eq!(WeekendAtJoesError::InternalServerError.status_code(), 500);
    assert_eq!(WeekendAtJoesError::HashingFailure.status_code(), 500);
}

#[test]
fn messages_match_the_web_layer_bodies() {
    assert_eq!(
        WeekendAtJoesError::MissingToken.message(),
        "Login token not supplied."
    );
    assert_eq!(
        WeekendAtJoesError::ExpiredToken.message(),
        "Login token has expired."
    );
    assert_eq!(
        WeekendAtJoesError::IllegalToken.message(),
        "Login token's contents do not match its signature."
    );
    assert_eq!(
        WeekendAtJoesError::NotAuthorized { reason: "banned" }.message(),
        "banned"
    );
    assert_eq!(
        WeekendAtJoesError::NotFound { entity_name: "Thread" }.message(),
        "Could not find requested Thread"
    );
    assert_eq!(WeekendAtJoesError::DatabaseError(None).message(), "Database Error");
    assert_eq!(
        WeekendAtJoesError::DatabaseError(Some("no connection".to_owned())).message(),
        "Database Error"
    );
    assert_eq!(WeekendAtJoesError::BadRequest.message(), "Malformed request");
}

#[test]
fn convert_inner_vec_maps_elements_in_order() {
    let ok: JoeResult<Vec<u8>> = Ok(vec![1, 2, 3]);
    let widened: JoeResult<Vec<u32>> = ok.convert_inner_vec();
    assert_eq!(widened, Ok(vec![1u32, 2, 3]));

    let empty: JoeResult<Vec<u8>> = Ok(Vec::new());
    assert_eq!(empty.convert_inner_vec::<u32>(), Ok(Vec::new()));

    let failed: JoeResult<Vec<u8>> = Err(WeekendAtJoesError::BadRequest);
    assert_eq!(
        failed.convert_inner_vec::<u32>(),
        Err(WeekendAtJoesError::BadRequest)
    );
}
