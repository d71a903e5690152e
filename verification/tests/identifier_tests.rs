use auth::WeekendAtJoesError;
use auth::identifiers::UserUuid;

#[test]
fn formats_in_hyphenated_lower_case() {
    let u = UserUuid(0x0123_4567_89ab_cdef_0123_4567_89ab_cdef);
    assert_eq!(u.to_string(), "01234567-89ab-cdef-0123-456789abcdef");
    assert_eq!(UserUuid(0).to_string(), "00000000-0000-0000-0000-000000000000");
    assert_eq!(
        UserUuid(u128::MAX).to_string(),
        "ffffffff-ffff-ffff-ffff-ffffffffffff"
    );
}

#[test]
fn parse_inverts_format() {
    let u = UserUuid(0xdead_beef_0000_0001_0000_0002_0000_0003);
    assert_eq!(UserUuid::parse_str(u.to_string().as_str()), Ok(u));
}

#[test]
fn parse_accepts_upper_case_digits() {
    assert_eq!(
        UserUuid::parse_str("01234567-89AB-CDEF-0123-456789ABCDEF"),
        Ok(UserUuid(0x0123_4567_89ab_cdef_0123_4567_89ab_cdef))
    );
}

#[test]
fn parse_refuses_wrong_shapes() {
    for bad in [
        "",
        "0123456789abcdef0123456789abcdef",
        "01234567-89ab-cdef-0123-456789abcde",
        "01234567-89ab-cdef-0123-456789abcdef0",
        "01234567_89ab_cdef_0123_456789abcdef",
        "0123456g-89ab-cdef-0123-456789abcdef",
        "01234567-89ab-cdef-0123-45678-abcdef",
    ] {
        assert_eq!(
            UserUuid::parse_str(bad),
            Err(WeekendAtJoesError::BadRequest),
            "accepted {:?}",
            bad
        );
    }
}

#[test]
fn query_parameter_carries_the_identifier() {
    let u = UserUuid(0x0123_4567_89ab_cdef_0123_4567_89ab_cdef);
    assert_eq!(
        u.to_query_parameter(),
        "user_uuid=01234567-89ab-cdef-0123-456789abcdef"
    );
}
