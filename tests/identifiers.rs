use steam_gid::{
    GroupId64, GroupId8, GroupIdentifier, GroupUrl, IdError, IdentifierError, ToLink, UrlError,
    GID_OFFSET,
};

#[test]
fn offset_value() {
    assert_eq!(GID_OFFSET, 103582791429521408);
}

#[test]
fn short_id_converts_to_canonical() {
    for v in [0u64, 1, 4, 12345, GID_OFFSET - 1] {
        let id8 = GroupId8::try_from(v).unwrap();
        assert_eq!(id8, GroupId8(v));
        assert_eq!(GroupId64::from_id8(id8), Ok(GroupId64(v + GID_OFFSET)));
    }
}

#[test]
fn short_id_rejects_offset_and_above() {
    assert_eq!(GroupId8::try_from(GID_OFFSET), Err(IdError::OutOfRange));
    assert_eq!(GroupId8::try_from(u64::MAX), Err(IdError::OutOfRange));
}

#[test]
fn canonical_id_converts_to_short() {
    for v in [GID_OFFSET, GID_OFFSET + 4, u64::MAX] {
        let id64 = GroupId64::try_from(v).unwrap();
        assert_eq!(id64, GroupId64(v));
        let id8 = GroupId8::from_id64(id64).unwrap();
        assert_eq!(id8, GroupId8(v - GID_OFFSET));
        assert_eq!(GroupId64::from_id8(id8), Ok(id64));
        assert_eq!(GroupId8::from_id64(GroupId64::from_id8(id8).unwrap()), Ok(id8));
    }
}

#[test]
fn canonical_id_rejects_below_offset() {
    assert_eq!(GroupId64::try_from(GID_OFFSET - 1), Err(IdError::OutOfRange));
    assert_eq!(GroupId64::try_from(0), Err(IdError::OutOfRange));
    assert_eq!(GroupId8::from_id64(GroupId64(3)), Err(IdError::OutOfRange));
}

#[test]
fn short_to_canonical_overflow() {
    assert_eq!(GroupId64::from_id8(GroupId8(u64::MAX)), Err(IdError::OutOfRange));
}

#[test]
fn parse_canonical_number() {
    let r = GroupIdentifier::from_str("103582791429521412").unwrap();
    assert!(matches!(r, GroupIdentifier::Id64(GroupId64(103582791429521412))));
}

#[test]
fn parse_short_number() {
    let r = GroupIdentifier::from_str("4").unwrap();
    assert!(matches!(r, GroupIdentifier::Id8(GroupId8(4))));
}

#[test]
fn parse_offset_itself_is_canonical() {
    let r = GroupIdentifier::from_str("103582791429521408").unwrap();
    assert!(matches!(r, GroupIdentifier::Id64(GroupId64(GID_OFFSET))));
}

#[test]
fn parse_plus_sign_and_leading_zeros() {
    assert!(matches!(GroupIdentifier::from_str("+4"), Ok(GroupIdentifier::Id8(GroupId8(4)))));
    assert!(matches!(GroupIdentifier::from_str("007"), Ok(GroupIdentifier::Id8(GroupId8(7)))));
}

#[test]
fn parse_number_too_large_is_a_suffix() {
    let r = GroupIdentifier::from_str("18446744073709551616").unwrap();
    match r {
        GroupIdentifier::Url(u) => assert_eq!(u.0, "18446744073709551616"),
        _ => panic!("expected a suffix"),
    }
}

#[test]
fn parse_https_url() {
    match GroupIdentifier::from_str("https://steamcommunity.com/groups/valve").unwrap() {
        GroupIdentifier::Url(u) => assert_eq!(u.0, "valve"),
        _ => panic!("expected a suffix"),
    }
}

#[test]
fn parse_http_and_bare_urls() {
    for s in ["http://steamcommunity.com/groups/my-group_1", "steamcommunity.com/groups/my-group_1"] {
        match GroupIdentifier::from_str(s).unwrap() {
            GroupIdentifier::Url(u) => assert_eq!(u.0, "my-group_1"),
            _ => panic!("expected a suffix"),
        }
    }
}

#[test]
fn parse_url_with_bad_suffix() {
    assert!(matches!(
        GroupIdentifier::from_str("https://steamcommunity.com/groups/valve/members"),
        Err(IdentifierError::Url(UrlError::InvalidSuffix))
    ));
    assert!(matches!(
        GroupIdentifier::from_str("https://steamcommunity.com/groups/"),
        Err(IdentifierError::Url(UrlError::InvalidSuffix))
    ));
}

#[test]
fn parse_bare_suffix() {
    match GroupIdentifier::from_str("valve").unwrap() {
        GroupIdentifier::Url(u) => assert_eq!(u.0, "valve"),
        _ => panic!("expected a suffix"),
    }
}

#[test]
fn parse_unrecognized() {
    assert!(matches!(GroupIdentifier::from_str("not a valid url!"), Err(IdentifierError::Unrecognized)));
    assert!(matches!(GroupIdentifier::from_str(""), Err(IdentifierError::Unrecognized)));
    assert!(matches!(GroupIdentifier::from_str(" 4"), Err(IdentifierError::Unrecognized)));
    assert!(matches!(GroupIdentifier::from_str("valve "), Err(IdentifierError::Unrecognized)));
}

#[test]
fn suffix_validation() {
    assert_eq!(GroupUrl::from_str("Valve_2-x").unwrap().0, "Valve_2-x");
    assert!(matches!(GroupUrl::from_str("a/b"), Err(UrlError::InvalidSuffix)));
    assert!(matches!(GroupUrl::from_str(""), Err(UrlError::InvalidSuffix)));
    assert!(matches!(GroupUrl::from_str("a b"), Err(UrlError::InvalidSuffix)));
}

#[test]
fn links_of_canonical_id() {
    let id = GroupId64(103582791429521412);
    assert_eq!(id.to_link(), "https://steamcommunity.com/gid/103582791429521412");
    assert_eq!(
        id.to_xml_link(),
        "https://steamcommunity.com/gid/103582791429521412/memberslistxml/?xml=1"
    );
}

#[test]
fn links_of_short_id_use_canonical_id() {
    let id = GroupIdentifier::Id8(GroupId8(4));
    assert_eq!(id.to_link(), "https://steamcommunity.com/gid/103582791429521412");
    assert_eq!(
        id.to_xml_link(),
        "https://steamcommunity.com/gid/103582791429521412/memberslistxml/?xml=1"
    );
}

#[test]
fn links_of_suffix() {
    let id = GroupIdentifier::Url(GroupUrl("valve".to_string()));
    assert_eq!(id.to_link(), "https://steamcommunity.com/groups/valve");
    assert_eq!(
        id.to_xml_link(),
        "https://steamcommunity.com/groups/valve/memberslistxml/?xml=1"
    );
}
