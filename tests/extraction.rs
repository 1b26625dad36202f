use steam_gid::{Error, GroupData, XmlNode, GID_OFFSET};

const SAMPLE: &str = r#"<?xml version="1.0" encoding="UTF-8" standalone="yes"?>
<memberList>
<groupID64>103582791429521412</groupID64>
<groupDetails>
<groupName><![CDATA[Valve]]></groupName>
<groupURL><![CDATA[Valve]]></groupURL>
<headline><![CDATA[]]></headline>
<avatarFull><![CDATA[https://avatars.example/valve_full.jpg]]></avatarFull>
<memberCount>4</memberCount>
</groupDetails>
<memberCount>4</memberCount>
<totalPages>1</totalPages>
<currentPage>1</currentPage>
<startingMember>0</startingMember>
<members>
<steamID64>76561197960265740</steamID64>
<steamID64>76561197960265731</steamID64>
<steamID64>76561197960265740</steamID64>
<steamID64>76561197960265733</steamID64>
</members>
</memberList>"#;

fn document(id: &str, url: &str, members: &str) -> String {
    format!(
        "<memberList><groupID64>{id}</groupID64><groupDetails><groupName>G</groupName>\
         <groupURL>{url}</groupURL></groupDetails><memberCount>2</memberCount>\
         <members>{members}</members></memberList>"
    )
}

#[test]
fn sample_document() {
    let gd = GroupData::extract(SAMPLE).unwrap();
    assert_eq!(gd.name, "Valve");
    assert_eq!(gd.url.0, "Valve");
    assert_eq!(gd.id_64.0, 103582791429521412);
    assert_eq!(gd.id_8.0, 103582791429521412 - GID_OFFSET);
    assert_eq!(gd.id_8.0, 4);
    assert_eq!(gd.avatar, "https://avatars.example/valve_full.jpg");
    assert_eq!(gd.member_count, 4);
    assert_eq!(gd.members, vec![76561197960265731, 76561197960265733, 76561197960265740]);
}

#[test]
fn duplicate_members_removed_and_sorted() {
    let xml = document(
        "103582791429521412",
        "g",
        "<steamID64>9</steamID64><steamID64>3</steamID64><steamID64>9</steamID64>\
         <other>1</other><steamID64>3</steamID64><steamID64>5</steamID64>",
    );
    let members = GroupData::extract(&xml).unwrap().members;
    assert_eq!(members, vec![3, 5, 9]);
}

#[test]
fn empty_member_list() {
    let xml = document("103582791429521412", "g", "");
    let gd = GroupData::extract(&xml).unwrap();
    assert!(gd.members.is_empty());
    assert_eq!(gd.avatar, "");
}

#[test]
fn missing_member_list() {
    let r = GroupData::extract("<group><groupID64>1</groupID64></group>");
    assert!(matches!(r, Err(Error::FieldNotFound("memberList"))));
}

#[test]
fn group_id_not_a_number() {
    let xml = document("abc", "g", "");
    assert!(matches!(GroupData::extract(&xml), Err(Error::FieldInvalid("groupID64"))));
}

#[test]
fn group_id_below_offset() {
    let xml = document("4", "g", "");
    assert!(matches!(GroupData::extract(&xml), Err(Error::FieldInvalid("groupID64"))));
}

#[test]
fn group_url_invalid() {
    let xml = document("103582791429521412", "a/b", "");
    assert!(matches!(GroupData::extract(&xml), Err(Error::FieldInvalid("groupURL"))));
}

#[test]
fn group_id_empty() {
    let xml = document("", "g", "");
    assert!(matches!(GroupData::extract(&xml), Err(Error::FieldEmpty("groupID64"))));
}

#[test]
fn member_count_invalid() {
    let xml = "<memberList><groupID64>103582791429521412</groupID64><memberCount>-1</memberCount>\
               <groupDetails><groupName>G</groupName><groupURL>g</groupURL></groupDetails>\
               <members/></memberList>";
    assert!(matches!(GroupData::extract(xml), Err(Error::FieldInvalid("memberCount"))));
}

#[test]
fn missing_members_container() {
    let xml = "<memberList><groupID64>103582791429521412</groupID64></memberList>";
    assert!(matches!(GroupData::extract(xml), Err(Error::FieldNotFound("members"))));
}

#[test]
fn missing_group_details() {
    let xml = "<memberList><groupID64>103582791429521412</groupID64><memberCount>1</memberCount>\
               <members/></memberList>";
    assert!(matches!(GroupData::extract(xml), Err(Error::FieldNotFound("groupDetails"))));
}

#[test]
fn member_id_invalid() {
    let xml = document("103582791429521412", "g", "<steamID64>1</steamID64><steamID64>x</steamID64>");
    assert!(matches!(GroupData::extract(&xml), Err(Error::FieldInvalid("steamID64"))));
}

#[test]
fn member_id_empty() {
    let xml = document("103582791429521412", "g", "<steamID64></steamID64>");
    assert!(matches!(GroupData::extract(&xml), Err(Error::FieldEmpty("steamID64"))));
}

#[test]
fn malformed_document() {
    assert!(matches!(GroupData::extract("<memberList>"), Err(Error::Parse(_))));
}

fn node(id: usize, parent: Option<usize>, tag: &str, text: Option<&str>) -> XmlNode {
    XmlNode {
        id,
        parent,
        element: parent.is_some(),
        tag: tag.to_string(),
        text: text.map(|t| t.to_string()),
    }
}

#[test]
fn members_from_nodes() {
    let nodes = vec![
        node(0, None, "", None),
        node(1, Some(0), "memberList", None),
        node(2, Some(1), "members", None),
        node(3, Some(2), "steamID64", Some("20")),
        node(4, Some(2), "steamID64", Some("10")),
        node(5, Some(1), "steamID64", Some("99")),
        node(6, Some(2), "steamID64", Some("20")),
    ];
    assert_eq!(GroupData::extract_members(&nodes).unwrap(), vec![10, 20]);
}

#[test]
fn group_info_from_nodes() {
    let nodes = vec![
        node(0, None, "", None),
        node(1, Some(0), "memberList", None),
        node(2, Some(1), "groupID64", Some("103582791429521500")),
        node(3, Some(1), "memberCount", Some("7")),
        node(4, Some(1), "groupDetails", None),
        node(5, Some(4), "groupURL", Some("abc")),
        node(6, Some(4), "groupName", Some("Abc Group")),
        node(7, Some(4), "avatarFull", None),
        node(8, Some(1), "members", None),
    ];
    let gd = GroupData::from_nodes(&nodes).unwrap();
    assert_eq!(gd.id_8.0, 92);
    assert_eq!(gd.name, "Abc Group");
    assert_eq!(gd.url.0, "abc");
    assert_eq!(gd.avatar, "");
    assert_eq!(gd.member_count, 7);
    assert!(gd.members.is_empty());
    let info = GroupData::extract_group_info(&nodes).unwrap();
    assert_eq!(info.id_64.0, 103582791429521500);
}
