//! Extraction of a group's record from its member-list document.
use vstd::prelude::*;

use crate::steam::{is_suffix, GroupId64, GroupId8, GroupUrl, GID_OFFSET};
use crate::text::{parse_u64, parse_u64_spec, str_eq};
use crate::xml::{
    find_child, find_child_index, is_child_tagged, nodes_view, parse_xml, parsed_xml, XmlNode,
    XmlNodeView,
};

verus! {

pub const MEMBER_LIST: &'static str = "memberList";
pub const GROUP_ID64: &'static str = "groupID64";
pub const MEMBER_COUNT: &'static str = "memberCount";
pub const GROUP_DETAILS: &'static str = "groupDetails";
pub const GROUP_URL: &'static str = "groupURL";
pub const GROUP_NAME: &'static str = "groupName";
pub const AVATAR_FULL: &'static str = "avatarFull";
pub const MEMBERS: &'static str = "members";
pub const STEAM_ID64: &'static str = "steamID64";

/// Why a document could not be read as a group record.
#[derive(Debug)]
pub enum Error {
    FieldNotFound(&'static str),
    FieldEmpty(&'static str),
    FieldInvalid(&'static str),
    Parse(String),
}

/// A group's record, as its member-list document gives it.
pub struct GroupData {
    pub name: String,
    pub id_8: GroupId8,
    pub id_64: GroupId64,
    pub url: GroupUrl,
    pub avatar: String,
    pub member_count: usize,
    pub members: Vec<u64>,
}

/// The fields of a group's record that its document's metadata gives.
pub ghost struct GroupInfoView {
    pub name: Seq<char>,
    pub id_64: u64,
    pub url: Seq<char>,
    pub avatar: Seq<char>,
    pub member_count: usize,
}

/// The id of the document root: the first node.
pub open spec fn root_id(ns: Seq<XmlNodeView>) -> usize {
    ns[0].id
}

/// The first child of node `parent` named `tag`.
pub open spec fn tag_spec(ns: Seq<XmlNodeView>, parent: usize, tag: &'static str) -> Result<int, Error> {
    match find_child(ns, parent, tag@) {
        Some(i) => Ok(i),
        None => Err(Error::FieldNotFound(tag)),
    }
}

/// The `memberList` element under the document root.
pub open spec fn member_list_spec(ns: Seq<XmlNodeView>) -> Result<int, Error> {
    if ns.len() == 0 {
        Err(Error::FieldNotFound(MEMBER_LIST))
    } else {
        tag_spec(ns, root_id(ns), MEMBER_LIST)
    }
}

/// The text of the first child of node `parent` named `tag`.
pub open spec fn text_spec(ns: Seq<XmlNodeView>, parent: usize, tag: &'static str) -> Result<Seq<char>, Error> {
    match find_child(ns, parent, tag@) {
        Some(i) => match ns[i].text {
            Some(t) => Ok(t),
            None => Err(Error::FieldEmpty(tag)),
        },
        None => Err(Error::FieldNotFound(tag)),
    }
}

/// The text of an optional child: empty where the child or its text is missing.
pub open spec fn optional_text_spec(ns: Seq<XmlNodeView>, parent: usize, tag: &'static str) -> Seq<char> {
    match text_spec(ns, parent, tag) {
        Ok(t) => t,
        Err(_) => Seq::empty(),
    }
}

/// The ids of the `steamID64` children of node `parent`, from index `k` on,
/// in document order; the first one without text or not a number fails.
pub open spec fn member_ids_from(ns: Seq<XmlNodeView>, parent: usize, k: int) -> Result<Seq<u64>, Error>
    decreases ns.len() - k,
{
    if 0 <= k < ns.len() {
        if is_child_tagged(ns, k, parent, STEAM_ID64@) {
            match ns[k].text {
                None => Err(Error::FieldEmpty(STEAM_ID64)),
                Some(t) => match parse_u64_spec(t) {
                    None => Err(Error::FieldInvalid(STEAM_ID64)),
                    Some(v) => prepend(seq![v], member_ids_from(ns, parent, k + 1)),
                },
            }
        } else {
            member_ids_from(ns, parent, k + 1)
        }
    } else {
        Ok(Seq::empty())
    }
}

pub open spec fn prepend(a: Seq<u64>, r: Result<Seq<u64>, Error>) -> Result<Seq<u64>, Error> {
    match r {
        Ok(s) => Ok(a + s),
        Err(e) => Err(e),
    }
}

/// The member ids that the document lists, in document order.
pub open spec fn members_spec(ns: Seq<XmlNodeView>) -> Result<Seq<u64>, Error> {
    match member_list_spec(ns) {
        Err(e) => Err(e),
        Ok(ml) => match tag_spec(ns, ns[ml].id, MEMBERS) {
            Err(e) => Err(e),
            Ok(m) => member_ids_from(ns, ns[m].id, 0),
        },
    }
}

/// Strictly ascending, so without repeats.
pub open spec fn strictly_ascending(s: Seq<u64>) -> bool {
    forall|i: int, j: int| 0 <= i < j < s.len() ==> s[i] < s[j]
}

/// `v` holds the values of `raw`, each once, in ascending order.
pub open spec fn sorted_unique_of(v: Seq<u64>, raw: Seq<u64>) -> bool {
    strictly_ascending(v) && forall|x: u64| v.contains(x) <==> raw.contains(x)
}

/// The declared member count: a number that fits in `usize`.
pub open spec fn member_count_spec(text: Seq<char>) -> Result<usize, Error> {
    match parse_u64_spec(text) {
        Some(count) if count <= usize::MAX => Ok(count as usize),
        _ => Err(Error::FieldInvalid(MEMBER_COUNT)),
    }
}

/// What `groupDetails` gives, once the id and the count have been read:
/// `groupURL` and `groupName` are required, then the id's range and the
/// suffix's form are checked; `avatarFull` is optional.
pub open spec fn details_spec(ns: Seq<XmlNodeView>, did: usize, id: u64, count: usize) -> Result<GroupInfoView, Error> {
    match text_spec(ns, did, GROUP_URL) {
        Err(e) => Err(e),
        Ok(url) => match text_spec(ns, did, GROUP_NAME) {
            Err(e) => Err(e),
            Ok(name) => if id < GID_OFFSET {
                Err(Error::FieldInvalid(GROUP_ID64))
            } else if !is_suffix(url) {
                Err(Error::FieldInvalid(GROUP_URL))
            } else {
                Ok(
                    GroupInfoView {
                        name,
                        id_64: id,
                        url,
                        avatar: optional_text_spec(ns, did, AVATAR_FULL),
                        member_count: count,
                    },
                )
            },
        },
    }
}

/// The group's metadata: `groupID64`, `memberCount` and `groupDetails`
/// under `memberList`, read in that order.
pub open spec fn group_info_spec(ns: Seq<XmlNodeView>) -> Result<GroupInfoView, Error> {
    match member_list_spec(ns) {
        Err(e) => Err(e),
        Ok(ml) => {
            let mid = ns[ml].id;
            match text_spec(ns, mid, GROUP_ID64) {
                Err(e) => Err(e),
                Ok(id_text) => match parse_u64_spec(id_text) {
                    None => Err(Error::FieldInvalid(GROUP_ID64)),
                    Some(id) => match text_spec(ns, mid, MEMBER_COUNT) {
                        Err(e) => Err(e),
                        Ok(count_text) => match member_count_spec(count_text) {
                            Err(e) => Err(e),
                            Ok(count) => match tag_spec(ns, mid, GROUP_DETAILS) {
                                Err(e) => Err(e),
                                Ok(gd) => details_spec(ns, ns[gd].id, id, count),
                            },
                        },
                    },
                },
            }
        },
    }
}

/// `d` carries the metadata `g`, with the short id derived from the canonical one.
pub open spec fn carries_info(d: GroupData, g: GroupInfoView) -> bool {
    &&& d.name@ == g.name
    &&& d.id_64 == GroupId64(g.id_64)
    &&& d.id_8 == GroupId8((g.id_64 - GID_OFFSET) as u64)
    &&& d.url.0@ == g.url
    &&& d.avatar@ == g.avatar
    &&& d.member_count == g.member_count
}

/// What reading the document's nodes gives: the member list is read first,
/// then the metadata; the first failure is the result.
pub open spec fn record_of(ns: Seq<XmlNodeView>, r: Result<GroupData, Error>) -> bool {
    match members_spec(ns) {
        Err(e) => r == Err::<GroupData, Error>(e),
        Ok(raw) => match group_info_spec(ns) {
            Err(e) => r == Err::<GroupData, Error>(e),
            Ok(g) => r matches Ok(d) && carries_info(d, g) && sorted_unique_of(d.members@, raw),
        },
    }
}

fn find_tag(ns: &Vec<XmlNode>, parent: usize, tag: &'static str) -> (r: Result<usize, Error>)
    ensures
        match r {
            Ok(i) => tag_spec(nodes_view(ns@), parent, tag) == Ok::<int, Error>(i as int),
            Err(e) => tag_spec(nodes_view(ns@), parent, tag) == Err::<int, Error>(e),
        },
        r matches Ok(i) ==> i < ns@.len(),
{
    match find_child_index(ns, parent, tag) {
        Some(i) => Ok(i),
        None => Err(Error::FieldNotFound(tag)),
    }
}

fn find_member_list(ns: &Vec<XmlNode>) -> (r: Result<usize, Error>)
    ensures
        match r {
            Ok(i) => member_list_spec(nodes_view(ns@)) == Ok::<int, Error>(i as int),
            Err(e) => member_list_spec(nodes_view(ns@)) == Err::<int, Error>(e),
        },
        r matches Ok(i) ==> i < ns@.len(),
{
    if ns.len() == 0 {
        Err(Error::FieldNotFound(MEMBER_LIST))
    } else {
        find_tag(ns, ns[0].id, MEMBER_LIST)
    }
}

fn find_text<'a>(ns: &'a Vec<XmlNode>, parent: usize, tag: &'static str) -> (r: Result<&'a str, Error>)
    ensures
        match r {
            Ok(t) => text_spec(nodes_view(ns@), parent, tag) == Ok::<Seq<char>, Error>(t@),
            Err(e) => text_spec(nodes_view(ns@), parent, tag) == Err::<Seq<char>, Error>(e),
        },
{
    match find_child_index(ns, parent, tag) {
        Some(i) => match &ns[i].text {
            Some(t) => {
                assert(nodes_view(ns@)[i as int] == ns@[i as int]@);
                Ok(t.as_str())
            },
            None => {
                assert(nodes_view(ns@)[i as int] == ns@[i as int]@);
                Err(Error::FieldEmpty(tag))
            },
        },
        None => Err(Error::FieldNotFound(tag)),
    }
}

/// A document with no `memberList` element under its root is read as the
/// error `FieldNotFound("memberList")`, whatever else it holds.
pub proof fn lemma_missing_member_list(ns: Seq<XmlNodeView>, r: Result<GroupData, Error>)
    requires
        ns.len() == 0 || find_child(ns, root_id(ns), MEMBER_LIST@) is None,
        record_of(ns, r),
    ensures
        r == Err::<GroupData, Error>(Error::FieldNotFound(MEMBER_LIST)),
{
}

proof fn lemma_prepend_concat(a: Seq<u64>, b: Seq<u64>, r: Result<Seq<u64>, Error>)
    ensures
        prepend(a, prepend(b, r)) == prepend(a + b, r),
{
    if let Ok(s) = r {
        assert(a + (b + s) =~= (a + b) + s);
    }
}

/// Adds `x` to an ascending list without repeats, keeping it so.
fn insert_sorted(v: &mut Vec<u64>, x: u64)
    requires
        strictly_ascending(old(v)@),
    ensures
        strictly_ascending(final(v)@),
        forall|y: u64| final(v)@.contains(y) <==> (old(v)@.contains(y) || y == x),
{
    let mut i: usize = 0;
    while i < v.len() && v[i] < x
        invariant
            i <= v@.len(),
            strictly_ascending(v@),
            forall|j: int| 0 <= j < i ==> v@[j] < x,
        decreases v.len() - i,
    {
        i = i + 1;
    }
    if i < v.len() && v[i] == x {
        return;
    }
    let ghost before = v@;
    assert(forall|j: int| i <= j < before.len() ==> before[j] > x) by {
        assert forall|j: int| i <= j < before.len() implies before[j] > x by {
            assert(before[i as int] >= x);
            assert(before[i as int] != x);
            if j > i {
                assert(before[i as int] < before[j]);
            }
        }
    }
    v.insert(i, x);
    let ghost after = v@;
    assert(after.len() == before.len() + 1);
    assert(forall|k: int| 0 <= k < i ==> after[k] == before[k]);
    assert(after[i as int] == x);
    assert(forall|k: int| i < k < after.len() ==> after[k] == before[k - 1]);
    assert forall|y: u64| after.contains(y) <==> (before.contains(y) || y == x) by {
        if after.contains(y) {
            let k = choose|k: int| 0 <= k < after.len() && after[k] == y;
            if k < i {
                assert(before[k] == y);
            } else if k > i {
                assert(before[k - 1] == y);
            }
        }
        if before.contains(y) {
            let k = choose|k: int| 0 <= k < before.len() && before[k] == y;
            if k < i {
                assert(after[k] == y);
            } else {
                assert(after[k + 1] == y);
            }
        }
        if y == x {
            assert(after[i as int] == y);
        }
    }
}

impl GroupData {
    /// Reads the ids under `memberList`/`members`, and returns them without
    /// repeats in ascending order.
    pub fn extract_members(nodes: &Vec<XmlNode>) -> (r: Result<Vec<u64>, Error>)
        ensures
            match members_spec(nodes_view(nodes@)) {
                Ok(raw) => r matches Ok(v) && sorted_unique_of(v@, raw),
                Err(e) => r == Err::<Vec<u64>, Error>(e),
            },
    {
        let ghost ns = nodes_view(nodes@);
        let ml = match find_member_list(nodes) {
            Ok(i) => i,
            Err(e) => return Err(e),
        };
        assert(ns[ml as int] == nodes@[ml as int]@);
        let m = match find_tag(nodes, nodes[ml].id, MEMBERS) {
            Ok(i) => i,
            Err(e) => return Err(e),
        };
        assert(ns[m as int] == nodes@[m as int]@);
        let pid = nodes[m].id;
        let ghost mut raw: Seq<u64> = Seq::empty();
        assert(raw + Seq::<u64>::empty() =~= raw);
        let mut members: Vec<u64> = Vec::new();
        let mut i: usize = 0;
        while i < nodes.len()
            invariant
                i <= nodes@.len(),
                ns == nodes_view(nodes@),
                members_spec(ns) == member_ids_from(ns, pid, 0),
                member_ids_from(ns, pid, 0) == prepend(raw, member_ids_from(ns, pid, i as int)),
                sorted_unique_of(members@, raw),
            decreases nodes.len() - i,
        {
            let n = &nodes[i];
            assert(ns[i as int] == n@);
            if n.parent == Some(pid) && n.element && str_eq(n.tag.as_str(), STEAM_ID64) {
                match &n.text {
                    None => {
                        return Err(Error::FieldEmpty(STEAM_ID64));
                    },
                    Some(t) => match parse_u64(t.as_str()) {
                        None => {
                            return Err(Error::FieldInvalid(STEAM_ID64));
                        },
                        Some(v) => {
                            insert_sorted(&mut members, v);
                            proof {
                                lemma_prepend_concat(raw, seq![v], member_ids_from(ns, pid, i + 1));
                                assert forall|y: u64| (raw + seq![v]).contains(y) <==> (raw.contains(y) || y == v) by {
                                    let s = raw + seq![v];
                                    if s.contains(y) {
                                        let k = choose|k: int| 0 <= k < s.len() && s[k] == y;
                                        if k < raw.len() {
                                            assert(raw[k] == y);
                                        }
                                    }
                                    if raw.contains(y) {
                                        let k = choose|k: int| 0 <= k < raw.len() && raw[k] == y;
                                        assert(s[k] == y);
                                    }
                                    if y == v {
                                        assert(s[raw.len() as int] == y);
                                    }
                                }
                                raw = raw + seq![v];
                            }
                        },
                    },
                }
            }
            i = i + 1;
        }
        assert(raw + Seq::<u64>::empty() =~= raw);
        Ok(members)
    }

    /// Reads the group's metadata; the member list is left empty.
    pub fn extract_group_info(nodes: &Vec<XmlNode>) -> (r: Result<GroupData, Error>)
        ensures
            match group_info_spec(nodes_view(nodes@)) {
                Ok(g) => r matches Ok(d) && carries_info(d, g) && d.members@.len() == 0,
                Err(e) => r == Err::<GroupData, Error>(e),
            },
    {
        let ghost ns = nodes_view(nodes@);
        let ml = match find_member_list(nodes) {
            Ok(i) => i,
            Err(e) => return Err(e),
        };
        assert(ns[ml as int] == nodes@[ml as int]@);
        let mid = nodes[ml].id;
        let id_text = match find_text(nodes, mid, GROUP_ID64) {
            Ok(t) => t,
            Err(e) => return Err(e),
        };
        let id = match parse_u64(id_text) {
            Some(v) => v,
            None => return Err(Error::FieldInvalid(GROUP_ID64)),
        };
        let count_text = match find_text(nodes, mid, MEMBER_COUNT) {
            Ok(t) => t,
            Err(e) => return Err(e),
        };
        let count = match parse_u64(count_text) {
            Some(v) => if v <= usize::MAX as u64 {
                v as usize
            } else {
                return Err(Error::FieldInvalid(MEMBER_COUNT));
            },
            None => return Err(Error::FieldInvalid(MEMBER_COUNT)),
        };
        let gd = match find_tag(nodes, mid, GROUP_DETAILS) {
            Ok(i) => i,
            Err(e) => return Err(e),
        };
        assert(ns[gd as int] == nodes@[gd as int]@);
        let did = nodes[gd].id;
        let url = match find_text(nodes, did, GROUP_URL) {
            Ok(t) => t,
            Err(e) => return Err(e),
        };
        let name = match find_text(nodes, did, GROUP_NAME) {
            Ok(t) => t,
            Err(e) => return Err(e),
        };
        let avatar = match find_text(nodes, did, AVATAR_FULL) {
            Ok(t) => t.to_owned(),
            Err(_) => String::new(),
        };
        let id_64 = match GroupId64::try_from(id) {
            Ok(g) => g,
            Err(_) => return Err(Error::FieldInvalid(GROUP_ID64)),
        };
        let id_8 = match GroupId8::from_id64(id_64) {
            Ok(g) => g,
            Err(_) => return Err(Error::FieldInvalid(GROUP_ID64)),
        };
        let url = match GroupUrl::from_str(url) {
            Ok(u) => u,
            Err(_) => return Err(Error::FieldInvalid(GROUP_URL)),
        };
        Ok(
            GroupData {
                name: name.to_owned(),
                id_8,
                id_64,
                url,
                avatar,
                member_count: count,
                members: Vec::new(),
            },
        )
    }

    /// Reads a group's record from the nodes of its member-list document.
    pub fn from_nodes(nodes: &Vec<XmlNode>) -> (r: Result<GroupData, Error>)
        ensures
            record_of(nodes_view(nodes@), r),
    {
        let members = match Self::extract_members(nodes) {
            Ok(v) => v,
            Err(e) => return Err(e),
        };
        let mut info = match Self::extract_group_info(nodes) {
            Ok(d) => d,
            Err(e) => return Err(e),
        };
        info.members = members;
        Ok(info)
    }

    /// Parses a member-list document and reads the group's record from it.
    pub fn extract(xml: &str) -> (r: Result<GroupData, Error>)
        ensures
            match parsed_xml(xml@) {
                Some(ns) => record_of(ns, r),
                None => r matches Err(Error::Parse(_)),
            },
    {
        match parse_xml(xml) {
            Ok(nodes) => Self::from_nodes(&nodes),
            Err(message) => Err(Error::Parse(message)),
        }
    }
}

} // verus!
