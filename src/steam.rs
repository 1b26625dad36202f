//! Group identifiers: the two numeric spaces, vanity suffixes, the parser
//! that tells them apart, and the links built from them.
use vstd::prelude::*;
use vstd::string::*;

use crate::text::{decimal, decimal_spec, parse_u64, parse_u64_spec, starts_with};

verus! {

/// The boundary between the short and the canonical numeric spaces.
pub const GID_OFFSET: u64 = 0x0170_0000_0000_0000;

/// The character class of a vanity suffix: word characters, digits, `-` and `_`.
pub const SUFFIX_PATTERN: &'static str = r"^[\w\d\-_]+$";

pub const HTTPS_GROUPS: &'static str = "https://steamcommunity.com/groups/";
pub const HTTP_GROUPS: &'static str = "http://steamcommunity.com/groups/";
pub const BARE_GROUPS: &'static str = "steamcommunity.com/groups/";
pub const GID_LINK: &'static str = "https://steamcommunity.com/gid/";
pub const XML_LINK_TAIL: &'static str = "/memberslistxml/?xml=1";

/// Whether the regular expression `pattern` matches `text`.
pub uninterp spec fn regex_match(pattern: Seq<char>, text: Seq<char>) -> bool;

/// Relies on `regex::Regex::new` (re-exported by lazy_regex) to compile
/// `pattern`, which it does for `SUFFIX_PATTERN`, and on `Regex::is_match`
/// to tell whether it matches `text`.
#[verifier::external_body]
fn regex_is_match(pattern: &str, text: &str) -> (r: bool)
    requires
        pattern == SUFFIX_PATTERN,
    ensures
        r == regex_match(pattern@, text@),
{
    lazy_regex::Regex::new(pattern).unwrap().is_match(text)
}

/// Whether `s` is a well-formed vanity suffix.
pub open spec fn is_suffix(s: Seq<char>) -> bool {
    regex_match(SUFFIX_PATTERN@, s)
}

#[derive(Debug, PartialEq, Eq, Structural)]
pub enum UrlError {
    InvalidSuffix,
}

#[derive(Debug, PartialEq, Eq, Structural)]
pub enum IdError {
    OutOfRange,
}

#[derive(Debug, PartialEq, Eq, Structural)]
pub enum IdentifierError {
    Url(UrlError),
    Id(IdError),
    Unrecognized,
}

/// A group id in the canonical space: valid when at least `GID_OFFSET`.
#[derive(Debug, Clone, Copy, PartialEq, Eq, Structural)]
pub struct GroupId64(pub u64);

/// A group id in the short space: valid when below `GID_OFFSET`.
#[derive(Debug, Clone, Copy, PartialEq, Eq, Structural)]
pub struct GroupId8(pub u64);

/// A group's vanity suffix.
#[derive(Debug)]
pub struct GroupUrl(pub String);

#[derive(Debug)]
pub enum GroupIdentifier {
    Id64(GroupId64),
    Id8(GroupId8),
    Url(GroupUrl),
}

impl GroupId64 {
    pub open spec fn valid(self) -> bool {
        self.0 >= GID_OFFSET
    }

    pub open spec fn try_from_spec(id: u64) -> Result<GroupId64, IdError> {
        if id < GID_OFFSET {
            Err(IdError::OutOfRange)
        } else {
            Ok(GroupId64(id))
        }
    }

    pub open spec fn from_id8_spec(id: GroupId8) -> Result<GroupId64, IdError> {
        if id.0 + GID_OFFSET > u64::MAX {
            Err(IdError::OutOfRange)
        } else {
            Ok(GroupId64((id.0 + GID_OFFSET) as u64))
        }
    }

    /// Checks that `id` lies in the canonical space.
    pub fn try_from(id: u64) -> (r: Result<GroupId64, IdError>)
        ensures
            r == Self::try_from_spec(id),
    {
        if id < GID_OFFSET {
            Err(IdError::OutOfRange)
        } else {
            Ok(GroupId64(id))
        }
    }

    /// The canonical id of a short id: `GID_OFFSET` added, unless that overflows.
    pub fn from_id8(id: GroupId8) -> (r: Result<GroupId64, IdError>)
        ensures
            r == Self::from_id8_spec(id),
    {
        match id.0.checked_add(GID_OFFSET) {
            Some(v) => Ok(GroupId64(v)),
            None => Err(IdError::OutOfRange),
        }
    }
}

impl GroupId8 {
    pub open spec fn valid(self) -> bool {
        self.0 < GID_OFFSET
    }

    pub open spec fn try_from_spec(id: u64) -> Result<GroupId8, IdError> {
        if id >= GID_OFFSET {
            Err(IdError::OutOfRange)
        } else {
            Ok(GroupId8(id))
        }
    }

    pub open spec fn from_id64_spec(id: GroupId64) -> Result<GroupId8, IdError> {
        if id.0 < GID_OFFSET {
            Err(IdError::OutOfRange)
        } else {
            Ok(GroupId8((id.0 - GID_OFFSET) as u64))
        }
    }

    /// Checks that `id` lies in the short space.
    pub fn try_from(id: u64) -> (r: Result<GroupId8, IdError>)
        ensures
            r == Self::try_from_spec(id),
    {
        if id >= GID_OFFSET {
            Err(IdError::OutOfRange)
        } else {
            Ok(GroupId8(id))
        }
    }

    /// The short id of a canonical id: `GID_OFFSET` taken away, unless the
    /// id lies below it.
    pub fn from_id64(id: GroupId64) -> (r: Result<GroupId8, IdError>)
        ensures
            r == Self::from_id64_spec(id),
    {
        match id.0.checked_sub(GID_OFFSET) {
            Some(v) => Ok(GroupId8(v)),
            None => Err(IdError::OutOfRange),
        }
    }
}

/// Every value below the offset is a short id, whose canonical id is the
/// value plus the offset.
pub proof fn lemma_id8_to_id64(v: u64)
    requires
        v < GID_OFFSET,
    ensures
        GroupId8::try_from_spec(v) == Ok::<GroupId8, IdError>(GroupId8(v)),
        GroupId64::from_id8_spec(GroupId8(v)) == Ok::<GroupId64, IdError>(
            GroupId64((v + GID_OFFSET) as u64),
        ),
{
}

/// Every value from the offset on is a canonical id, whose short id is the
/// value minus the offset; going to the short space and back gives the id
/// again, and so does going once more to the short space.
pub proof fn lemma_id64_to_id8(v: u64)
    requires
        v >= GID_OFFSET,
    ensures
        GroupId64::try_from_spec(v) == Ok::<GroupId64, IdError>(GroupId64(v)),
        GroupId8::from_id64_spec(GroupId64(v)) == Ok::<GroupId8, IdError>(
            GroupId8((v - GID_OFFSET) as u64),
        ),
        GroupId64::from_id8_spec(GroupId8((v - GID_OFFSET) as u64)) == Ok::<GroupId64, IdError>(
            GroupId64(v),
        ),
        GroupId8::from_id64_spec(GroupId64(v)) == GroupId8::from_id64_spec(
            GroupId64::from_id8_spec(GroupId8((v - GID_OFFSET) as u64))->Ok_0,
        ),
{
}

impl GroupUrl {
    /// Accepts `s` as a vanity suffix when it matches `SUFFIX_PATTERN`.
    pub fn from_str(s: &str) -> (r: Result<GroupUrl, UrlError>)
        ensures
            is_suffix(s@) ==> (r matches Ok(u) && u.0@ == s@),
            !is_suffix(s@) ==> r == Err::<GroupUrl, UrlError>(UrlError::InvalidSuffix),
    {
        if regex_is_match(SUFFIX_PATTERN, s) {
            Ok(GroupUrl(s.to_owned()))
        } else {
            Err(UrlError::InvalidSuffix)
        }
    }
}

/// Whether `s` begins with `p`.
pub open spec fn has_prefix(s: Seq<char>, p: Seq<char>) -> bool {
    p.len() <= s.len() && s.take(p.len() as int) == p
}

/// What follows one of the group page prefixes at the start of `s`, if any.
pub open spec fn group_url_rest(s: Seq<char>) -> Option<Seq<char>> {
    if has_prefix(s, HTTPS_GROUPS@) {
        Some(s.skip(HTTPS_GROUPS@.len() as int))
    } else if has_prefix(s, HTTP_GROUPS@) {
        Some(s.skip(HTTP_GROUPS@.len() as int))
    } else if has_prefix(s, BARE_GROUPS@) {
        Some(s.skip(BARE_GROUPS@.len() as int))
    } else {
        None
    }
}

/// `r` is the identifier that `s` names: a number is classified by the
/// offset; else a group page URL gives its suffix, which must be valid;
/// else `s` must itself be a valid suffix.
pub open spec fn parsed_identifier(s: Seq<char>, r: Result<GroupIdentifier, IdentifierError>) -> bool {
    match parse_u64_spec(s) {
        Some(v) => if v >= GID_OFFSET {
            r == Ok::<GroupIdentifier, IdentifierError>(GroupIdentifier::Id64(GroupId64(v)))
        } else {
            r == Ok::<GroupIdentifier, IdentifierError>(GroupIdentifier::Id8(GroupId8(v)))
        },
        None => match group_url_rest(s) {
            Some(rest) => if is_suffix(rest) {
                r matches Ok(GroupIdentifier::Url(u)) && u.0@ == rest
            } else {
                r == Err::<GroupIdentifier, IdentifierError>(
                    IdentifierError::Url(UrlError::InvalidSuffix),
                )
            },
            None => if is_suffix(s) {
                r matches Ok(GroupIdentifier::Url(u)) && u.0@ == s
            } else {
                r == Err::<GroupIdentifier, IdentifierError>(IdentifierError::Unrecognized)
            },
        },
    }
}

impl GroupIdentifier {
    /// Whether the identifier lies in the space its variant stands for.
    pub open spec fn valid(&self) -> bool {
        match self {
            GroupIdentifier::Id64(id) => id.valid(),
            GroupIdentifier::Id8(id) => id.valid(),
            GroupIdentifier::Url(u) => is_suffix(u.0@),
        }
    }

    /// Classifies free-form text as a canonical id, a short id or a vanity
    /// suffix, trying those rules in that order.
    pub fn from_str(s: &str) -> (r: Result<GroupIdentifier, IdentifierError>)
        ensures
            parsed_identifier(s@, r),
            r matches Ok(id) ==> id.valid(),
    {
        if let Some(id) = parse_u64(s) {
            if id >= GID_OFFSET {
                Ok(GroupIdentifier::Id64(GroupId64(id)))
            } else {
                Ok(GroupIdentifier::Id8(GroupId8(id)))
            }
        } else {
            let n = s.unicode_len();
            let mut skip: usize = 0;
            let mut found = true;
            if starts_with(s, HTTPS_GROUPS) {
                skip = HTTPS_GROUPS.unicode_len();
            } else if starts_with(s, HTTP_GROUPS) {
                skip = HTTP_GROUPS.unicode_len();
            } else if starts_with(s, BARE_GROUPS) {
                skip = BARE_GROUPS.unicode_len();
            } else {
                found = false;
            }
            if found {
                let rest = s.substring_char(skip, n);
                assert(rest@ =~= s@.skip(skip as int));
                match GroupUrl::from_str(rest) {
                    Ok(u) => Ok(GroupIdentifier::Url(u)),
                    Err(e) => Err(IdentifierError::Url(e)),
                }
            } else {
                match GroupUrl::from_str(s) {
                    Ok(u) => Ok(GroupIdentifier::Url(u)),
                    Err(_) => Err(IdentifierError::Unrecognized),
                }
            }
        }
    }
}

/// The page of the group with canonical id `v`.
pub open spec fn gid_link(v: u64) -> Seq<char> {
    GID_LINK@ + decimal_spec(v as nat)
}

/// The page of the group with vanity suffix `s`.
pub open spec fn suffix_link(s: Seq<char>) -> Seq<char> {
    HTTPS_GROUPS@ + s
}

/// The member-list feed behind a group page.
pub open spec fn xml_link(page: Seq<char>) -> Seq<char> {
    page + XML_LINK_TAIL@
}

/// The two links of a group: its page, and its member-list feed.
pub trait ToLink {
    /// Whether the links can be built.
    spec fn linkable(&self) -> bool;

    spec fn link_spec(&self) -> Seq<char>;

    fn to_link(&self) -> (r: String)
        requires
            self.linkable(),
        ensures
            r@ == self.link_spec(),
    ;

    fn to_xml_link(&self) -> (r: String)
        requires
            self.linkable(),
        ensures
            r@ == xml_link(self.link_spec()),
    ;
}

fn gid_page(v: u64) -> (r: String)
    ensures
        r@ == gid_link(v),
{
    let mut r = String::from_str(GID_LINK);
    let digits = decimal(v);
    r.append(digits.as_str());
    r
}

fn with_xml_tail(page: String) -> (r: String)
    ensures
        r@ == xml_link(page@),
{
    let mut r = page;
    r.append(XML_LINK_TAIL);
    r
}

impl ToLink for GroupId64 {
    open spec fn linkable(&self) -> bool {
        true
    }

    open spec fn link_spec(&self) -> Seq<char> {
        gid_link(self.0)
    }

    fn to_link(&self) -> (r: String) {
        gid_page(self.0)
    }

    fn to_xml_link(&self) -> (r: String) {
        with_xml_tail(gid_page(self.0))
    }
}

impl ToLink for GroupId8 {
    open spec fn linkable(&self) -> bool {
        self.valid()
    }

    open spec fn link_spec(&self) -> Seq<char> {
        gid_link((self.0 + GID_OFFSET) as u64)
    }

    fn to_link(&self) -> (r: String) {
        gid_page(self.0 + GID_OFFSET)
    }

    fn to_xml_link(&self) -> (r: String) {
        with_xml_tail(gid_page(self.0 + GID_OFFSET))
    }
}

impl ToLink for GroupUrl {
    open spec fn linkable(&self) -> bool {
        true
    }

    open spec fn link_spec(&self) -> Seq<char> {
        suffix_link(self.0@)
    }

    fn to_link(&self) -> (r: String) {
        let mut r = String::from_str(HTTPS_GROUPS);
        r.append(self.0.as_str());
        r
    }

    fn to_xml_link(&self) -> (r: String) {
        with_xml_tail(self.to_link())
    }
}

impl ToLink for GroupIdentifier {
    open spec fn linkable(&self) -> bool {
        match self {
            GroupIdentifier::Id8(id) => id.valid(),
            _ => true,
        }
    }

    open spec fn link_spec(&self) -> Seq<char> {
        match self {
            GroupIdentifier::Id64(id) => id.link_spec(),
            GroupIdentifier::Id8(id) => id.link_spec(),
            GroupIdentifier::Url(u) => u.link_spec(),
        }
    }

    fn to_link(&self) -> (r: String) {
        match self {
            GroupIdentifier::Id64(id) => id.to_link(),
            GroupIdentifier::Id8(id) => id.to_link(),
            GroupIdentifier::Url(u) => u.to_link(),
        }
    }

    fn to_xml_link(&self) -> (r: String) {
        match self {
            GroupIdentifier::Id64(id) => id.to_xml_link(),
            GroupIdentifier::Id8(id) => id.to_xml_link(),
            GroupIdentifier::Url(u) => u.to_xml_link(),
        }
    }
}

} // verus!
