//! Resolution of Steam community group identifiers and extraction of a
//! group's member-list document.
pub mod group_data;
pub mod steam;
pub mod text;
pub mod xml;

pub use group_data::{Error, GroupData};
pub use steam::{
    GroupId64, GroupId8, GroupIdentifier, GroupUrl, IdError, IdentifierError, ToLink, UrlError,
    GID_OFFSET,
};
pub use xml::XmlNode;
