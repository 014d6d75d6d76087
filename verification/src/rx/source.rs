//! The parts of a loaded KeePass database that the library reads, as plain values.
use vstd::prelude::*;

verus! {

/// A field value as the database file holds it.
pub enum KeePassValue {
    /// A value the file marks as protected (passwords and the like).
    Protected(Vec<u8>),
    /// A plain text value.
    Unprotected(String),
    /// Binary data.
    Bytes(Vec<u8>),
}

/// A named field of an entry.
pub struct KeePassField {
    pub name: String,
    pub value: KeePassValue,
}

/// An item of an entry's or a database's custom data.
pub struct KeePassCustomItem {
    pub key: String,
    pub value: Option<KeePassValue>,
}

/// A file attached to an entry: the name it is stored under and its bytes.
pub struct KeePassAttachment {
    pub name: String,
    pub data: Vec<u8>,
}

/// The attachments as names and bytes.
pub open spec fn attachments_view(a: Seq<KeePassAttachment>) -> Seq<(Seq<char>, Seq<u8>)> {
    a.map_values(|x: KeePassAttachment| (x.name@, x.data@))
}

/// The bytes of the first attachment with the given name, if any.
pub open spec fn attachment_named(a: Seq<(Seq<char>, Seq<u8>)>, name: Seq<char>) -> Option<Seq<u8>>
    decreases a.len(),
{
    if a.len() == 0 {
        None
    } else if a[0].0 == name {
        Some(a[0].1)
    } else {
        attachment_named(a.drop_first(), name)
    }
}

/// An entry of the database file.
pub struct KeePassEntry {
    pub uuid: u128,
    pub fields: Vec<KeePassField>,
    pub custom_data: Vec<KeePassCustomItem>,
    pub tags: Vec<String>,
    /// The built-in icon, if the entry uses one.
    pub icon_id: Option<usize>,
    /// The image data of the entry's custom icon, if it has one.
    pub custom_icon: Option<Vec<u8>>,
    /// The entry expires and its expiry time has passed.
    pub is_expired: bool,
    /// The entry's password was judged weak when the database was read.
    pub password_is_weak: bool,
    /// The files attached to the entry.
    pub attachments: Vec<KeePassAttachment>,
}

/// A group of the database file with everything below it.
pub struct KeePassGroup {
    pub uuid: u128,
    pub name: String,
    /// The built-in icon, if the group uses one.
    pub icon_id: Option<usize>,
    /// The group has a custom icon.
    pub has_custom_icon: bool,
    pub groups: Vec<KeePassGroup>,
    pub entries: Vec<KeePassEntry>,
}

} // verus!
