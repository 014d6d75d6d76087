//! Groups, templates, tags and saved searches.
use vstd::prelude::*;
use crate::outside::{new_v4, new_v5_oid, uuid_v5_oid};
use crate::rx::rx_entry::{copy_string, RxIcon, RxIconView};
use crate::rx::source::KeePassGroup;
use crate::text::{push_char, push_str};
use vstd::string::StringSliceAdditionalSpecFns;
use vstd::utf8::encode_utf8;

verus! {

/// The UUIDs of a list of groups of the file.
pub open spec fn kp_group_ids(gs: Seq<KeePassGroup>) -> Seq<u128> {
    gs.map_values(|g: KeePassGroup| g.uuid)
}

/// A group of the database.
pub struct RxGroup {
    pub uuid: u128,
    /// `None` for the root group.
    pub parent: Option<u128>,
    pub name: String,
    pub icon: RxIcon,
    pub subgroups: Vec<u128>,
    pub entries: Vec<u128>,
}

/// The icon a group gets: none when it has a custom icon (custom group icons are not
/// shown), its built-in icon otherwise.
pub open spec fn group_icon(group: KeePassGroup) -> RxIconView {
    if group.has_custom_icon {
        RxIconView::NoIcon
    } else {
        match group.icon_id {
            Some(id) => RxIconView::Builtin(id),
            None => RxIconView::NoIcon,
        }
    }
}

impl RxGroup {
    /// The group describes the given group of the file, placed under `parent`.
    pub open spec fn made_from(&self, group: KeePassGroup, parent: Option<u128>) -> bool {
        &&& self.uuid == group.uuid
        &&& self.parent == parent
        &&& self.name@ == group.name@
        &&& self.icon@ == group_icon(group)
        &&& self.subgroups@ == kp_group_ids(group.groups@)
        &&& self.entries@ == group.entries@.map_values(|e: crate::rx::source::KeePassEntry| e.uuid)
    }

    /// Makes a group from a group of the file and the UUIDs of its children.
    pub fn new(
        group: &KeePassGroup,
        subgroups: Vec<u128>,
        entries: Vec<u128>,
        parent: Option<u128>,
    ) -> (r: RxGroup)
        ensures
            r.uuid == group.uuid,
            r.parent == parent,
            r.name@ == group.name@,
            r.icon@ == group_icon(*group),
            r.subgroups@ == subgroups@,
            r.entries@ == entries@,
    {
        let icon = if group.has_custom_icon {
            RxIcon::NoIcon
        } else {
            match group.icon_id {
                Some(id) => RxIcon::Builtin(id),
                None => RxIcon::NoIcon,
            }
        };
        RxGroup { uuid: group.uuid, name: copy_string(&group.name), subgroups, entries, parent, icon }
    }
}

/// A template (credit card, Wi-Fi password, ...) and the entries made from it.
pub struct RxTemplate {
    pub uuid: u128,
    /// From the title of the template's own entry.
    pub name: String,
    pub icon: RxIcon,
    pub entry_uuids: Vec<u128>,
}

/// A tag and the entries that carry it.
pub struct RxTag {
    pub uuid: u128,
    pub name: String,
    pub entry_uuids: Vec<u128>,
}

impl RxTag {
    /// A tag with a fresh random UUID.
    pub fn new(name: String, entry_uuids: Vec<u128>) -> (r: RxTag)
        ensures
            r.name == name,
            r.entry_uuids == entry_uuids,
            r.uuid != 0,
    {
        RxTag { uuid: new_v4(), name, entry_uuids }
    }
}

/// A saved search and the entries it found.
pub struct RxSavedSearch {
    pub uuid: u128,
    pub name: String,
    pub query: String,
    pub entry_uuids: Vec<u128>,
}

/// The text a saved search's UUID is made from: its name, a line break, and its query.
pub open spec fn saved_search_key(name: Seq<char>, query: Seq<char>) -> Seq<char> {
    name + seq!['\n'] + query
}

impl RxSavedSearch {
    /// A saved search whose UUID is stable: the name-based (v5, OID namespace) UUID of its
    /// name and query.
    pub fn new(name: String, query: String, entry_uuids: Vec<u128>) -> (r: RxSavedSearch)
        ensures
            r.name == name,
            r.query == query,
            r.entry_uuids == entry_uuids,
            r.uuid == uuid_v5_oid(encode_utf8(saved_search_key(name@, query@))),
    {
        let mut stable_id = String::new();
        push_str(&mut stable_id, name.as_str());
        push_char(&mut stable_id, '\n');
        push_str(&mut stable_id, query.as_str());
        assert(stable_id@ =~= saved_search_key(name@, query@));
        let uuid = new_v5_oid(stable_id.as_str().as_bytes());
        RxSavedSearch { uuid, name, query, entry_uuids }
    }
}

} // verus!
