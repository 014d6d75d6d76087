//! Kinds of items shown in the main list.
use vstd::prelude::*;
use crate::gui::icons::{decimal, decimal_string};
use crate::outside::{no_nul, translate_plural};
use crate::rx::icons::icon_path_of;
use crate::rx::rx_container::RxContainedRef;
use crate::rx::rx_db::value_text_opt;
use crate::rx::rx_entry::{opt_ref_view, value_text, RxEntry, RxIcon, RxIconView, RxValue};
use crate::rx::virtual_hierarchy::RxViewFeature;
use crate::text::{push_char, push_str, starts_with, str_eq, to_owned_string};
use crate::uuid_text::{uuid_hyphenated, uuid_to_string};

verus! {

/// What a list item stands for.
#[derive(Debug, Clone, Copy, PartialEq, Eq, Structural)]
pub enum RxItemType {
    Entry,
    Group,
    Template,
    Tag,
}

impl Default for RxItemType {
    /// An entry.
    fn default() -> (r: Self)
        ensures
            r == RxItemType::Entry,
    {
        RxItemType::Entry
    }
}

/// The name of an item type, as the user interface writes it.
pub open spec fn item_type_name(t: RxItemType) -> Seq<char> {
    match t {
        RxItemType::Entry => "Entry"@,
        RxItemType::Group => "Group"@,
        RxItemType::Template => "Template"@,
        RxItemType::Tag => "Tag"@,
    }
}

/// The item type with the given name, if any.
pub open spec fn item_type_named(s: Seq<char>) -> Option<RxItemType> {
    if s == "Group"@ {
        Some(RxItemType::Group)
    } else if s == "Entry"@ {
        Some(RxItemType::Entry)
    } else if s == "Template"@ {
        Some(RxItemType::Template)
    } else if s == "Tag"@ {
        Some(RxItemType::Tag)
    } else {
        None
    }
}

impl RxItemType {
    /// The name of this item type.
    pub fn to_name(&self) -> (r: String)
        ensures
            r@ == item_type_name(*self),
    {
        match self {
            RxItemType::Group => to_owned_string("Group"),
            RxItemType::Entry => to_owned_string("Entry"),
            RxItemType::Template => to_owned_string("Template"),
            RxItemType::Tag => to_owned_string("Tag"),
        }
    }

    /// The item type with the given name; any other name is refused.
    pub fn from_name(name: &str) -> (r: RxItemType)
        requires
            item_type_named(name@) is Some,
        ensures
            item_type_named(name@) == Some(r),
    {
        if str_eq(name, "Group") {
            RxItemType::Group
        } else if str_eq(name, "Entry") {
            RxItemType::Entry
        } else if str_eq(name, "Template") {
            RxItemType::Template
        } else {
            RxItemType::Tag
        }
    }
}

/// Reading back the name of an item type gives the same item type.
pub proof fn lemma_item_type_name_round_trip(t: RxItemType)
    ensures
        item_type_named(item_type_name(t)) == Some(t),
{
    reveal_strlit("Entry");
    reveal_strlit("Group");
    reveal_strlit("Template");
    reveal_strlit("Tag");
    assert("Entry"@[0] != "Group"@[0]);
    assert("Template"@.len() != "Group"@.len() && "Template"@.len() != "Entry"@.len());
    assert("Tag"@.len() != "Group"@.len() && "Tag"@.len() != "Entry"@.len());
}


/// What a row of the main list shows.
pub struct RxListItem {
    pub item_type: RxItemType,
    pub entry_uuid: String,
    pub parent_uuid: String,
    pub title: String,
    pub subtitle: String,
    pub description: String,
    pub url: String,
    pub icon_path: String,
    pub icon_builtin: bool,
    pub feature: RxViewFeature,
    pub has_username: bool,
    pub has_password: bool,
    pub has_url: bool,
    pub has_totp: bool,
}

/// Which fields of a list row changed when it was filled again.
pub struct RxListItemChanges {
    pub item_type: bool,
    pub entry_uuid: bool,
    pub parent_uuid: bool,
    pub title: bool,
    pub subtitle: bool,
    pub description: bool,
    pub url: bool,
    pub icon_path: bool,
    pub icon_builtin: bool,
    pub feature: bool,
    pub has_username: bool,
    pub has_password: bool,
    pub has_url: bool,
    pub has_totp: bool,
}

/// The text of an optional text, empty when there is none.
pub open spec fn or_empty_text(t: Option<Seq<char>>) -> Seq<char> {
    match t {
        Some(x) => x,
        None => Seq::empty(),
    }
}

/// A count of entries as the list shows it: the number, a space, then the translated word.
pub open spec fn is_entry_count(text: Seq<char>, n: nat) -> bool {
    starts_with(text, decimal(n) + seq![' '])
}

/// Writes a count of entries: the number and the translated word for it.
pub fn entry_count_len(len: usize) -> (r: String)
    ensures
        is_entry_count(r@, len as nat),
{
    let mut r = decimal_string(len);
    push_char(&mut r, ' ');
    let n: u32 = if len <= 0xffff_ffff {
        len as u32
    } else {
        0
    };
    proof {
        reveal_strlit("Count of password entries in a group/folder in the main list.");
        reveal_strlit("entry");
        reveal_strlit("entries");
    }
    let word = translate_plural("Count of password entries in a group/folder in the main list.", "entry", "entries", n);
    let ghost head = r@;
    assert(head =~= decimal(len as nat) + seq![' ']);
    push_str(&mut r, word.as_str());
    assert(r@.take(head.len() as int) =~= head);
    r
}

/// The fields every kind of row sets the same way: the view of a row's kind, UUID, parent,
/// title and subtitle, icon, feature and flags.
pub open spec fn row_is(
    item: RxListItem,
    t: RxItemType,
    uuid: Seq<char>,
    parent: Seq<char>,
    title: Seq<char>,
    subtitle: Seq<char>,
    icon: Seq<char>,
    builtin: bool,
    feature: RxViewFeature,
    flags: (bool, bool, bool, bool),
) -> bool {
    &&& item.item_type == t
    &&& item.entry_uuid@ == uuid
    &&& item.parent_uuid@ == parent
    &&& item.title@ == title
    &&& item.subtitle@ == subtitle
    &&& item.icon_path@ == icon
    &&& item.icon_builtin == builtin
    &&& item.feature == feature
    &&& (item.has_username, item.has_password, item.has_url, item.has_totp) == flags
}

/// Whether an optional icon path is the given path, empty when there is none.
pub open spec fn icon_text(icon: RxIconView, files: Seq<&str>) -> Seq<char> {
    or_empty_text(icon_path_of(icon, files))
}

/// The row of a referenced item, given the table of KeePassXC icon files: an entry shows its
/// title (or "(Untitled)"), user name, URL and masked password; a group its entry and
/// subgroup count; a template or tag its entry count; a virtual root its name.
pub open spec fn row_of(item: RxListItem, r: RxContainedRef, files: Seq<&str>) -> bool {
    match r {
        RxContainedRef::Entry(e) => {
            &&& row_is(
                item,
                RxItemType::Entry,
                uuid_hyphenated(e.uuid),
                uuid_hyphenated(e.parent_group),
                match value_text_opt(e.title) {
                    Some(t) => t,
                    None => "(Untitled)"@,
                },
                or_empty_text(value_text_opt(e.username)),
                icon_text(e.icon@, files),
                e.icon@ is Builtin,
                if e.raw_otp_value is Some {
                    RxViewFeature::DisplayTwoFactorAuth
                } else {
                    RxViewFeature::NoFeature
                },
                (e.username is Some, e.password is Some, e.url is Some, e.raw_otp_value is Some),
            )
            &&& item.url@ == or_empty_text(value_text_opt(e.url))
            &&& item.description@ == if e.password is Some {
                "••••••"@
            } else {
                ""@
            }
        },
        RxContainedRef::Group(g) => {
            &&& row_is(
                item,
                RxItemType::Group,
                uuid_hyphenated(g.uuid),
                match g.parent {
                    Some(p) => uuid_hyphenated(p),
                    None => Seq::empty(),
                },
                g.name@,
                "Group"@,
                icon_text(g.icon@, files),
                g.icon@ is Builtin,
                RxViewFeature::NoFeature,
                (false, false, false, false),
            )
            &&& is_entry_count(item.description@, (g.entries@.len() + g.subgroups@.len()) as nat)
        },
        RxContainedRef::Template(t) => {
            &&& row_is(
                item,
                RxItemType::Template,
                uuid_hyphenated(t.uuid),
                Seq::empty(),
                t.name@,
                "Template"@,
                icon_text(t.icon@, files),
                t.icon@ is Builtin,
                RxViewFeature::NoFeature,
                (false, false, false, false),
            )
            &&& is_entry_count(item.description@, t.entry_uuids@.len())
        },
        RxContainedRef::Tag(t) => {
            &&& row_is(
                item,
                RxItemType::Tag,
                uuid_hyphenated(t.uuid),
                Seq::empty(),
                t.name@,
                "Tag"@,
                Seq::empty(),
                false,
                RxViewFeature::NoFeature,
                (false, false, false, false),
            )
            &&& is_entry_count(item.description@, t.entry_uuids@.len())
        },
        RxContainedRef::SavedSearch(s) => {
            &&& row_is(
                item,
                RxItemType::Tag,
                uuid_hyphenated(s.uuid),
                Seq::empty(),
                s.name@,
                "Saved Search"@,
                Seq::empty(),
                false,
                RxViewFeature::NoFeature,
                (false, false, false, false),
            )
            &&& is_entry_count(item.description@, s.entry_uuids@.len())
        },
        RxContainedRef::VirtualRoot(name) => {
            &&& row_is(
                item,
                RxItemType::Group,
                uuid_hyphenated(0),
                Seq::empty(),
                name@,
                ""@,
                Seq::empty(),
                false,
                RxViewFeature::NoFeature,
                (false, false, false, false),
            )
            &&& item.description@.len() == 0
        },
    }
}

/// A row that shows the same texts and flags as the row of an item (the URL aside, where the
/// item is no entry) is a row of that item too.
pub proof fn lemma_row_of_same_views(a: RxListItem, b: RxListItem, r: RxContainedRef, files: Seq<&str>)
    requires
        row_of(a, r, files),
        a.item_type == b.item_type,
        a.feature == b.feature,
        a.entry_uuid@ == b.entry_uuid@,
        a.parent_uuid@ == b.parent_uuid@,
        a.title@ == b.title@,
        a.subtitle@ == b.subtitle@,
        a.description@ == b.description@,
        a.icon_path@ == b.icon_path@,
        a.icon_builtin == b.icon_builtin,
        a.has_username == b.has_username,
        a.has_password == b.has_password,
        a.has_url == b.has_url,
        a.has_totp == b.has_totp,
        r is Entry ==> a.url@ == b.url@,
    ensures
        row_of(b, r, files),
{
}

/// Sets a text field when its value differs; `true` when it changed.
fn set_text(field: &mut String, value: String) -> (changed: bool)
    ensures
        final(field)@ == value@,
        changed == (final(field)@ != old(field)@),
{
    if str_eq(value.as_str(), field.as_str()) {
        false
    } else {
        *field = value;
        true
    }
}

/// Sets a flag when its value differs; `true` when it changed.
fn set_flag(field: &mut bool, value: bool) -> (changed: bool)
    ensures
        *final(field) == value,
        changed == (*final(field) != *old(field)),
{
    let changed = *field != value;
    *field = value;
    changed
}

/// Sets the item type when it differs; `true` when it changed.
fn set_item_type(field: &mut RxItemType, value: RxItemType) -> (changed: bool)
    ensures
        *final(field) == value,
        changed == (*final(field) != *old(field)),
{
    let changed = *field != value;
    *field = value;
    changed
}

/// Sets the feature when it differs; `true` when it changed.
fn set_feature(field: &mut RxViewFeature, value: RxViewFeature) -> (changed: bool)
    ensures
        *final(field) == value,
        changed == (*final(field) != *old(field)),
{
    let changed = *field != value;
    *field = value;
    changed
}

/// Icons of an item need a table lookup whose index stays in range.
pub open spec fn icon_ok(icon: RxIconView) -> bool {
    icon matches RxIconView::Builtin(id) ==> id < usize::MAX
}

/// The row of a referenced item can be built: its icon can be looked up, and a group's
/// count of entries and subgroups fits in a `usize`.
pub open spec fn ref_row_ok(r: RxContainedRef) -> bool {
    match r {
        RxContainedRef::Entry(e) => icon_ok(e.icon@),
        RxContainedRef::Group(g) => icon_ok(g.icon@) && g.entries@.len() + g.subgroups@.len()
            <= usize::MAX,
        RxContainedRef::Template(t) => icon_ok(t.icon@),
        _ => true,
    }
}

/// The path of an icon, empty when it has none.
fn icon_path_text(icon: &RxIcon, files: &[&str]) -> (r: String)
    requires
        icon_ok(icon@),
    ensures
        r@ == icon_text(icon@, files@),
{
    match icon.icon_path(files) {
        Some(p) => p,
        None => String::new(),
    }
}

/// The text of an optional value, or a default.
fn value_or(v: Option<&RxValue>, default: &str) -> (r: String)
    ensures
        r@ == match opt_ref_view(v) {
            Some(x) => match value_text(x) {
                Some(t) => t,
                None => default@,
            },
            None => default@,
        },
{
    match RxEntry::text_of(v) {
        Some(t) => t,
        None => to_owned_string(default),
    }
}

impl RxListItem {
    /// The row of a referenced item (see `row_of`).
    pub fn init_from(value: &RxContainedRef, files: &[&str]) -> (r: RxListItem)
        requires
            ref_row_ok(*value),
        ensures
            row_of(r, *value, files@),
    {
        proof {
            reveal_strlit("");
        }
        match value {
            RxContainedRef::Entry(e) => {
                let has_otp = e.has_otp();
                let title = value_or(e.title(), "(Untitled)");
                let subtitle = value_or(e.username(), "");
                let url = value_or(e.url(), "");
                let description = if e.password().is_some() {
                    to_owned_string("••••••")
                } else {
                    to_owned_string("")
                };
                let it = RxListItem {
                    item_type: RxItemType::Entry,
                    entry_uuid: uuid_to_string(e.uuid),
                    parent_uuid: uuid_to_string(e.parent_group),
                    title,
                    subtitle,
                    description,
                    url,
                    icon_path: icon_path_text(&e.icon, files),
                    icon_builtin: e.icon.is_builtin(),
                    feature: if has_otp {
                        RxViewFeature::DisplayTwoFactorAuth
                    } else {
                        RxViewFeature::NoFeature
                    },
                    has_username: e.username().is_some(),
                    has_password: e.password().is_some(),
                    has_url: e.url().is_some(),
                    has_totp: e.raw_otp_value().is_some(),
                };
                assert(it.title@ == match value_text_opt(e.title) {
                    Some(t) => t,
                    None => "(Untitled)"@,
                });
                assert(it.subtitle@ == or_empty_text(value_text_opt(e.username)));
                assert(it.url@ == or_empty_text(value_text_opt(e.url)));
                assert(it.description@ == if e.password is Some {
                    "••••••"@
                } else {
                    ""@
                });
                it
            },
            RxContainedRef::Group(g) => RxListItem {
                item_type: RxItemType::Group,
                entry_uuid: uuid_to_string(g.uuid),
                parent_uuid: match g.parent {
                    Some(p) => uuid_to_string(p),
                    None => String::new(),
                },
                title: g.name.clone(),
                subtitle: to_owned_string("Group"),
                description: entry_count_len(g.entries.len() + g.subgroups.len()),
                url: String::new(),
                icon_path: icon_path_text(&g.icon, files),
                icon_builtin: g.icon.is_builtin(),
                feature: RxViewFeature::NoFeature,
                has_username: false,
                has_password: false,
                has_url: false,
                has_totp: false,
            },
            RxContainedRef::Template(t) => RxListItem {
                item_type: RxItemType::Template,
                entry_uuid: uuid_to_string(t.uuid),
                parent_uuid: String::new(),
                title: t.name.clone(),
                subtitle: to_owned_string("Template"),
                description: entry_count_len(t.entry_uuids.len()),
                url: String::new(),
                icon_path: icon_path_text(&t.icon, files),
                icon_builtin: t.icon.is_builtin(),
                feature: RxViewFeature::NoFeature,
                has_username: false,
                has_password: false,
                has_url: false,
                has_totp: false,
            },
            RxContainedRef::Tag(t) => RxListItem {
                item_type: RxItemType::Tag,
                entry_uuid: uuid_to_string(t.uuid),
                parent_uuid: String::new(),
                title: t.name.clone(),
                subtitle: to_owned_string("Tag"),
                description: entry_count_len(t.entry_uuids.len()),
                url: String::new(),
                icon_path: String::new(),
                icon_builtin: false,
                feature: RxViewFeature::NoFeature,
                has_username: false,
                has_password: false,
                has_url: false,
                has_totp: false,
            },
            RxContainedRef::SavedSearch(s) => RxListItem {
                item_type: RxItemType::Tag,
                entry_uuid: uuid_to_string(s.uuid),
                parent_uuid: String::new(),
                title: s.name.clone(),
                subtitle: to_owned_string("Saved Search"),
                description: entry_count_len(s.entry_uuids.len()),
                url: String::new(),
                icon_path: String::new(),
                icon_builtin: false,
                feature: RxViewFeature::NoFeature,
                has_username: false,
                has_password: false,
                has_url: false,
                has_totp: false,
            },
            RxContainedRef::VirtualRoot(name) => RxListItem::for_virtual_root(name),
        }
    }

    /// Fills this row from a referenced item (see `row_of`), changing only the fields whose
    /// value differs, and tells which fields changed. Only an entry sets the URL; other
    /// items leave it as it was.
    pub fn update_from(&mut self, value: &RxContainedRef, files: &[&str]) -> (changed: RxListItemChanges)
        requires
            ref_row_ok(*value),
        ensures
            row_of(*final(self), *value, files@),
            !(*value is Entry) ==> final(self).url == old(self).url,
            changed.item_type == (final(self).item_type != old(self).item_type),
            changed.feature == (final(self).feature != old(self).feature),
            changed.entry_uuid == (final(self).entry_uuid@ != old(self).entry_uuid@),
            changed.parent_uuid == (final(self).parent_uuid@ != old(self).parent_uuid@),
            changed.title == (final(self).title@ != old(self).title@),
            changed.subtitle == (final(self).subtitle@ != old(self).subtitle@),
            changed.description == (final(self).description@ != old(self).description@),
            changed.icon_path == (final(self).icon_path@ != old(self).icon_path@),
            changed.url == (final(self).url@ != old(self).url@),
            changed.icon_builtin == (final(self).icon_builtin != old(self).icon_builtin),
            changed.has_username == (final(self).has_username != old(self).has_username),
            changed.has_password == (final(self).has_password != old(self).has_password),
            changed.has_url == (final(self).has_url != old(self).has_url),
            changed.has_totp == (final(self).has_totp != old(self).has_totp),
    {
        let is_entry = match value {
            RxContainedRef::Entry(_) => true,
            _ => false,
        };
        let fresh_row = RxListItem::init_from(value, files);
        let ghost fresh = fresh_row;
        let RxListItem {
            item_type,
            entry_uuid,
            parent_uuid,
            title,
            subtitle,
            description,
            url,
            icon_path,
            icon_builtin,
            feature,
            has_username,
            has_password,
            has_url,
            has_totp,
        } = fresh_row;
        let mut changed = RxListItemChanges {
            item_type: false,
            entry_uuid: false,
            parent_uuid: false,
            title: false,
            subtitle: false,
            description: false,
            url: false,
            icon_path: false,
            icon_builtin: false,
            feature: false,
            has_username: false,
            has_password: false,
            has_url: false,
            has_totp: false,
        };
        changed.item_type = set_item_type(&mut self.item_type, item_type);
        changed.feature = set_feature(&mut self.feature, feature);
        changed.entry_uuid = set_text(&mut self.entry_uuid, entry_uuid);
        changed.parent_uuid = set_text(&mut self.parent_uuid, parent_uuid);
        changed.title = set_text(&mut self.title, title);
        changed.subtitle = set_text(&mut self.subtitle, subtitle);
        changed.description = set_text(&mut self.description, description);
        changed.icon_path = set_text(&mut self.icon_path, icon_path);
        if is_entry {
            changed.url = set_text(&mut self.url, url);
        }
        changed.icon_builtin = set_flag(&mut self.icon_builtin, icon_builtin);
        changed.has_username = set_flag(&mut self.has_username, has_username);
        changed.has_password = set_flag(&mut self.has_password, has_password);
        changed.has_url = set_flag(&mut self.has_url, has_url);
        changed.has_totp = set_flag(&mut self.has_totp, has_totp);
        proof {
            lemma_row_of_same_views(fresh, *self, *value, files@);
        }
        changed
    }

    /// The row of a view's virtual root, named as given.
    pub fn for_virtual_root(root_name: &String) -> (r: RxListItem)
        ensures
            row_of(r, RxContainedRef::VirtualRoot(*root_name), Seq::empty()),
    {
        proof {
            reveal_strlit("");
        }
        RxListItem {
            item_type: RxItemType::Group,
            entry_uuid: uuid_to_string(0),
            parent_uuid: String::new(),
            title: root_name.clone(),
            subtitle: to_owned_string(""),
            description: String::new(),
            url: String::new(),
            icon_path: String::new(),
            icon_builtin: false,
            feature: RxViewFeature::NoFeature,
            has_username: false,
            has_password: false,
            has_url: false,
            has_totp: false,
        }
    }

    /// Shows the row's feature only when the view it is in has it too.
    pub fn restrict_feature(&mut self, view_feature: RxViewFeature) -> (changed: bool)
        ensures
            changed == (old(self).feature != view_feature),
            final(self).feature == if changed {
                RxViewFeature::NoFeature
            } else {
                old(self).feature
            },
            final(self).title == old(self).title,
            final(self).entry_uuid == old(self).entry_uuid,
    {
        if view_feature != self.feature {
            self.feature = RxViewFeature::NoFeature;
            true
        } else {
            false
        }
    }
}

} // verus!

verus! {

/// The row of an entry shows the entry itself: its title (or "(Untitled)") as title, its user
/// name as subtitle, its URL, its own UUID and that of its group, a masked password exactly
/// when it has a password, and the 2FA feature exactly when it has a one-time password.
pub proof fn lemma_entry_row_shows_the_entry(item: RxListItem, e: std::rc::Rc<RxEntry>, files: Seq<&str>)
    requires
        row_of(item, RxContainedRef::Entry(e), files),
    ensures
        item.item_type == RxItemType::Entry,
        value_text_opt(e.title) matches Some(t) ==> item.title@ == t,
        value_text_opt(e.title) is None ==> item.title@ == "(Untitled)"@,
        value_text_opt(e.username) matches Some(u) ==> item.subtitle@ == u,
        value_text_opt(e.url) matches Some(u) ==> item.url@ == u,
        item.entry_uuid@ == uuid_hyphenated(e.uuid),
        item.parent_uuid@ == uuid_hyphenated(e.parent_group),
        item.has_username == e.username is Some,
        item.has_password == e.password is Some,
        item.has_url == e.url is Some,
        item.has_totp == e.raw_otp_value is Some,
        (item.description@.len() > 0) == e.password is Some,
        (item.feature == RxViewFeature::DisplayTwoFactorAuth) == e.raw_otp_value is Some,
{
    reveal_strlit("••••••");
    reveal_strlit("");
}

} // verus!
