//! A KeePass database file's bytes read into the plain values the library loads, and the
//! database loaded from them.
use vstd::prelude::*;
use crate::outside::{kdbx_contents_of, open_kdbx};
use crate::mirror::opt_text;
use crate::rx::metadata::{
    custom_value, i32_value_of, items_view, parse_saved_searches, saved_searches_of, string_value_of, RxSavedSearchDef,
};
use crate::rx::rx_db::{RxDatabase, RxMetadata};
use crate::rx::source::{KeePassAttachment, KeePassCustomItem, KeePassEntry, KeePassField, KeePassGroup, KeePassValue};
use crate::text::strings_view;
use vstd::utf8::{decode_utf8, valid_utf8};

verus! {

/// A value of the file as bytes or text.
pub enum ValueView {
    Protected(Seq<u8>),
    Unprotected(Seq<char>),
    Bytes(Seq<u8>),
}

/// An entry of the file as values: its fields, custom data and attachments by name (the
/// file keeps them in maps), its tags and icon, and whether and when it expires.
pub struct EntryView {
    pub uuid: u128,
    pub fields: Map<Seq<char>, ValueView>,
    pub custom_data: Map<Seq<char>, Option<ValueView>>,
    pub tags: Seq<Seq<char>>,
    pub icon_id: Option<usize>,
    pub custom_icon: Option<Seq<u8>>,
    pub expires: bool,
    pub expiry_time: i64,
    pub attachments: Map<Seq<char>, Seq<u8>>,
}

/// A group of the file as values, with everything below it.
pub struct GroupView {
    pub uuid: u128,
    pub name: Seq<char>,
    pub icon_id: Option<usize>,
    pub has_custom_icon: bool,
    pub groups: Seq<GroupView>,
    pub entries: Seq<EntryView>,
}

/// What the library reads of a database file: its groups and entries, the printed items of
/// its public custom data by key, its recycle bin, and its custom data by key.
pub struct KdbxView {
    pub root: GroupView,
    pub public_custom_data: Map<Seq<char>, Seq<char>>,
    pub recycle_bin: Option<u128>,
    pub custom_data: Map<Seq<char>, Option<ValueView>>,
}

/// The map of key and value pairs; a later pair wins over an earlier one with its key.
pub open spec fn pairs_map<V>(s: Seq<(Seq<char>, V)>) -> Map<Seq<char>, V>
    decreases s.len(),
{
    if s.len() == 0 {
        Map::empty()
    } else {
        pairs_map(s.drop_last()).insert(s.last().0, s.last().1)
    }
}

/// A value as bytes or text.
pub open spec fn value_view(v: KeePassValue) -> ValueView {
    match v {
        KeePassValue::Protected(b) => ValueView::Protected(b@),
        KeePassValue::Unprotected(t) => ValueView::Unprotected(t@),
        KeePassValue::Bytes(b) => ValueView::Bytes(b@),
    }
}

/// An optional value as bytes or text.
pub open spec fn opt_value_view(v: Option<KeePassValue>) -> Option<ValueView> {
    match v {
        Some(x) => Some(value_view(x)),
        None => None,
    }
}

/// An entry of a database file as it was read: nothing is judged of it yet.
pub struct KdbxEntry {
    pub uuid: u128,
    pub fields: Vec<KeePassField>,
    pub custom_data: Vec<KeePassCustomItem>,
    pub tags: Vec<String>,
    /// The built-in icon, if the entry uses one.
    pub icon_id: Option<usize>,
    /// The image data of the entry's custom icon, if it has one.
    pub custom_icon: Option<Vec<u8>>,
    /// The entry is marked to expire.
    pub expires: bool,
    /// When it expires, in seconds since the Unix epoch.
    pub expiry_time: i64,
    pub attachments: Vec<KeePassAttachment>,
}

/// A group of a database file as it was read, with everything below it.
pub struct KdbxGroup {
    pub uuid: u128,
    pub name: String,
    pub icon_id: Option<usize>,
    pub has_custom_icon: bool,
    pub groups: Vec<KdbxGroup>,
    pub entries: Vec<KdbxEntry>,
}

/// An entry as values.
pub open spec fn entry_view(e: KdbxEntry) -> EntryView {
    EntryView {
        uuid: e.uuid,
        fields: pairs_map(e.fields@.map_values(|f: KeePassField| (f.name@, value_view(f.value)))),
        custom_data: pairs_map(e.custom_data@.map_values(|c: KeePassCustomItem| (c.key@, opt_value_view(c.value)))),
        tags: strings_view(e.tags@),
        icon_id: e.icon_id,
        custom_icon: match e.custom_icon {
            Some(b) => Some(b@),
            None => None,
        },
        expires: e.expires,
        expiry_time: e.expiry_time,
        attachments: pairs_map(e.attachments@.map_values(|a: KeePassAttachment| (a.name@, a.data@))),
    }
}

/// The groups as values.
pub open spec fn groups_view(gs: Seq<KdbxGroup>) -> Seq<GroupView>
    decreases gs, 1int,
{
    Seq::new(gs.len(), |i: int| group_view_at(gs, i))
}

/// The group at position `i` as values.
pub open spec fn group_view_at(gs: Seq<KdbxGroup>, i: int) -> GroupView
    decreases gs, 0int,
{
    if 0 <= i < gs.len() {
        GroupView {
            uuid: gs[i].uuid,
            name: gs[i].name@,
            icon_id: gs[i].icon_id,
            has_custom_icon: gs[i].has_custom_icon,
            groups: groups_view(gs[i].groups@),
            entries: gs[i].entries@.map_values(|e: KdbxEntry| entry_view(e)),
        }
    } else {
        GroupView {
            uuid: 0,
            name: Seq::empty(),
            icon_id: None,
            has_custom_icon: false,
            groups: Seq::empty(),
            entries: Seq::empty(),
        }
    }
}

/// A group as values.
pub open spec fn group_view(g: KdbxGroup) -> GroupView {
    group_view_at(seq![g], 0)
}

/// What the library reads of a database file, as plain values.
pub struct KdbxContents {
    pub root: KdbxGroup,
    pub public_custom_data: Vec<(String, String)>,
    pub recycle_bin: Option<u128>,
    /// The database's custom data.
    pub custom_data: Vec<KeePassCustomItem>,
}

/// The contents as values.
pub open spec fn kdbx_view(c: KdbxContents) -> KdbxView {
    KdbxView {
        root: group_view(c.root),
        public_custom_data: pairs_map(c.public_custom_data@.map_values(|p: (String, String)| (p.0@, p.1@))),
        recycle_bin: c.recycle_bin,
        custom_data: pairs_map(c.custom_data@.map_values(|c: KeePassCustomItem| (c.key@, opt_value_view(c.value)))),
    }
}

/// The file holds a KeePass 1 database: the KeePass signature, then KeePass 1's version
/// identifier (`0xb54bfb65`, little-endian), with the rest of the 12-byte version header.
pub open spec fn is_kdb_file(bytes: Seq<u8>) -> bool {
    &&& bytes.len() >= 12
    &&& bytes[0] == 0x03u8 && bytes[1] == 0xd9u8 && bytes[2] == 0xa2u8 && bytes[3] == 0x9au8
    &&& bytes[4] == 0x65u8 && bytes[5] == 0xfbu8 && bytes[6] == 0x4bu8 && bytes[7] == 0xb5u8
}

/// An entry as judged when it is loaded: it has expired when it is marked to expire and its
/// expiry time lies before `now`; its password is weak when its UUID is among `weak`.
pub open spec fn judged_entry(raw: KdbxEntry, now: i64, weak: Seq<u128>) -> KeePassEntry {
    KeePassEntry {
        uuid: raw.uuid,
        fields: raw.fields,
        custom_data: raw.custom_data,
        tags: raw.tags,
        icon_id: raw.icon_id,
        custom_icon: raw.custom_icon,
        is_expired: raw.expires && raw.expiry_time < now,
        password_is_weak: weak.contains(raw.uuid),
        attachments: raw.attachments,
    }
}

/// A group with everything below it, as a value: its own fields, its subgroups, its entries.
pub struct LoadedGroupView {
    pub uuid: u128,
    pub name: String,
    pub icon_id: Option<usize>,
    pub has_custom_icon: bool,
    pub groups: Seq<LoadedGroupView>,
    pub entries: Seq<KeePassEntry>,
}

/// The groups as values.
pub open spec fn loaded_views(gs: Seq<KeePassGroup>) -> Seq<LoadedGroupView>
    decreases gs, 1int,
{
    Seq::new(gs.len(), |i: int| loaded_view_at(gs, i))
}

/// The group at position `i` as a value.
pub open spec fn loaded_view_at(gs: Seq<KeePassGroup>, i: int) -> LoadedGroupView
    decreases gs, 0int,
{
    if 0 <= i < gs.len() {
        LoadedGroupView {
            uuid: gs[i].uuid,
            name: gs[i].name,
            icon_id: gs[i].icon_id,
            has_custom_icon: gs[i].has_custom_icon,
            groups: loaded_views(gs[i].groups@),
            entries: gs[i].entries@,
        }
    } else {
        LoadedGroupView {
            uuid: 0,
            name: gs[0].name,
            icon_id: None,
            has_custom_icon: false,
            groups: Seq::empty(),
            entries: Seq::empty(),
        }
    }
}

/// A group as a value.
pub open spec fn loaded_view(g: KeePassGroup) -> LoadedGroupView {
    loaded_view_at(seq![g], 0)
}

/// The groups as judged when they are loaded (see `judged_entry`).
pub open spec fn judged_views(gs: Seq<KdbxGroup>, now: i64, weak: Seq<u128>) -> Seq<LoadedGroupView>
    decreases gs, 1int,
{
    Seq::new(gs.len(), |i: int| judged_view_at(gs, i, now, weak))
}

/// The group at position `i` as judged.
pub open spec fn judged_view_at(gs: Seq<KdbxGroup>, i: int, now: i64, weak: Seq<u128>) -> LoadedGroupView
    decreases gs, 0int,
{
    if 0 <= i < gs.len() {
        LoadedGroupView {
            uuid: gs[i].uuid,
            name: gs[i].name,
            icon_id: gs[i].icon_id,
            has_custom_icon: gs[i].has_custom_icon,
            groups: judged_views(gs[i].groups@, now, weak),
            entries: gs[i].entries@.map_values(|e: KdbxEntry| judged_entry(e, now, weak)),
        }
    } else {
        LoadedGroupView {
            uuid: 0,
            name: gs[0].name,
            icon_id: None,
            has_custom_icon: false,
            groups: Seq::empty(),
            entries: Seq::empty(),
        }
    }
}

/// A group as judged when it is loaded, with everything below it.
pub open spec fn judged_view(g: KdbxGroup, now: i64, weak: Seq<u128>) -> LoadedGroupView {
    judged_view_at(seq![g], 0, now, weak)
}

/// Judges an entry as it is loaded (see `judged_entry`).
pub fn judge_entry(raw: KdbxEntry, now: i64, weak: &Vec<u128>) -> (r: KeePassEntry)
    ensures
        r == judged_entry(raw, now, weak@),
{
    let mut is_weak = false;
    let mut i: usize = 0;
    while i < weak.len()
        invariant
            i <= weak@.len(),
            is_weak == weak@.take(i as int).contains(raw.uuid),
        decreases weak@.len() - i,
    {
        proof {
            crate::rx::rx_loader::lemma_push_contains(weak@.take(i as int), weak@[i as int], raw.uuid);
            assert(weak@.take(i + 1) == weak@.take(i as int).push(weak@[i as int]));
        }
        if weak[i] == raw.uuid {
            is_weak = true;
        }
        i = i + 1;
    }
    assert(weak@.take(weak@.len() as int) == weak@);
    let KdbxEntry { uuid, fields, custom_data, tags, icon_id, custom_icon, expires, expiry_time, attachments } = raw;
    KeePassEntry {
        uuid,
        fields,
        custom_data,
        tags,
        icon_id,
        custom_icon,
        is_expired: expires && expiry_time < now,
        password_is_weak: is_weak,
        attachments,
    }
}

/// Judges a group and everything below it as it is loaded (see `judged_view`).
pub fn judge_group(raw: KdbxGroup, now: i64, weak: &Vec<u128>) -> (r: KeePassGroup)
    ensures
        loaded_view(r) == judged_view(raw, now, weak@),
    decreases raw,
{
    let ghost g0 = raw;
    let KdbxGroup { uuid, name, icon_id, has_custom_icon, groups, entries } = raw;
    let mut rest = groups;
    let mut out: Vec<KeePassGroup> = Vec::new();
    let n = rest.len();
    while rest.len() > 0
        invariant
            g0 == raw,
            n == g0.groups@.len(),
            out@.len() + rest@.len() == n,
            rest@ == g0.groups@.subrange(out@.len() as int, n as int),
            forall|q: int| 0 <= q < out@.len() ==> #[trigger] loaded_view(out@[q]) == judged_view(g0.groups@[q], now, weak@),
        decreases rest@.len(),
    {
        let k = out.len();
        let sub = rest.remove(0);
        assert(sub == g0.groups@[k as int]);
        assert(decreases_to!(g0 => g0.groups@[k as int]));
        let judged = judge_group(sub, now, weak);
        out.push(judged);
        assert(rest@ =~= g0.groups@.subrange(out@.len() as int, n as int));
    }
    let mut rest_e = entries;
    let mut out_e: Vec<KeePassEntry> = Vec::new();
    let m = rest_e.len();
    while rest_e.len() > 0
        invariant
            m == g0.entries@.len(),
            n == g0.groups@.len(),
            out@.len() == n,
            forall|q: int| 0 <= q < out@.len() ==> #[trigger] loaded_view(out@[q]) == judged_view(g0.groups@[q], now, weak@),
            out_e@.len() + rest_e@.len() == m,
            rest_e@ == g0.entries@.subrange(out_e@.len() as int, m as int),
            forall|q: int| 0 <= q < out_e@.len() ==> #[trigger] out_e@[q] == judged_entry(g0.entries@[q], now, weak@),
        decreases rest_e@.len(),
    {
        let e = rest_e.remove(0);
        out_e.push(judge_entry(e, now, weak));
        assert(rest_e@ =~= g0.entries@.subrange(out_e@.len() as int, m as int));
    }
    let r = KeePassGroup { uuid, name, icon_id, has_custom_icon, groups: out, entries: out_e };
    assert forall|q: int| 0 <= q < n implies #[trigger] loaded_views(r.groups@)[q] == judged_views(g0.groups@, now, weak@)[q] by {
        assert(loaded_view(out@[q]) == judged_view(g0.groups@[q], now, weak@));
        assert(seq![out@[q]][0] == out@[q]);
        assert(seq![g0.groups@[q]][0] == g0.groups@[q]);
        assert(loaded_views(r.groups@)[q] == loaded_view_at(r.groups@, q));
        assert(loaded_view_at(r.groups@, q) == loaded_view(out@[q]));
        assert(judged_view_at(g0.groups@, q, now, weak@) == judged_view(g0.groups@[q], now, weak@));
    }
    assert(loaded_views(r.groups@) =~= judged_views(g0.groups@, now, weak@));
    assert(r.entries@ =~= g0.entries@.map_values(|e: KdbxEntry| judged_entry(e, now, weak@)));
    assert(seq![r][0] == r);
    assert(seq![g0][0] == g0);
    r
}

/// The text of the first field of an entry with the given name: a plain value, or a
/// protected one that is UTF-8; none for binary data or undecodable bytes.
pub open spec fn field_text(fields: Seq<KeePassField>, name: Seq<char>) -> Option<Seq<char>>
    decreases fields.len(),
{
    if fields.len() == 0 {
        None
    } else if fields[0].name@ == name {
        match fields[0].value {
            KeePassValue::Unprotected(t) => Some(t@),
            KeePassValue::Protected(b) => if valid_utf8(b@) {
                Some(decode_utf8(b@))
            } else {
                None
            },
            KeePassValue::Bytes(_) => None,
        }
    } else {
        field_text(fields.drop_first(), name)
    }
}

/// The password of an entry as text, if it has one.
pub open spec fn entry_password(e: KdbxEntry) -> Option<Seq<char>> {
    field_text(e.fields@, "Password"@)
}

/// The entries below the groups from position `k` on, each with its password: for each
/// group, those below its subgroups, then its own.
pub open spec fn passwords_from(gs: Seq<KdbxGroup>, k: int) -> Seq<(u128, Option<Seq<char>>)>
    decreases gs, 1int, gs.len() - k,
{
    if k < 0 || k >= gs.len() {
        Seq::empty()
    } else {
        passwords_at(gs, k) + passwords_from(gs, k + 1)
    }
}

/// The entries below the group at position `k`, each with its password.
pub open spec fn passwords_at(gs: Seq<KdbxGroup>, k: int) -> Seq<(u128, Option<Seq<char>>)>
    decreases gs, 0int, 0int,
{
    if 0 <= k < gs.len() {
        passwords_from(gs[k].groups@, 0) + gs[k].entries@.map_values(|e: KdbxEntry| (e.uuid, entry_password(e)))
    } else {
        Seq::empty()
    }
}

/// The entries below a group, each with its password.
pub open spec fn group_passwords(g: KdbxGroup) -> Seq<(u128, Option<Seq<char>>)> {
    passwords_at(seq![g], 0)
}

/// The pairs as values.
pub open spec fn password_pairs_view(v: Seq<(u128, Option<String>)>) -> Seq<(u128, Option<Seq<char>>)> {
    v.map_values(|p: (u128, Option<String>)| (p.0, opt_text(p.1)))
}

/// The text of a field (see `field_text`).
pub fn find_field_text(fields: &Vec<KeePassField>, name: &str) -> (r: Option<String>)
    ensures
        opt_text(r) == field_text(fields@, name@),
{
    let mut i: usize = 0;
    assert(fields@.skip(0) =~= fields@);
    while i < fields.len()
        invariant
            i <= fields@.len(),
            field_text(fields@, name@) == field_text(fields@.skip(i as int), name@),
        decreases fields@.len() - i,
    {
        assert(fields@.skip(i as int)[0] == fields@[i as int]);
        assert(fields@.skip(i as int).drop_first() =~= fields@.skip(i + 1));
        if crate::text::str_eq(fields[i].name.as_str(), name) {
            return match &fields[i].value {
                KeePassValue::Unprotected(t) => Some(crate::rx::rx_entry::copy_string(t)),
                KeePassValue::Protected(b) => match crate::outside::utf8_str(b.as_slice()) {
                    Some(t) => Some(crate::text::to_owned_string(t)),
                    None => None,
                },
                KeePassValue::Bytes(_) => None,
            };
        }
        i = i + 1;
    }
    assert(fields@.skip(i as int).len() == 0);
    None
}

/// Appends the entries below a group, each with its password as text, for their strength to
/// be judged (see `group_passwords`).
pub fn collect_passwords(g: &KdbxGroup, out: &mut Vec<(u128, Option<String>)>)
    ensures
        password_pairs_view(final(out)@) == password_pairs_view(old(out)@) + group_passwords(*g),
    decreases g,
{
    let ghost start = password_pairs_view(out@);
    let ghost gs = g.groups@;
    assert(passwords_from(gs, 0) == passwords_from(gs, 0));
    let n = g.groups.len();
    let mut k: usize = 0;
    while k < n
        invariant
            n == gs.len(),
            gs == g.groups@,
            k <= n,
            password_pairs_view(out@) + passwords_from(gs, k as int) == start + passwords_from(gs, 0),
        decreases n - k,
    {
        let ghost before = password_pairs_view(out@);
        assert(decreases_to!(*g => g.groups@[k as int]));
        collect_passwords(&g.groups[k], out);
        assert(seq![gs[k as int]][0] == gs[k as int]);
        assert(passwords_at(seq![gs[k as int]], 0) == passwords_from(gs[k as int].groups@, 0) + gs[k as int].entries@.map_values(|e: KdbxEntry| (e.uuid, entry_password(e))));
        assert(passwords_at(gs, k as int) == passwords_at(seq![gs[k as int]], 0));
        assert(passwords_from(gs, k as int) == passwords_at(gs, k as int) + passwords_from(gs, k + 1));
        assert(password_pairs_view(out@) + passwords_from(gs, k + 1) =~= before + passwords_from(gs, k as int));
        k = k + 1;
    }
    assert(passwords_from(gs, n as int) =~= Seq::<(u128, Option<Seq<char>>)>::empty());
    let ghost mid = password_pairs_view(out@);
    assert(mid =~= start + passwords_from(gs, 0));
    let m = g.entries.len();
    for j in 0..m
        invariant
            m == g.entries@.len(),
            password_pairs_view(out@) == mid + g.entries@.take(j as int).map_values(|e: KdbxEntry| (e.uuid, entry_password(e))),
    {
        let text = find_field_text(&g.entries[j].fields, "Password");
        proof {
            reveal_strlit("Password");
        }
        let ghost before = out@;
        out.push((g.entries[j].uuid, text));
        assert(password_pairs_view(out@) =~= password_pairs_view(before).push((g.entries@[j as int].uuid, entry_password(g.entries@[j as int]))));
        assert(g.entries@.take(j + 1).map_values(|e: KdbxEntry| (e.uuid, entry_password(e))) =~= g.entries@.take(j as int).map_values(|e: KdbxEntry| (e.uuid, entry_password(e))).push((g.entries@[j as int].uuid, entry_password(g.entries@[j as int]))));
    }
    assert(g.entries@.take(m as int) =~= g.entries@);
    assert(seq![*g][0] == *g);
    assert(password_pairs_view(out@) =~= start + group_passwords(*g));
}

/// The text of the saved searches in a database's custom data: the value of the first item
/// keyed `KPXC_SavedSearch`, when it is a string.
pub open spec fn saved_search_text(items: Seq<KeePassCustomItem>) -> Option<Seq<char>>
    decreases items.len(),
{
    if items.len() == 0 {
        None
    } else if items[0].key@ == "KPXC_SavedSearch"@ {
        match items[0].value {
            Some(KeePassValue::Unprotected(t)) => Some(t@),
            _ => None,
        }
    } else {
        saved_search_text(items.drop_first())
    }
}

/// Finds the text of the saved searches (see `saved_search_text`).
pub fn find_saved_search_text(items: &Vec<KeePassCustomItem>) -> (r: Option<String>)
    ensures
        opt_text(r) == saved_search_text(items@),
{
    let mut i: usize = 0;
    assert(items@.skip(0) =~= items@);
    while i < items.len()
        invariant
            i <= items@.len(),
            saved_search_text(items@) == saved_search_text(items@.skip(i as int)),
        decreases items@.len() - i,
    {
        assert(items@.skip(i as int)[0] == items@[i as int]);
        assert(items@.skip(i as int).drop_first() =~= items@.skip(i + 1));
        if crate::text::str_eq(items[i].key.as_str(), "KPXC_SavedSearch") {
            proof {
                reveal_strlit("KPXC_SavedSearch");
            }
            return match &items[i].value {
                Some(KeePassValue::Unprotected(t)) => Some(crate::rx::rx_entry::copy_string(t)),
                _ => None,
            };
        }
        i = i + 1;
    }
    assert(items@.skip(i as int).len() == 0);
    None
}

/// The text of an optional string.
pub open spec fn opt_chars(s: Option<&str>) -> Option<Seq<char>> {
    match s {
        Some(x) => Some(x@),
        None => None,
    }
}

/// The bytes of an optional slice.
pub open spec fn opt_bytes(s: Option<&[u8]>) -> Option<Seq<u8>> {
    match s {
        Some(x) => Some(x@),
        None => None,
    }
}

/// Why a database could not be read.
#[derive(Debug, Clone, Copy, PartialEq, Eq, Structural)]
pub enum LoadError {
    /// The bytes are no database this key opens: a wrong password or key file, an
    /// unsupported format, or damaged data.
    CannotOpen,
}

/// Reads a database file's bytes with a password and, when given, a key file's bytes: for a
/// KeePass 2 file, the contents exactly when the file opens with that key (see
/// `kdbx_contents_of`). A KeePass 1 file is read too, but its reader makes up fresh random
/// UUIDs, so nothing is stated of what it gives.
pub fn read_kdbx(bytes: &[u8], password: Option<&str>, key_file: Option<&[u8]>) -> (r: Result<KdbxContents, LoadError>)
    ensures
        !is_kdb_file(bytes@) ==> match kdbx_contents_of(bytes@, opt_chars(password), opt_bytes(key_file)) {
            None => r matches Err(LoadError::CannotOpen),
            Some(v) => r matches Ok(c) && kdbx_view(c) == v,
        },
{
    match open_kdbx(bytes, password, key_file) {
        Some(c) => Ok(c),
        None => Err(LoadError::CannotOpen),
    }
}

/// A database as loaded: the library's database and the searches KeePassXC saved in it.
pub struct Loaded {
    pub db: RxDatabase,
    pub saved_searches: Vec<RxSavedSearchDef>,
}

/// Loads the database from what was read of its file: its groups and entries as judged at
/// `now` with the UUIDs of the entries whose password is weak (see `judged_view` and
/// `RxDatabase::loaded_from`), its metadata from the public custom data and the recycle bin,
/// and its saved searches from the custom data (see `saved_search_text`).
pub fn load_database(contents: KdbxContents, now: i64, weak: &Vec<u128>) -> (r: Loaded)
    ensures
        r.db.wf(),
        exists|g: KeePassGroup| loaded_view(g) == judged_view(contents.root, now, weak@) && r.db.loaded_from(g),
        opt_text(r.db.metadata.name) == match custom_value(items_view(contents.public_custom_data@), "KPXC_PUBLIC_NAME"@) {
            Some(v) => string_value_of(v),
            None => None,
        },
        opt_text(r.db.metadata.color) == match custom_value(items_view(contents.public_custom_data@), "KPXC_PUBLIC_COLOR"@) {
            Some(v) => string_value_of(v),
            None => None,
        },
        r.db.metadata.icon == match custom_value(items_view(contents.public_custom_data@), "KPXC_PUBLIC_ICON"@) {
            Some(v) => i32_value_of(v),
            None => None,
        },
        r.db.metadata.recycle_bin_uuid == contents.recycle_bin,
        r.saved_searches@.map_values(|d: RxSavedSearchDef| (d.name@, d.query@)) == saved_searches_of(
            saved_search_text(contents.custom_data@),
        ),
{
    let KdbxContents { root, public_custom_data, recycle_bin, custom_data } = contents;
    let metadata = RxMetadata::from_custom_data(&public_custom_data, recycle_bin);
    let text = find_saved_search_text(&custom_data);
    let saved_searches = parse_saved_searches(match &text {
        Some(t) => Some(t.as_str()),
        None => None,
    });
    let judged = judge_group(root, now, weak);
    let db = RxDatabase::new(&judged, metadata);
    Loaded { db, saved_searches }
}

} // verus!
