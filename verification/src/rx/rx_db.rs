//! The loaded password database.
use vstd::prelude::*;
use std::rc::Rc;
use indexmap::IndexSet;
use crate::index_set::{uuid_set_index_of, uuid_set_items};
use crate::rx::rx_entry::{opt_view, value_text, RxEntry, RxIcon, RxIconView, RxValue};
use crate::rx::rx_group::{RxGroup, RxTemplate};
use crate::rx::rx_loader::{
    dedup_first, entries_below, entry_src_ids, group_src_ids, groups_below, last_pos, template_members,
    template_refs, LoadState, lemma_dedup_distinct, lemma_dedup_contains,
};
use crate::rx::source::{KeePassEntry, KeePassGroup};
use crate::text::to_owned_string;

verus! {

/// Database-wide settings shown by the user interface.
pub struct RxMetadata {
    pub color: Option<String>,
    pub name: Option<String>,
    pub icon: Option<i32>,
    pub recycle_bin_uuid: Option<u128>,
}

/// A loaded password database: its groups and entries, each found by UUID, and the
/// templates its entries are made from.
pub struct RxDatabase {
    pub metadata: RxMetadata,
    pub root: u128,
    pub templates: Vec<Rc<RxTemplate>>,
    pub group_ids: IndexSet<u128>,
    pub groups: Vec<Rc<RxGroup>>,
    pub entry_ids: IndexSet<u128>,
    pub entries: Vec<Rc<RxEntry>>,
}

/// The groups stored when loading a database from its root group.
pub open spec fn loaded_groups(root: KeePassGroup) -> Seq<(KeePassGroup, Option<u128>)> {
    groups_below(root).push((root, None))
}

/// The entries stored when loading a database from its root group.
pub open spec fn loaded_entries(root: KeePassGroup) -> Seq<(KeePassEntry, u128)> {
    entries_below(root)
}

/// The name a template gets: the title of its own entry, or "Unknown Template".
pub open spec fn template_name(entry: Option<RxEntry>) -> Seq<char> {
    match entry {
        Some(e) => match value_text_opt(e.title) {
            Some(t) => t,
            None => "Unknown Template"@,
        },
        None => "Unknown Template"@,
    }
}

/// The text of an optional value.
pub open spec fn value_text_opt(v: Option<RxValue>) -> Option<Seq<char>> {
    match v {
        Some(x) => value_text(x@),
        None => None,
    }
}

/// The icon a template gets: that of its own entry, or none.
pub open spec fn template_icon(entry: Option<RxEntry>) -> RxIconView {
    match entry {
        Some(e) => e.icon@,
        None => RxIconView::NoIcon,
    }
}

impl RxDatabase {
    /// The UUIDs of the entries, in order.
    pub open spec fn entry_uuids(&self) -> Seq<u128> {
        self.entries@.map_values(|e: Rc<RxEntry>| e.uuid)
    }

    /// The UUIDs of the groups, in order.
    pub open spec fn group_uuids(&self) -> Seq<u128> {
        self.groups@.map_values(|g: Rc<RxGroup>| g.uuid)
    }

    /// The UUIDs of the templates, in order.
    pub open spec fn template_uuids(&self) -> Seq<u128> {
        self.templates@.map_values(|t: Rc<RxTemplate>| t.uuid)
    }

    /// The entry with the given UUID, if there is one.
    pub open spec fn entry_with(&self, u: u128) -> Option<RxEntry> {
        if self.entry_uuids().contains(u) {
            Some(*self.entries@[self.entry_uuids().index_of(u)])
        } else {
            None
        }
    }

    /// The group with the given UUID, if there is one.
    pub open spec fn group_with(&self, u: u128) -> Option<RxGroup> {
        if self.group_uuids().contains(u) {
            Some(*self.groups@[self.group_uuids().index_of(u)])
        } else {
            None
        }
    }

    /// The database is consistent: the UUID indexes match the stored groups and entries,
    /// each UUID is stored once, and the root group is there.
    pub open spec fn wf(&self) -> bool {
        &&& uuid_set_items(self.group_ids) == self.group_uuids()
        &&& uuid_set_items(self.entry_ids) == self.entry_uuids()
        &&& self.group_uuids().no_duplicates()
        &&& self.entry_uuids().no_duplicates()
        &&& self.template_uuids().no_duplicates()
        &&& self.group_uuids().contains(self.root)
    }

    /// The database holds what loading the root group of a file gives: groups and entries
    /// each kept once per UUID in the order of first appearance, each the last one loaded
    /// with its UUID; one template per template UUID that entries point to, with its members
    /// in load order, named after its own entry.
    pub open spec fn loaded_from(&self, root: KeePassGroup) -> bool {
        let gsrcs = loaded_groups(root);
        let esrcs = loaded_entries(root);
        let gids = group_src_ids(gsrcs);
        let eids = entry_src_ids(esrcs);
        &&& self.root == root.uuid
        &&& self.group_uuids() == dedup_first(gids)
        &&& forall|i: int|
            0 <= i < self.groups@.len() ==> {
                let g = #[trigger] self.groups@[i];
                let src = gsrcs[last_pos(gids, g.uuid)];
                g.made_from(src.0, src.1)
            }
        &&& self.entry_uuids() == dedup_first(eids)
        &&& forall|i: int|
            0 <= i < self.entries@.len() ==> {
                let e = #[trigger] self.entries@[i];
                let src = esrcs[last_pos(eids, e.uuid)];
                e.made_from(src.0, src.1)
            }
        &&& self.template_uuids() == dedup_first(template_refs(esrcs))
        &&& forall|i: int|
            0 <= i < self.templates@.len() ==> {
                let t = #[trigger] self.templates@[i];
                &&& t.entry_uuids@ == template_members(esrcs, t.uuid)
                &&& t.name@ == template_name(self.entry_with(t.uuid))
                &&& t.icon@ == template_icon(self.entry_with(t.uuid))
            }
    }
}


/// In a sequence without duplicates, the position of a value is where it stands.
pub proof fn lemma_index_of_unique(s: Seq<u128>, i: int)
    requires
        s.no_duplicates(),
        0 <= i < s.len(),
    ensures
        s.contains(s[i]),
        s.index_of(s[i]) == i,
{
    assert(s[i] == s[i]);
    let q = s.index_of(s[i]);
    assert(0 <= q < s.len() && s[q] == s[i]);
}

impl RxDatabase {
    /// The database's metadata.
    pub fn metadata(&self) -> (r: &RxMetadata)
        ensures
            r == &self.metadata,
    {
        &self.metadata
    }

    /// All groups, in order.
    pub fn all_groups(&self) -> (r: &Vec<Rc<RxGroup>>)
        ensures
            r == &self.groups,
    {
        &self.groups
    }

    /// All entries, in order.
    pub fn all_entries(&self) -> (r: &Vec<Rc<RxEntry>>)
        ensures
            r == &self.entries,
    {
        &self.entries
    }

    /// All templates.
    pub fn all_templates(&self) -> (r: &Vec<Rc<RxTemplate>>)
        ensures
            r == &self.templates,
    {
        &self.templates
    }

    /// The group with the given UUID.
    pub fn get_group(&self, group_uuid: u128) -> (r: Option<Rc<RxGroup>>)
        requires
            self.wf(),
        ensures
            match r {
                Some(g) => self.group_with(group_uuid) == Some(*g),
                None => self.group_with(group_uuid) is None,
            },
    {
        match uuid_set_index_of(&self.group_ids, group_uuid) {
            Some(p) => {
                proof {
                    lemma_index_of_unique(self.group_uuids(), p as int);
                }
                Some(self.groups[p].clone())
            },
            None => None,
        }
    }

    /// The entry with the given UUID.
    pub fn get_entry(&self, entry_uuid: u128) -> (r: Option<Rc<RxEntry>>)
        requires
            self.wf(),
        ensures
            match r {
                Some(e) => self.entry_with(entry_uuid) == Some(*e),
                None => self.entry_with(entry_uuid) is None,
            },
    {
        match uuid_set_index_of(&self.entry_ids, entry_uuid) {
            Some(p) => {
                proof {
                    lemma_index_of_unique(self.entry_uuids(), p as int);
                }
                Some(self.entries[p].clone())
            },
            None => None,
        }
    }

    /// The root group.
    pub fn root_group(&self) -> (r: Rc<RxGroup>)
        requires
            self.wf(),
        ensures
            self.group_with(self.root) == Some(*r),
    {
        match self.get_group(self.root) {
            Some(g) => g,
            None => {
                assert(false);
                Rc::new(RxGroup {
                    uuid: 0,
                    parent: None,
                    name: String::new(),
                    icon: RxIcon::NoIcon,
                    subgroups: Vec::new(),
                    entries: Vec::new(),
                })
            },
        }
    }

    /// The template with the given UUID.
    pub fn get_template(&self, template_uuid: u128) -> (r: Option<Rc<RxTemplate>>)
        ensures
            match r {
                Some(t) => exists|i: int|
                    0 <= i < self.templates@.len() && self.templates@[i] == t && t.uuid
                        == template_uuid,
                None => !self.template_uuids().contains(template_uuid),
            },
    {
        let n = self.templates.len();
        for i in 0..n
            invariant
                n == self.templates@.len(),
                forall|k: int| 0 <= k < i ==> self.templates@[k].uuid != template_uuid,
        {
            if self.templates[i].uuid == template_uuid {
                return Some(self.templates[i].clone());
            }
        }
        proof {
            if self.template_uuids().contains(template_uuid) {
                let k = choose|k: int|
                    0 <= k < self.template_uuids().len() && self.template_uuids()[k]
                        == template_uuid;
                assert(self.templates@[k].uuid == template_uuid);
            }
        }
        None
    }

    /// Loads a database from the root group of a file.
    pub fn new(root: &KeePassGroup, metadata: RxMetadata) -> (r: RxDatabase)
        ensures
            r.wf(),
            r.loaded_from(*root),
            r.metadata == metadata,
    {
        let mut state = LoadState::new();
        let root_group = state.load_groups_recursive(
            root,
            None,
            Ghost(Seq::empty()),
            Ghost(Seq::empty()),
        );
        assert(Seq::<(KeePassGroup, Option<u128>)>::empty() + groups_below(*root) =~= groups_below(
            *root,
        ));
        assert(Seq::<(KeePassEntry, u128)>::empty() + entries_below(*root) =~= entries_below(
            *root,
        ));
        state.insert_group(root_group, Ghost(groups_below(*root)), Ghost((*root, None)));
        let ghost esrcs = loaded_entries(*root);
        assert(groups_below(*root).push((*root, None)) == loaded_groups(*root));
        assert(state.templates_loaded(esrcs));
        let LoadState { templates, group_ids, groups, entry_ids, entries } = state;
        let mut db = RxDatabase {
            metadata,
            root: root.uuid,
            templates: Vec::new(),
            group_ids,
            groups,
            entry_ids,
            entries,
        };
        proof {
            let gsrcs = loaded_groups(*root);
            let gids = group_src_ids(gsrcs);
            lemma_dedup_distinct(gids);
            lemma_dedup_distinct(entry_src_ids(loaded_entries(*root)));
            lemma_dedup_distinct(template_refs(loaded_entries(*root)));
            assert(gids[gids.len() - 1] == root.uuid);
            lemma_dedup_contains(gids, root.uuid);
            assert(db.group_uuids() =~= dedup_first(gids));
            assert(db.entry_uuids() =~= dedup_first(entry_src_ids(loaded_entries(*root))));
        }
        let n = templates.len();
        let ghost g0 = db.groups;
        let ghost e0 = db.entries;
        let ghost gi0 = db.group_ids;
        let ghost ei0 = db.entry_ids;
        assert(db.loaded_from(*root) || true);
        for i in 0..n
            invariant
                n == templates@.len(),
                db.wf(),
                db.metadata == metadata,
                db.root == root.uuid,
                db.groups == g0,
                db.entries == e0,
                db.group_ids == gi0,
                db.entry_ids == ei0,
                templates@.map_values(|t: RxTemplate| t.uuid) == dedup_first(template_refs(esrcs)),
                forall|k: int|
                    0 <= k < n ==> (#[trigger] templates@[k]).entry_uuids@ == template_members(
                        esrcs,
                        templates@[k].uuid,
                    ),
                db.templates@.len() == i,
                db.template_uuids() == templates@.map_values(|t: RxTemplate| t.uuid).take(
                    i as int,
                ),
                templates@.map_values(|t: RxTemplate| t.uuid).no_duplicates(),
                forall|k: int|
                    0 <= k < i ==> {
                        let t = #[trigger] db.templates@[k];
                        &&& t.entry_uuids@ == templates@[k].entry_uuids@
                        &&& t.name@ == template_name(db.entry_with(t.uuid))
                        &&& t.icon@ == template_icon(db.entry_with(t.uuid))
                    },
        {
            let t = &templates[i];
            let template_entry = db.get_entry(t.uuid);
            let name = match &template_entry {
                Some(e) => match RxEntry::text_of(e.title()) {
                    Some(title) => title,
                    None => to_owned_string("Unknown Template"),
                },
                None => to_owned_string("Unknown Template"),
            };
            let icon = match &template_entry {
                Some(e) => e.icon.duplicate(),
                None => RxIcon::NoIcon,
            };
            let named = RxTemplate {
                uuid: t.uuid,
                name,
                icon,
                entry_uuids: crate::rx::rx_loader::copy_uuids(&t.entry_uuids),
            };
            db.templates.push(Rc::new(named));
            assert(db.template_uuids() =~= templates@.map_values(|t: RxTemplate| t.uuid).take(
                i + 1,
            ));
        }
        assert(templates@.map_values(|t: RxTemplate| t.uuid).take(n as int) =~= templates@.map_values(|t: RxTemplate| t.uuid));
        assert forall|i: int| 0 <= i < db.templates@.len() implies {
            let t = #[trigger] db.templates@[i];
            &&& t.entry_uuids@ == template_members(esrcs, t.uuid)
            &&& t.name@ == template_name(db.entry_with(t.uuid))
            &&& t.icon@ == template_icon(db.entry_with(t.uuid))
        } by {
            assert(db.template_uuids()[i] == templates@.map_values(|t: RxTemplate| t.uuid)[i]);
            assert(db.templates@[i].entry_uuids@ == templates@[i].entry_uuids@);
        }
        assert(db.template_uuids() == dedup_first(template_refs(esrcs)));
        assert(db.group_uuids() == dedup_first(group_src_ids(loaded_groups(*root))));
        assert(db.entry_uuids() == dedup_first(entry_src_ids(esrcs)));
        db
    }
}

} // verus!

verus! {

/// The entry the database finds by UUID is the one stored at the UUID's position.
pub proof fn lemma_entry_with_index(db: RxDatabase, u: u128)
    ensures
        db.entry_uuids().contains(u) ==> db.entry_with(u) == Some(*db.entries@[db.entry_uuids().index_of(u)]),
{
}

/// The group the database finds by UUID is the one stored at the UUID's position.
pub proof fn lemma_group_with_index(db: RxDatabase, u: u128)
    ensures
        db.group_uuids().contains(u) ==> db.group_with(u) == Some(*db.groups@[db.group_uuids().index_of(u)]),
{
}

} // verus!
