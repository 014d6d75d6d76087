//! Building the containers of a view from the database.
use vstd::prelude::*;
use std::rc::Rc;
use crate::rx::rx_container::{
    container_key, ref_key, sort_containers, RxContainedRef, RxContainedType, RxContainer,
    RxContainerGrouping, RxContainerItem, RxGrouping,
};
use crate::rx::rx_db::RxDatabase;
use crate::rx::rx_entry::RxEntry;
use crate::rx::rx_group::{RxGroup, RxSavedSearch, RxTag, RxTemplate};
use crate::rx::sort_order::{sort_by_key, sort_by_keys, KeyView, SortKey};

verus! {

/// The entry with the given UUID, as the database shares it.
pub open spec fn entry_rc(db: RxDatabase, u: u128) -> Option<Rc<RxEntry>> {
    if db.entry_uuids().contains(u) {
        Some(db.entries@[db.entry_uuids().index_of(u)])
    } else {
        None
    }
}

/// The group with the given UUID, as the database shares it.
pub open spec fn group_rc(db: RxDatabase, u: u128) -> Option<Rc<RxGroup>> {
    if db.group_uuids().contains(u) {
        Some(db.groups@[db.group_uuids().index_of(u)])
    } else {
        None
    }
}

/// The entries of the database with the given UUIDs, in order; UUIDs of no entry are left out.
pub open spec fn entries_in(db: RxDatabase, ids: Seq<u128>) -> Seq<Rc<RxEntry>>
    decreases ids.len(),
{
    if ids.len() == 0 {
        Seq::empty()
    } else {
        let rest = entries_in(db, ids.drop_last());
        match entry_rc(db, ids.last()) {
            Some(e) => rest.push(e),
            None => rest,
        }
    }
}

/// The groups of the database with the given UUIDs, in order; UUIDs of no group are left out.
pub open spec fn groups_in(db: RxDatabase, ids: Seq<u128>) -> Seq<Rc<RxGroup>>
    decreases ids.len(),
{
    if ids.len() == 0 {
        Seq::empty()
    } else {
        let rest = groups_in(db, ids.drop_last());
        match group_rc(db, ids.last()) {
            Some(g) => rest.push(g),
            None => rest,
        }
    }
}

/// The container of an entry.
pub open spec fn entry_container(e: Rc<RxEntry>) -> RxContainer {
    RxContainer { item: RxContainerItem::Entry(e), is_root: false, contained_type: RxContainedType::Entry }
}

/// What an entry is listed by.
pub open spec fn entry_key(e: Rc<RxEntry>) -> KeyView {
    ref_key(RxContainedRef::Entry(e))
}

/// What a group is listed by.
pub open spec fn group_key(g: Rc<RxGroup>) -> KeyView {
    ref_key(RxContainedRef::Group(g))
}

/// The containers of the entries with the given UUIDs, in listing order.
pub open spec fn entry_children(db: RxDatabase, ids: Seq<u128>) -> Seq<RxContainer> {
    sort_by_key(entries_in(db, ids), |e: Rc<RxEntry>| entry_key(e)).map_values(
        |e: Rc<RxEntry>| entry_container(e),
    )
}

/// The subgroups of a group that the database holds, in listing order.
pub open spec fn sorted_subgroups(db: RxDatabase, g: Rc<RxGroup>) -> Seq<Rc<RxGroup>> {
    sort_by_key(groups_in(db, g.subgroups@), |x: Rc<RxGroup>| group_key(x))
}

/// `c` is the container of a grouping by `grouping` whose children are `children`.
pub open spec fn is_grouping(c: RxContainer, t: RxContainedType, grouping: RxGrouping, children: Seq<RxContainer>) -> bool {
    &&& !c.is_root
    &&& c.contained_type == t
    &&& c.item matches RxContainerItem::Grouping(gr) && gr.grouping == grouping && gr.children@
        == children
}

/// `c` is the container of group `g`: the root of the view when `g` is the database's root
/// group; its children are the containers of its subgroups, then those of its entries, each
/// part in listing order.
pub open spec fn is_group_container(db: RxDatabase, g: Rc<RxGroup>, c: RxContainer) -> bool
    decreases c,
{
    &&& c.is_root == (db.root == g.uuid)
    &&& c.contained_type == RxContainedType::Group
    &&& match c.item {
        RxContainerItem::Grouping(gr) => {
            let subs = sorted_subgroups(db, g);
            let ents = entry_children(db, g.entries@);
            &&& gr.grouping == RxGrouping::Group(g)
            &&& gr.children@.len() == subs.len() + ents.len()
            &&& forall|i: int|
                0 <= i < subs.len() ==> is_group_container(db, subs[i], #[trigger] gr.children@[i])
            &&& forall|j: int|
                0 <= j < ents.len() ==> #[trigger] gr.children@[subs.len() + j] == ents[j]
        },
        _ => false,
    }
}

/// Below group `g`, no chain of subgroups is `n` or more deep: building its containers ends.
pub open spec fn finite_below(db: RxDatabase, g: Rc<RxGroup>, n: nat) -> bool
    decreases n,
{
    n > 0 && forall|i: int|
        0 <= i < groups_in(db, g.subgroups@).len() ==> finite_below(
            db,
            #[trigger] groups_in(db, g.subgroups@)[i],
            (n - 1) as nat,
        )
}

/// The entries of the database with the given UUIDs, in order.
pub fn existing_entries(db: &RxDatabase, ids: &Vec<u128>) -> (r: Vec<Rc<RxEntry>>)
    requires
        db.wf(),
    ensures
        r@ == entries_in(*db, ids@),
{
    let mut r: Vec<Rc<RxEntry>> = Vec::new();
    for i in 0..ids.len()
        invariant
            db.wf(),
            r@ == entries_in(*db, ids@.take(i as int)),
    {
        assert(ids@.take(i + 1).drop_last() =~= ids@.take(i as int));
        match db.get_entry(ids[i]) {
            Some(e) => {
                proof {
                    crate::rx::rx_db::lemma_entry_with_index(*db, ids@[i as int]);
                }
                r.push(e)
            },
            None => {},
        }
    }
    assert(ids@.take(ids@.len() as int) =~= ids@);
    r
}

/// The groups of the database with the given UUIDs, in order.
pub fn existing_groups(db: &RxDatabase, ids: &Vec<u128>) -> (r: Vec<Rc<RxGroup>>)
    requires
        db.wf(),
    ensures
        r@ == groups_in(*db, ids@),
{
    let mut r: Vec<Rc<RxGroup>> = Vec::new();
    for i in 0..ids.len()
        invariant
            db.wf(),
            r@ == groups_in(*db, ids@.take(i as int)),
    {
        assert(ids@.take(i + 1).drop_last() =~= ids@.take(i as int));
        match db.get_group(ids[i]) {
            Some(g) => {
                proof {
                    crate::rx::rx_db::lemma_group_with_index(*db, ids@[i as int]);
                }
                r.push(g)
            },
            None => {},
        }
    }
    assert(ids@.take(ids@.len() as int) =~= ids@);
    r
}

/// The containers of entries, in listing order.
pub fn sorted_entry_containers(entries: Vec<Rc<RxEntry>>) -> (r: Vec<RxContainer>)
    ensures
        r@ == sort_by_key(entries@, |e: Rc<RxEntry>| entry_key(e)).map_values(
            |e: Rc<RxEntry>| entry_container(e),
        ),
{
    let mut keys: Vec<SortKey> = Vec::new();
    for i in 0..entries.len()
        invariant
            keys@.len() == i,
            forall|k: int| 0 <= k < i ==> (#[trigger] keys@[k]).view_key() == entry_key(entries@[k]),
    {
        keys.push(RxContainedRef::Entry(entries[i].clone()).sort_key());
    }
    let sorted = sort_by_keys(entries, keys, Ghost(|e: Rc<RxEntry>| entry_key(e)));
    let mut r: Vec<RxContainer> = Vec::new();
    for i in 0..sorted.len()
        invariant
            r@ == sorted@.take(i as int).map_values(|e: Rc<RxEntry>| entry_container(e)),
    {
        r.push(RxContainer::from_entry(sorted[i].clone()));
        assert(r@ =~= sorted@.take(i + 1).map_values(|e: Rc<RxEntry>| entry_container(e)));
    }
    assert(sorted@.take(sorted@.len() as int) =~= sorted@);
    r
}

impl RxContainer {
    /// The container of an entry.
    pub fn from_entry(entry: Rc<RxEntry>) -> (r: RxContainer)
        ensures
            r == entry_container(entry),
    {
        RxContainer { contained_type: RxContainedType::Entry, is_root: false, item: RxContainerItem::Entry(entry) }
    }

    /// The container of a tag: its entries that the database holds, in listing order.
    pub fn from_tag(tag: &Rc<RxTag>, db: &RxDatabase) -> (r: RxContainer)
        requires
            db.wf(),
        ensures
            is_grouping(r, RxContainedType::Tag, RxGrouping::Tag(*tag), entry_children(*db, tag.entry_uuids@)),
    {
        let entries = existing_entries(db, &tag.entry_uuids);
        let children = sorted_entry_containers(entries);
        RxContainer {
            is_root: false,
            contained_type: RxContainedType::Tag,
            item: RxContainerItem::Grouping(RxContainerGrouping { children, grouping: RxGrouping::Tag(tag.clone()) }),
        }
    }

    /// The container of a saved search: the entries it found that the database holds, in
    /// listing order.
    pub fn from_saved_search(search: &Rc<RxSavedSearch>, db: &RxDatabase) -> (r: RxContainer)
        requires
            db.wf(),
        ensures
            is_grouping(
                r,
                RxContainedType::SavedSearch,
                RxGrouping::SavedSearch(*search),
                entry_children(*db, search.entry_uuids@),
            ),
    {
        let entries = existing_entries(db, &search.entry_uuids);
        let children = sorted_entry_containers(entries);
        RxContainer {
            is_root: false,
            contained_type: RxContainedType::SavedSearch,
            item: RxContainerItem::Grouping(
                RxContainerGrouping { children, grouping: RxGrouping::SavedSearch(search.clone()) },
            ),
        }
    }

    /// The container of a template: the entries made from it that the database holds, in
    /// listing order.
    pub fn from_template(template: &Rc<RxTemplate>, db: &RxDatabase) -> (r: RxContainer)
        requires
            db.wf(),
        ensures
            is_grouping(
                r,
                RxContainedType::Template,
                RxGrouping::Template(*template),
                entry_children(*db, template.entry_uuids@),
            ),
    {
        let entries = existing_entries(db, &template.entry_uuids);
        let children = sorted_entry_containers(entries);
        RxContainer {
            is_root: false,
            contained_type: RxContainedType::Template,
            item: RxContainerItem::Grouping(
                RxContainerGrouping { children, grouping: RxGrouping::Template(template.clone()) },
            ),
        }
    }

    /// The container of a group and, below it, those of its subgroups and entries.
    fn from_group_within(group: &Rc<RxGroup>, db: &RxDatabase, Ghost(n): Ghost<nat>) -> (r: RxContainer)
        requires
            db.wf(),
            finite_below(*db, *group, n),
        ensures
            is_group_container(*db, *group, r),
        decreases n,
    {
        let subs = existing_groups(db, &group.subgroups);
        let mut keys: Vec<SortKey> = Vec::new();
        for i in 0..subs.len()
            invariant
                keys@.len() == i,
                forall|k: int| 0 <= k < i ==> (#[trigger] keys@[k]).view_key() == group_key(subs@[k]),
        {
            keys.push(RxContainedRef::Group(subs[i].clone()).sort_key());
        }
        let ghost unsorted = subs@;
        let sorted = sort_by_keys(subs, keys, Ghost(|x: Rc<RxGroup>| group_key(x)));
        assert(sorted@.to_multiset() == unsorted.to_multiset());
        let mut children: Vec<RxContainer> = Vec::new();
        for i in 0..sorted.len()
            invariant
                db.wf(),
                n > 0,
                sorted@ == sorted_subgroups(*db, *group),
                forall|k: int|
                    0 <= k < groups_in(*db, group.subgroups@).len() ==> finite_below(
                        *db,
                        #[trigger] groups_in(*db, group.subgroups@)[k],
                        (n - 1) as nat,
                    ),
                sorted@.to_multiset() == groups_in(*db, group.subgroups@).to_multiset(),
                children@.len() == i,
                forall|k: int| 0 <= k < i ==> is_group_container(*db, sorted@[k], #[trigger] children@[k]),
        {
            proof {
                broadcast use vstd::seq_lib::group_to_multiset_ensures;
                let x = sorted@[i as int];
                assert(sorted@.contains(x));
                assert(sorted@.to_multiset().count(x) > 0);
                assert(groups_in(*db, group.subgroups@).to_multiset().count(x) > 0);
                assert(groups_in(*db, group.subgroups@).contains(x));
                let k = choose|k: int|
                    0 <= k < groups_in(*db, group.subgroups@).len() && groups_in(*db, group.subgroups@)[k] == x;
                assert(finite_below(*db, groups_in(*db, group.subgroups@)[k], (n - 1) as nat));
            }
            let c = RxContainer::from_group_within(&sorted[i], db, Ghost((n - 1) as nat));
            children.push(c);
        }
        let entries = existing_entries(db, &group.entries);
        let mut entry_conts = sorted_entry_containers(entries);
        let ghost nsubs = children@.len();
        let ghost ents = entry_conts@;
        children.append(&mut entry_conts);
        let r = RxContainer {
            is_root: db.root == group.uuid,
            contained_type: RxContainedType::Group,
            item: RxContainerItem::Grouping(RxContainerGrouping { children, grouping: RxGrouping::Group(group.clone()) }),
        };
        proof {
            let gr = r.item->Grouping_0;
            assert forall|j: int| 0 <= j < ents.len() implies #[trigger] gr.children@[nsubs + j] == ents[j] by {
            }
            assert forall|i: int| 0 <= i < nsubs implies is_group_container(*db, sorted@[i], #[trigger] gr.children@[i]) by {
            }
        }
        r
    }

    /// The container of a group and, below it, those of its subgroups and entries. The chains
    /// of subgroups below it must end.
    pub fn from_group(group: &Rc<RxGroup>, db: &RxDatabase) -> (r: RxContainer)
        requires
            db.wf(),
            exists|n: nat| finite_below(*db, *group, n),
        ensures
            is_group_container(*db, *group, r),
    {
        let ghost n = choose|n: nat| finite_below(*db, *group, n);
        RxContainer::from_group_within(group, db, Ghost(n))
    }
}


/// Checks that no chain of subgroups below `group` is `fuel` or more deep; `true` exactly
/// when that holds, so that building its containers ends.
pub fn finite_below_check(db: &RxDatabase, group: &Rc<RxGroup>, fuel: usize) -> (r: bool)
    requires
        db.wf(),
    ensures
        r == finite_below(*db, *group, fuel as nat),
    decreases fuel,
{
    if fuel == 0 {
        return false;
    }
    let subs = existing_groups(db, &group.subgroups);
    for i in 0..subs.len()
        invariant
            db.wf(),
            fuel > 0,
            subs@ == groups_in(*db, group.subgroups@),
            forall|k: int| 0 <= k < i ==> finite_below(*db, #[trigger] subs@[k], (fuel - 1) as nat),
    {
        if !finite_below_check(db, &subs[i], fuel - 1) {
            assert(!finite_below(*db, groups_in(*db, group.subgroups@)[i as int], (fuel - 1) as nat));
            return false;
        }
    }
    true
}

} // verus!
