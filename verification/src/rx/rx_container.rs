//! A container is a node of a view of the database: a group-like grouping with child
//! containers, or an entry. Views (all groups, all templates, all tags, all 2FA codes) are
//! trees of containers.
use vstd::prelude::*;
use std::rc::Rc;
use indexmap::IndexSet;
use crate::index_set::{uuid_set_index_of, uuid_set_insert, uuid_set_items, uuid_set_new};
use crate::outside::{fold_case, unicase_folded};
use crate::rx::rx_db::value_text_opt;
use crate::rx::rx_entry::RxEntry;
use crate::rx::rx_group::{RxGroup, RxSavedSearch, RxTag, RxTemplate};
use crate::rx::rx_loader::{dedup_first, last_pos, lemma_dedup_contains, lemma_dedup_push, lemma_last_pos, lemma_last_pos_push};
use crate::rx::search::{ref_matches, search_contained_ref, RxSearchType};
use crate::rx::sort_order::{key_before, sort_by_key, sort_by_keys, sorted_by_key, KeyView, SortKey};
use crate::text::{chars_of, to_owned_string};

verus! {

/// What a container points to.
#[derive(Debug, Clone, Copy, PartialEq, Eq, Structural)]
pub enum RxContainedType {
    Entry,
    Group,
    Template,
    Tag,
    SavedSearch,
    VirtualRoot,
}

/// The role of a grouping container.
#[derive(Debug, Clone, Copy, PartialEq, Eq, Structural)]
pub enum RxGroupingType {
    Template,
    Group,
    Root,
}

/// The thing in the database that a container points to.
pub enum RxContainedRef {
    /// The root of a view with no root in the database, by its name.
    VirtualRoot(String),
    Group(Rc<RxGroup>),
    Template(Rc<RxTemplate>),
    Tag(Rc<RxTag>),
    SavedSearch(Rc<RxSavedSearch>),
    Entry(Rc<RxEntry>),
}

/// The place of a kind of item in a list: virtual roots, groups, templates, tags, saved
/// searches, then entries.
pub open spec fn ref_rank(r: RxContainedRef) -> u8 {
    match r {
        RxContainedRef::VirtualRoot(_) => 0,
        RxContainedRef::Group(_) => 1,
        RxContainedRef::Template(_) => 2,
        RxContainedRef::Tag(_) => 3,
        RxContainedRef::SavedSearch(_) => 4,
        RxContainedRef::Entry(_) => 5,
    }
}

/// The UUID of what a reference points to; a virtual root has the nil UUID.
pub open spec fn ref_uuid(r: RxContainedRef) -> u128 {
    match r {
        RxContainedRef::Entry(e) => e.uuid,
        RxContainedRef::Group(g) => g.uuid,
        RxContainedRef::Template(t) => t.uuid,
        RxContainedRef::Tag(t) => t.uuid,
        RxContainedRef::SavedSearch(s) => s.uuid,
        RxContainedRef::VirtualRoot(_) => 0,
    }
}

/// The name of what a reference points to; an entry is named by its title, or "Untitled".
pub open spec fn ref_name(r: RxContainedRef) -> Seq<char> {
    match r {
        RxContainedRef::Entry(e) => match value_text_opt(e.title) {
            Some(t) => t,
            None => "Untitled"@,
        },
        RxContainedRef::Group(g) => g.name@,
        RxContainedRef::Template(t) => t.name@,
        RxContainedRef::Tag(t) => t.name@,
        RxContainedRef::SavedSearch(s) => s.name@,
        RxContainedRef::VirtualRoot(name) => name@,
    }
}

/// The UUID of the parent of what a reference points to: an entry's group, a group's parent
/// group, the virtual root (nil UUID) for templates, tags and saved searches, none for a
/// virtual root.
pub open spec fn ref_parent(r: RxContainedRef) -> Option<u128> {
    match r {
        RxContainedRef::Entry(e) => Some(e.parent_group),
        RxContainedRef::Group(g) => g.parent,
        RxContainedRef::VirtualRoot(_) => None,
        _ => Some(0),
    }
}

/// What references are listed by: their kind, their case-folded name, their UUID.
pub open spec fn ref_key(r: RxContainedRef) -> KeyView {
    (0, ref_rank(r), unicase_folded(ref_name(r)), ref_uuid(r))
}

impl RxContainedRef {
    /// A second reference to the same thing.
    pub fn duplicate(&self) -> (r: RxContainedRef)
        ensures
            r == *self,
    {
        match self {
            RxContainedRef::VirtualRoot(name) => RxContainedRef::VirtualRoot(name.clone()),
            RxContainedRef::Group(g) => RxContainedRef::Group(g.clone()),
            RxContainedRef::Template(t) => RxContainedRef::Template(t.clone()),
            RxContainedRef::Tag(t) => RxContainedRef::Tag(t.clone()),
            RxContainedRef::SavedSearch(s) => RxContainedRef::SavedSearch(s.clone()),
            RxContainedRef::Entry(e) => RxContainedRef::Entry(e.clone()),
        }
    }

    /// The place of this kind of item in a list.
    pub fn variant_rank(&self) -> (r: u8)
        ensures
            r == ref_rank(*self),
    {
        match self {
            RxContainedRef::VirtualRoot(_) => 0,
            RxContainedRef::Group(_) => 1,
            RxContainedRef::Template(_) => 2,
            RxContainedRef::Tag(_) => 3,
            RxContainedRef::SavedSearch(_) => 4,
            RxContainedRef::Entry(_) => 5,
        }
    }

    /// The UUID of what this points to.
    pub fn uuid(&self) -> (r: u128)
        ensures
            r == ref_uuid(*self),
    {
        match self {
            RxContainedRef::Entry(e) => e.uuid,
            RxContainedRef::Group(g) => g.uuid,
            RxContainedRef::Template(t) => t.uuid,
            RxContainedRef::Tag(t) => t.uuid,
            RxContainedRef::SavedSearch(s) => s.uuid,
            RxContainedRef::VirtualRoot(_) => 0,
        }
    }

    /// The name of what this points to.
    pub fn name(&self) -> (r: String)
        ensures
            r@ == ref_name(*self),
    {
        match self {
            RxContainedRef::Entry(e) => match RxEntry::text_of(e.title()) {
                Some(t) => t,
                None => to_owned_string("Untitled"),
            },
            RxContainedRef::Group(g) => g.name.clone(),
            RxContainedRef::Template(t) => t.name.clone(),
            RxContainedRef::Tag(t) => t.name.clone(),
            RxContainedRef::SavedSearch(s) => s.name.clone(),
            RxContainedRef::VirtualRoot(name) => name.clone(),
        }
    }

    /// The UUID of the parent of what this points to.
    pub fn parent(&self) -> (r: Option<u128>)
        ensures
            r == ref_parent(*self),
    {
        match self {
            RxContainedRef::Entry(e) => Some(e.parent_group),
            RxContainedRef::Group(g) => g.parent,
            RxContainedRef::VirtualRoot(_) => None,
            _ => Some(0),
        }
    }

    /// The key this reference is listed by.
    pub fn sort_key(&self) -> (k: SortKey)
        ensures
            k.view_key() == ref_key(*self),
    {
        let name = self.name();
        let folded = fold_case(name.as_str());
        SortKey { class: 0, rank: self.variant_rank(), name: chars_of(folded.as_str()), uuid: self.uuid() }
    }
}

/// Sorts references by kind, then case-folded name, then UUID.
pub fn sort_contained_refs(items: &mut Vec<RxContainedRef>)
    ensures
        final(items)@ == sort_by_key(old(items)@, |r: RxContainedRef| ref_key(r)),
        final(items)@.to_multiset() == old(items)@.to_multiset(),
        sorted_by_key(final(items)@, |r: RxContainedRef| ref_key(r)),
{
    let mut taken: Vec<RxContainedRef> = Vec::new();
    std::mem::swap(&mut taken, items);
    let mut keys: Vec<SortKey> = Vec::new();
    for i in 0..taken.len()
        invariant
            keys@.len() == i,
            forall|k: int| 0 <= k < i ==> (#[trigger] keys@[k]).view_key() == ref_key(taken@[k]),
    {
        keys.push(taken[i].sort_key());
    }
    let sorted = sort_by_keys(taken, keys, Ghost(|r: RxContainedRef| ref_key(r)));
    *items = sorted;
}


/// A node of a view: a grouping with child containers, or an entry.
pub struct RxContainer {
    pub item: RxContainerItem,
    pub is_root: bool,
    pub contained_type: RxContainedType,
}

/// What a container holds.
pub enum RxContainerItem {
    /// The root of a view that has no root in the database (such as the list of all
    /// templates): its name and its children.
    VirtualRoot(String, Vec<RxContainer>),
    Grouping(RxContainerGrouping),
    Entry(Rc<RxEntry>),
}

/// A grouping container: its children and what it groups by.
pub struct RxContainerGrouping {
    pub children: Vec<RxContainer>,
    pub grouping: RxGrouping,
}

/// What a grouping container groups by.
pub enum RxGrouping {
    Template(Rc<RxTemplate>),
    Tag(Rc<RxTag>),
    SavedSearch(Rc<RxSavedSearch>),
    Group(Rc<RxGroup>),
    VirtualRoot,
}

/// The children of a container.
pub open spec fn children_of(c: RxContainer) -> Seq<RxContainer> {
    match c.item {
        RxContainerItem::Grouping(g) => g.children@,
        RxContainerItem::VirtualRoot(_, ch) => ch@,
        RxContainerItem::Entry(_) => Seq::empty(),
    }
}

/// The UUID of what a grouping groups by; a virtual root has the nil UUID.
pub open spec fn grouping_uuid(g: RxGrouping) -> u128 {
    match g {
        RxGrouping::Group(x) => x.uuid,
        RxGrouping::Template(x) => x.uuid,
        RxGrouping::Tag(x) => x.uuid,
        RxGrouping::SavedSearch(x) => x.uuid,
        RxGrouping::VirtualRoot => 0,
    }
}

/// The UUID of a container.
pub open spec fn container_uuid(c: RxContainer) -> u128 {
    match c.item {
        RxContainerItem::Grouping(g) => grouping_uuid(g.grouping),
        RxContainerItem::Entry(e) => e.uuid,
        RxContainerItem::VirtualRoot(_, _) => 0,
    }
}

/// The reference to what a grouping groups by; none for a virtual root.
pub open spec fn grouping_ref(g: RxGrouping) -> Option<RxContainedRef> {
    match g {
        RxGrouping::Group(x) => Some(RxContainedRef::Group(x)),
        RxGrouping::Template(x) => Some(RxContainedRef::Template(x)),
        RxGrouping::Tag(x) => Some(RxContainedRef::Tag(x)),
        RxGrouping::SavedSearch(x) => Some(RxContainedRef::SavedSearch(x)),
        RxGrouping::VirtualRoot => None,
    }
}

/// The reference to what a container points to, as its contained type says; none when
/// the item does not match the type.
pub open spec fn contained_ref_of(c: RxContainer) -> Option<RxContainedRef> {
    match c.contained_type {
        RxContainedType::Entry => match c.item {
            RxContainerItem::Entry(e) => Some(RxContainedRef::Entry(e)),
            _ => None,
        },
        RxContainedType::VirtualRoot => match c.item {
            RxContainerItem::VirtualRoot(name, _) => Some(RxContainedRef::VirtualRoot(name)),
            _ => None,
        },
        _ => match c.item {
            RxContainerItem::Grouping(g) => grouping_ref(g.grouping),
            _ => None,
        },
    }
}

/// What containers are listed by: those that point to something by the key of that, before
/// those that do not, which go by UUID.
pub open spec fn container_key(c: RxContainer) -> KeyView {
    match contained_ref_of(c) {
        Some(r) => ref_key(r),
        None => (1, 0, Seq::empty(), container_uuid(c)),
    }
}

/// The groupings (not entries) among some containers, in order.
pub open spec fn groupings_among(cs: Seq<RxContainer>) -> Seq<RxContainer>
    decreases cs.len(),
{
    if cs.len() == 0 {
        cs
    } else {
        let rest = groupings_among(cs.drop_last());
        if cs.last().item is Grouping {
            rest.push(cs.last())
        } else {
            rest
        }
    }
}

/// The containers that references point to.
pub open spec fn derefs(s: Seq<&RxContainer>) -> Seq<RxContainer> {
    s.map_values(|c: &RxContainer| *c)
}

/// The UUIDs of a sequence of containers.
pub open spec fn container_uuids(cs: Seq<RxContainer>) -> Seq<u128> {
    cs.map_values(|c: RxContainer| container_uuid(c))
}

/// Everything below a container, in walk order: each child, then
/// everything below that child.
pub open spec fn descendants(c: RxContainer) -> Seq<RxContainer>
    decreases c, 1int,
{
    match c.item {
        RxContainerItem::Grouping(g) => descendants_each(g.children@, g.children@.len() as int),
        RxContainerItem::VirtualRoot(_, ch) => descendants_each(ch@, ch@.len() as int),
        RxContainerItem::Entry(_) => Seq::empty(),
    }
}

/// Each of the first `n` containers of `cs`, followed by everything below it.
pub open spec fn descendants_each(cs: Seq<RxContainer>, n: int) -> Seq<RxContainer>
    decreases cs, 0int, n,
{
    if n <= 0 || n > cs.len() {
        Seq::empty()
    } else {
        descendants_each(cs, n - 1) + seq![cs[n - 1]] + descendants(cs[n - 1])
    }
}

/// The containers below `c`, one per UUID in order of first appearance, each the last one
/// below `c` with its UUID: what a map from UUID to container filled in walking order holds.
pub open spec fn keyed_descendants(c: RxContainer, r: Seq<&RxContainer>) -> bool {
    let ds = descendants(c);
    let ids = container_uuids(ds);
    &&& r.len() == dedup_first(ids).len()
    &&& forall|i: int|
        0 <= i < r.len() ==> container_uuid(*#[trigger] r[i]) == dedup_first(ids)[i] && *r[i]
            == ds[last_pos(ids, dedup_first(ids)[i])]
}

/// The index table `(keys, vals)` holds, for the containers of `seen` in order, one entry per
/// UUID in order of first appearance, whose value is the last container with that UUID.
pub open spec fn table_holds(keys: IndexSet<u128>, vals: Seq<&RxContainer>, seen: Seq<RxContainer>) -> bool {
    let ids = container_uuids(seen);
    &&& uuid_set_items(keys) == dedup_first(ids)
    &&& vals.len() == dedup_first(ids).len()
    &&& forall|i: int|
        0 <= i < vals.len() ==> container_uuid(*#[trigger] vals[i]) == dedup_first(ids)[i] && *vals[i]
            == seen[last_pos(ids, dedup_first(ids)[i])]
}

/// Distinct positions of a sequence with later repeats left out hold distinct values.
proof fn lemma_dedup_distinct_at(s: Seq<u128>, i: int, j: int)
    requires
        0 <= i < dedup_first(s).len(),
        0 <= j < dedup_first(s).len(),
        i != j,
    ensures
        dedup_first(s)[i] != dedup_first(s)[j],
{
    crate::rx::rx_loader::lemma_dedup_distinct(s);
}

/// Records one more container in an index table.
pub(crate) fn note_container<'a>(
    keys: &mut IndexSet<u128>,
    vals: &mut Vec<&'a RxContainer>,
    c: &'a RxContainer,
    Ghost(seen): Ghost<Seq<RxContainer>>,
)
    requires
        table_holds(*old(keys), old(vals)@, seen),
    ensures
        table_holds(*final(keys), final(vals)@, seen.push(*c)),
{
    let ghost ids = container_uuids(seen);
    let ghost nseen = seen.push(*c);
    let ghost nids = container_uuids(nseen);
    let u = c.uuid();
    assert(nids =~= ids.push(u));
    proof {
        lemma_dedup_push(ids, u);
        lemma_dedup_contains(ids, u);
    }
    match uuid_set_index_of(keys, u) {
        Some(p) => {
            vals.set(p, c);
            assert forall|i: int| 0 <= i < vals@.len() implies container_uuid(*#[trigger] vals@[i])
                == dedup_first(nids)[i] && *vals@[i] == nseen[last_pos(
                nids,
                dedup_first(nids)[i],
            )] by {
                let x = dedup_first(nids)[i];
                lemma_last_pos_push(ids, u, x);
                if i != p {
                    lemma_dedup_distinct_at(ids, i, p as int);
                    lemma_dedup_contains(ids, x);
                    assert(dedup_first(ids).contains(x)) by {
                        assert(dedup_first(ids)[i] == x);
                    }
                    lemma_last_pos(ids, x);
                }
            }
        },
        None => {
            uuid_set_insert(keys, u);
            vals.push(c);
            assert forall|i: int| 0 <= i < vals@.len() implies container_uuid(*#[trigger] vals@[i])
                == dedup_first(nids)[i] && *vals@[i] == nseen[last_pos(
                nids,
                dedup_first(nids)[i],
            )] by {
                let x = dedup_first(nids)[i];
                lemma_last_pos_push(ids, u, x);
                if i < vals@.len() - 1 {
                    assert(dedup_first(ids).contains(x)) by {
                        assert(dedup_first(ids)[i] == x);
                    }
                    lemma_dedup_contains(ids, x);
                    lemma_last_pos(ids, x);
                }
            }
        },
    }
}


impl RxGrouping {
    /// The reference to what this grouping groups by.
    pub fn contained_ref(&self) -> (r: Option<RxContainedRef>)
        ensures
            r == grouping_ref(*self),
    {
        match self {
            RxGrouping::Group(x) => Some(RxContainedRef::Group(x.clone())),
            RxGrouping::Template(x) => Some(RxContainedRef::Template(x.clone())),
            RxGrouping::Tag(x) => Some(RxContainedRef::Tag(x.clone())),
            RxGrouping::SavedSearch(x) => Some(RxContainedRef::SavedSearch(x.clone())),
            RxGrouping::VirtualRoot => None,
        }
    }

    /// The UUID of what this grouping groups by.
    pub fn uuid(&self) -> (r: u128)
        ensures
            r == grouping_uuid(*self),
    {
        match self {
            RxGrouping::Group(x) => x.uuid,
            RxGrouping::Template(x) => x.uuid,
            RxGrouping::Tag(x) => x.uuid,
            RxGrouping::SavedSearch(x) => x.uuid,
            RxGrouping::VirtualRoot => 0,
        }
    }
}

impl RxContainerGrouping {
    /// The UUID of what this grouping groups by.
    pub fn uuid(&self) -> (r: u128)
        ensures
            r == grouping_uuid(self.grouping),
    {
        self.grouping.uuid()
    }

    /// What this grouping groups by.
    pub fn grouping(&self) -> (r: &RxGrouping)
        ensures
            *r == self.grouping,
    {
        &self.grouping
    }
}

impl RxContainerItem {
    /// The UUID of this item.
    pub fn uuid(&self) -> (r: u128)
        ensures
            r == container_uuid(RxContainer { item: *self, is_root: false, contained_type: RxContainedType::Entry }),
    {
        match self {
            RxContainerItem::Grouping(g) => g.uuid(),
            RxContainerItem::Entry(e) => e.uuid,
            RxContainerItem::VirtualRoot(_, _) => 0,
        }
    }

    /// The entry, when this item is one.
    pub fn entry(&self) -> (r: Option<Rc<RxEntry>>)
        ensures
            match *self {
                RxContainerItem::Entry(e) => r == Some(e),
                _ => r is None,
            },
    {
        match self {
            RxContainerItem::Entry(e) => Some(e.clone()),
            _ => None,
        }
    }

    /// The children of this item.
    pub fn children(&self) -> (r: &[RxContainer])
        ensures
            r@ == children_of(RxContainer { item: *self, is_root: false, contained_type: RxContainedType::Entry }),
    {
        match self {
            RxContainerItem::Grouping(g) => g.children.as_slice(),
            RxContainerItem::Entry(_) => &[],
            RxContainerItem::VirtualRoot(_, ch) => ch.as_slice(),
        }
    }
}

impl RxContainer {
    /// This container is the root of its view.
    pub fn is_root(&self) -> (r: bool)
        ensures
            r == self.is_root,
    {
        self.is_root
    }

    /// The UUID of this container.
    pub fn uuid(&self) -> (r: u128)
        ensures
            r == container_uuid(*self),
    {
        self.item.uuid()
    }

    /// What this container holds.
    pub fn item(&self) -> (r: &RxContainerItem)
        ensures
            *r == self.item,
    {
        &self.item
    }

    /// The children of this container.
    pub fn children(&self) -> (r: &[RxContainer])
        ensures
            r@ == children_of(*self),
    {
        self.item.children()
    }

    /// The reference to what this container points to.
    pub fn contained_ref(&self) -> (r: Option<RxContainedRef>)
        ensures
            r == contained_ref_of(*self),
    {
        match self.contained_type {
            RxContainedType::Entry => match &self.item {
                RxContainerItem::Entry(e) => Some(RxContainedRef::Entry(e.clone())),
                _ => None,
            },
            RxContainedType::VirtualRoot => match &self.item {
                RxContainerItem::VirtualRoot(name, _) => Some(RxContainedRef::VirtualRoot(name.clone())),
                _ => None,
            },
            _ => match &self.item {
                RxContainerItem::Grouping(g) => g.grouping.contained_ref(),
                _ => None,
            },
        }
    }

    /// The key this container is listed by.
    pub fn sort_key(&self) -> (k: SortKey)
        ensures
            k.view_key() == container_key(*self),
    {
        match self.contained_ref() {
            Some(r) => r.sort_key(),
            None => SortKey { class: 1, rank: 0, name: Vec::new(), uuid: self.uuid() },
        }
    }

    /// The children that are groupings (not entries), in order.
    pub fn child_groupings(&self) -> (r: Vec<&RxContainer>)
        ensures
            derefs(r@) == groupings_among(children_of(*self)),
    {
        let ch = self.children();
        let mut r: Vec<&RxContainer> = Vec::new();
        for i in 0..ch.len()
            invariant
                ch@ == children_of(*self),
                derefs(r@) == groupings_among(ch@.take(i as int)),
        {
            assert(ch@.take(i + 1).drop_last() =~= ch@.take(i as int));
            let c = &ch[i];
            if let RxContainerItem::Grouping(_) = &c.item {
                r.push(c);
            }
            assert(derefs(r@) =~= groupings_among(ch@.take(i + 1)));
        }
        assert(ch@.take(ch@.len() as int) =~= ch@);
        r
    }

    /// Records everything below this container in an index table, in walking order.
    pub(crate) fn collect_descendants<'a>(
        &'a self,
        keys: &mut IndexSet<u128>,
        vals: &mut Vec<&'a RxContainer>,
        Ghost(seen): Ghost<Seq<RxContainer>>,
    )
        requires
            table_holds(*old(keys), old(vals)@, seen),
        ensures
            table_holds(*final(keys), final(vals)@, seen + descendants(*self)),
        decreases *self,
    {
        let ch: &[RxContainer] = match &self.item {
            RxContainerItem::Grouping(g) => g.children.as_slice(),
            RxContainerItem::Entry(_) => &[],
            RxContainerItem::VirtualRoot(_, ch) => ch.as_slice(),
        };
        let n = ch.len();
        assert(seen + descendants_each(ch@, 0) =~= seen);
        for i in 0..n
            invariant
                n == ch@.len(),
                ch@ == children_of(*self),
                table_holds(*keys, vals@, seen + descendants_each(ch@, i as int)),
        {
            let ghost before = seen + descendants_each(ch@, i as int);
            let child = &ch[i];
            note_container(keys, vals, child, Ghost(before));
            child.collect_descendants(keys, vals, Ghost(before.push(*child)));
            assert(before.push(*child) + descendants(*child) =~= seen + descendants_each(ch@, i + 1));
        }
        assert(descendants(*self) == descendants_each(ch@, n as int));
    }

    /// The UUIDs of everything below this container, each once, in walking order.
    pub fn child_uuids_recursive(&self) -> (r: IndexSet<u128>)
        ensures
            uuid_set_items(r) == dedup_first(container_uuids(descendants(*self))),
    {
        let mut keys = uuid_set_new();
        let mut vals: Vec<&RxContainer> = Vec::new();
        assert(container_uuids(Seq::<RxContainer>::empty()) =~= Seq::<u128>::empty());
        self.collect_descendants(&mut keys, &mut vals, Ghost(Seq::empty()));
        assert(Seq::<RxContainer>::empty() + descendants(*self) =~= descendants(*self));
        keys
    }

    /// Everything below this container, one container per UUID in order of first
    /// appearance, each the last one found with its UUID.
    pub fn child_containers_recursive(&self) -> (r: Vec<&RxContainer>)
        ensures
            keyed_descendants(*self, r@),
    {
        let mut keys = uuid_set_new();
        let mut vals: Vec<&RxContainer> = Vec::new();
        assert(container_uuids(Seq::<RxContainer>::empty()) =~= Seq::<u128>::empty());
        self.collect_descendants(&mut keys, &mut vals, Ghost(Seq::empty()));
        assert(Seq::<RxContainer>::empty() + descendants(*self) =~= descendants(*self));
        vals
    }
}


/// The containers below `c` as a map filled in walking order holds them: one per UUID in
/// order of first appearance, each the last one with its UUID.
pub open spec fn keyed_list(c: RxContainer) -> Seq<RxContainer> {
    let ds = descendants(c);
    let ids = container_uuids(ds);
    Seq::new(dedup_first(ids).len(), |i: int| ds[last_pos(ids, dedup_first(ids)[i])])
}

/// The container with the given UUID in the tree of `c`: `c` itself, or else the last one
/// with that UUID below it.
pub open spec fn container_at(c: RxContainer, u: u128) -> Option<RxContainer> {
    let ds = descendants(c);
    let ids = container_uuids(ds);
    if container_uuid(c) == u {
        Some(c)
    } else if ids.contains(u) {
        Some(ds[last_pos(ids, u)])
    } else {
        None
    }
}

/// The references of the containers among `cs` that point to something and, when there is a
/// term, match it in a search of the given type, in order.
pub open spec fn matching_refs(cs: Seq<RxContainer>, search_type: RxSearchType, term: Option<Seq<char>>) -> Seq<RxContainedRef>
    decreases cs.len(),
{
    if cs.len() == 0 {
        Seq::empty()
    } else {
        let rest = matching_refs(cs.drop_last(), search_type, term);
        match contained_ref_of(cs.last()) {
            Some(r) => if term is None || ref_matches(r, search_type, unicase_folded(term->0)) {
                rest.push(r)
            } else {
                rest
            },
            None => rest,
        }
    }
}

/// The references of the containers among `cs` that point to something, in order.
pub open spec fn refs_of(cs: Seq<RxContainer>) -> Seq<RxContainedRef>
    decreases cs.len(),
{
    if cs.len() == 0 {
        Seq::empty()
    } else {
        let rest = refs_of(cs.drop_last());
        match contained_ref_of(cs.last()) {
            Some(r) => rest.push(r),
            None => rest,
        }
    }
}

/// The search term, case-folded.
fn fold_term(search_term: Option<&str>) -> (r: Option<String>)
    ensures
        match search_term {
            Some(t) => r matches Some(f) && f@ == unicase_folded(t@),
            None => r is None,
        },
{
    match search_term {
        Some(t) => Some(fold_case(t)),
        None => None,
    }
}

/// The references of the given containers that match the (case-folded) term, in order.
fn filter_matching(cs: &[&RxContainer], search_type: RxSearchType, term: &Option<String>, Ghost(raw): Ghost<Option<Seq<char>>>) -> (r: Vec<RxContainedRef>)
    requires
        match raw {
            Some(t) => term matches Some(f) && f@ == unicase_folded(t),
            None => term is None,
        },
    ensures
        r@ == matching_refs(derefs(cs@), search_type, raw),
{
    let ghost all = derefs(cs@);
    let mut r: Vec<RxContainedRef> = Vec::new();
    for i in 0..cs.len()
        invariant
            all == derefs(cs@),
            match raw {
                Some(t) => term matches Some(f) && f@ == unicase_folded(t),
                None => term is None,
            },
            r@ == matching_refs(all.take(i as int), search_type, raw),
    {
        assert(all.take(i + 1).drop_last() =~= all.take(i as int));
        assert(all.take(i + 1).last() == *cs@[i as int]);
        match cs[i].contained_ref() {
            Some(cr) => {
                let is_match = match term {
                    Some(t) => search_contained_ref(&cr, search_type, t.as_str()),
                    None => true,
                };
                if is_match {
                    r.push(cr);
                }
            },
            None => {},
        }
    }
    assert(all.take(cs@.len() as int) =~= all);
    r
}

/// The references of the given containers that match the (case-folded) term, in order.
fn filter_matching_children(cs: &[RxContainer], search_type: RxSearchType, term: &Option<String>, Ghost(raw): Ghost<Option<Seq<char>>>) -> (r: Vec<RxContainedRef>)
    requires
        match raw {
            Some(t) => term matches Some(f) && f@ == unicase_folded(t),
            None => term is None,
        },
    ensures
        r@ == matching_refs(cs@, search_type, raw),
{
    let mut r: Vec<RxContainedRef> = Vec::new();
    for i in 0..cs.len()
        invariant
            match raw {
                Some(t) => term matches Some(f) && f@ == unicase_folded(t),
                None => term is None,
            },
            r@ == matching_refs(cs@.take(i as int), search_type, raw),
    {
        assert(cs@.take(i + 1).drop_last() =~= cs@.take(i as int));
        assert(cs@.take(i + 1).last() == cs@[i as int]);
        match cs[i].contained_ref() {
            Some(cr) => {
                let is_match = match term {
                    Some(t) => search_contained_ref(&cr, search_type, t.as_str()),
                    None => true,
                };
                if is_match {
                    r.push(cr);
                }
            },
            None => {},
        }
    }
    assert(cs@.take(cs@.len() as int) =~= cs@);
    r
}

impl RxContainer {
    /// The container with the given UUID somewhere in this tree, this container included.
    pub fn get_container_recursive(&self, uuid: u128) -> (r: Option<&RxContainer>)
        ensures
            match r {
                Some(c) => container_at(*self, uuid) == Some(*c),
                None => container_at(*self, uuid) is None,
            },
    {
        if self.uuid() == uuid {
            return Some(self);
        }
        let vals = self.child_containers_recursive();
        let ghost ds = descendants(*self);
        let ghost ids = container_uuids(ds);
        for i in 0..vals.len()
            invariant
                ds == descendants(*self),
                ids == container_uuids(ds),
                keyed_descendants(*self, vals@),
                container_uuid(*self) != uuid,
                forall|k: int| 0 <= k < i ==> dedup_first(ids)[k] != uuid,
        {
            if vals[i].uuid() == uuid {
                proof {
                    assert(container_uuid(*vals@[i as int]) == dedup_first(ids)[i as int]);
                    assert(dedup_first(ids)[i as int] == uuid);
                    assert(dedup_first(ids).contains(uuid));
                    lemma_dedup_contains(ids, uuid);
                }
                return Some(vals[i]);
            }
        }
        proof {
            lemma_dedup_contains(ids, uuid);
            if dedup_first(ids).contains(uuid) {
                let k = choose|k: int| 0 <= k < dedup_first(ids).len() && dedup_first(ids)[k] == uuid;
                assert(false);
            }
        }
        None
    }

    /// The children that match the search term (all of them without one), as references,
    /// sorted.
    pub fn search_children_immediate(&self, search_type: RxSearchType, search_term: Option<&str>) -> (r: Vec<RxContainedRef>)
        ensures
            r@ == sort_by_key(
                matching_refs(
                    children_of(*self),
                    search_type,
                    match search_term {
                        Some(t) => Some(t@),
                        None => None,
                    },
                ),
                |x: RxContainedRef| ref_key(x),
            ),
            r@.to_multiset() == matching_refs(
                children_of(*self),
                search_type,
                match search_term {
                    Some(t) => Some(t@),
                    None => None,
                },
            ).to_multiset(),
            sorted_by_key(r@, |x: RxContainedRef| ref_key(x)),
    {
        let term = fold_term(search_term);
        let ch = self.children();
        let ghost raw = match search_term {
            Some(t) => Some(t@),
            None => None,
        };
        let mut results = filter_matching_children(ch, search_type, &term, Ghost(raw));
        sort_contained_refs(&mut results);
        results
    }

    /// The references of the children that are groupings, in order.
    pub fn child_groupings_immedate(&self) -> (r: Vec<RxContainedRef>)
        ensures
            r@ == refs_of(groupings_among(children_of(*self))),
    {
        let gs = self.child_groupings();
        let ghost all = derefs(gs@);
        let mut r: Vec<RxContainedRef> = Vec::new();
        for i in 0..gs.len()
            invariant
                all == derefs(gs@),
                r@ == refs_of(all.take(i as int)),
        {
            assert(all.take(i + 1).drop_last() =~= all.take(i as int));
            assert(all.take(i + 1).last() == *gs@[i as int]);
            match gs[i].contained_ref() {
                Some(cr) => r.push(cr),
                None => {},
            }
        }
        assert(all.take(gs@.len() as int) =~= all);
        r
    }

    /// Everything below the container with the given UUID (found anywhere in this tree)
    /// that matches the search term (all of it without one), as references, sorted; nothing
    /// when there is no such container.
    pub fn search_children_recursive(
        &self,
        search_type: RxSearchType,
        container_uuid: u128,
        search_term: Option<&str>,
    ) -> (r: Vec<RxContainedRef>)
        ensures
            r@ == sort_by_key(
                match container_at(*self, container_uuid) {
                    Some(c) => matching_refs(
                        keyed_list(c),
                        search_type,
                        match search_term {
                            Some(t) => Some(t@),
                            None => None,
                        },
                    ),
                    None => Seq::empty(),
                },
                |x: RxContainedRef| ref_key(x),
            ),
            r@.to_multiset() == match container_at(*self, container_uuid) {
                Some(c) => matching_refs(
                    keyed_list(c),
                    search_type,
                    match search_term {
                        Some(t) => Some(t@),
                        None => None,
                    },
                ),
                None => Seq::empty(),
            }.to_multiset(),
            sorted_by_key(r@, |x: RxContainedRef| ref_key(x)),
    {
        let term = fold_term(search_term);
        let ghost raw = match search_term {
            Some(t) => Some(t@),
            None => None,
        };
        let mut results = match self.get_container_recursive(container_uuid) {
            Some(container) => {
                let vals = container.child_containers_recursive();
                assert(derefs(vals@) =~= keyed_list(*container));
                filter_matching(vals.as_slice(), search_type, &term, Ghost(raw))
            },
            None => Vec::new(),
        };
        sort_contained_refs(&mut results);
        results
    }
}


/// Sorts containers: those that point to something by the key of that, then the others by
/// UUID.
pub fn sort_containers(items: &mut Vec<RxContainer>)
    ensures
        final(items)@ == sort_by_key(old(items)@, |c: RxContainer| container_key(c)),
        final(items)@.to_multiset() == old(items)@.to_multiset(),
        sorted_by_key(final(items)@, |c: RxContainer| container_key(c)),
{
    let mut taken: Vec<RxContainer> = Vec::new();
    std::mem::swap(&mut taken, items);
    let mut keys: Vec<SortKey> = Vec::new();
    for i in 0..taken.len()
        invariant
            keys@.len() == i,
            forall|k: int| 0 <= k < i ==> (#[trigger] keys@[k]).view_key() == container_key(taken@[k]),
    {
        keys.push(taken[i].sort_key());
    }
    let sorted = sort_by_keys(taken, keys, Ghost(|c: RxContainer| container_key(c)));
    *items = sorted;
}


/// Everything below each of the first `n` containers of `cs` (not those containers
/// themselves), one container after the other.
pub open spec fn below_each(cs: Seq<RxContainer>, n: int) -> Seq<RxContainer>
    decreases n,
{
    if n <= 0 || n > cs.len() {
        Seq::empty()
    } else {
        below_each(cs, n - 1) + descendants(cs[n - 1])
    }
}

/// The result of searching the children of the container with the given UUID in a tree:
/// the references of those that match, in listing order; nothing when there is no such
/// container.
pub open spec fn search_result(root: RxContainer, search_type: RxSearchType, container_uuid: u128, term: Option<Seq<char>>) -> Seq<RxContainedRef> {
    match container_at(root, container_uuid) {
        Some(c) => sort_by_key(matching_refs(children_of(c), search_type, term), |x: RxContainedRef| ref_key(x)),
        None => Seq::empty(),
    }
}

/// The root of a view, with the UUIDs of the containers below it.
pub struct RxRoot {
    pub root_container: Rc<RxContainer>,
    pub all_containers: IndexSet<u128>,
}

impl RxRoot {
    /// The UUID of the root container.
    pub fn uuid(&self) -> (r: u128)
        ensures
            r == container_uuid(*self.root_container),
    {
        self.root_container.uuid()
    }

    /// The name of the root: that of what it points to, or "No Name".
    pub fn root_name(&self) -> (r: String)
        ensures
            r@ == match contained_ref_of(*self.root_container) {
                Some(x) => ref_name(x),
                None => "No Name"@,
            },
    {
        match self.root_container.contained_ref() {
            Some(x) => x.name(),
            None => to_owned_string("No Name"),
        }
    }

    /// A root with no counterpart in the database, holding the given containers in listing
    /// order, and the UUIDs of what is below each of them.
    pub fn virtual_root(name: &str, children: Vec<RxContainer>) -> (r: RxRoot)
        ensures
            r.root_container.is_root,
            r.root_container.contained_type == RxContainedType::VirtualRoot,
            r.root_container.item matches RxContainerItem::VirtualRoot(n, ch) && n@ == name@ && ch@
                == sort_by_key(children@, |c: RxContainer| container_key(c)),
            uuid_set_items(r.all_containers) == dedup_first(
                container_uuids(
                    below_each(
                        sort_by_key(children@, |c: RxContainer| container_key(c)),
                        children@.len() as int,
                    ),
                ),
            ),
    {
        let mut children = children;
        sort_containers(&mut children);
        let ghost sorted = children@;
        proof {
            broadcast use vstd::seq_lib::group_to_multiset_ensures;
            assert(children@.len() == children@.to_multiset().len());
        }
        let mut keys = uuid_set_new();
        let mut vals: Vec<&RxContainer> = Vec::new();
        assert(container_uuids(Seq::<RxContainer>::empty()) =~= Seq::<u128>::empty());
        assert(below_each(sorted, 0) =~= Seq::<RxContainer>::empty());
        for i in 0..children.len()
            invariant
                sorted == children@,
                table_holds(keys, vals@, below_each(sorted, i as int)),
        {
            children[i].collect_descendants(&mut keys, &mut vals, Ghost(below_each(sorted, i as int)));
        }
        let root = RxContainer {
            item: RxContainerItem::VirtualRoot(to_owned_string(name), children),
            is_root: true,
            contained_type: RxContainedType::VirtualRoot,
        };
        RxRoot { all_containers: keys, root_container: Rc::new(root) }
    }

    /// The container with the given UUID somewhere in this view.
    pub fn get_container(&self, container_uuid: u128) -> (r: Option<&RxContainer>)
        ensures
            match r {
                Some(c) => container_at(*self.root_container, container_uuid) == Some(*c),
                None => container_at(*self.root_container, container_uuid) is None,
            },
    {
        self.root_container.get_container_recursive(container_uuid)
    }

    /// The reference of the container with the given UUID in this view, if it points to
    /// something.
    pub fn get(&self, container_uuid: u128) -> (r: Option<RxContainedRef>)
        ensures
            r == match container_at(*self.root_container, container_uuid) {
                Some(c) => contained_ref_of(c),
                None => None,
            },
    {
        match self.get_container(container_uuid) {
            Some(c) => c.contained_ref(),
            None => None,
        }
    }

    /// Searches the children of the container with the given UUID in this view.
    pub fn search(&self, search_type: RxSearchType, container_uuid: u128, search_term: Option<&str>) -> (r: Vec<RxContainedRef>)
        ensures
            r@ == search_result(
                *self.root_container,
                search_type,
                container_uuid,
                match search_term {
                    Some(t) => Some(t@),
                    None => None,
                },
            ),
    {
        match self.get_container(container_uuid) {
            Some(c) => c.search_children_immediate(search_type, search_term),
            None => Vec::new(),
        }
    }
}

} // verus!

verus! {

/// The listing order: a virtual root comes first, groups come before templates, tags, saved
/// searches and entries, and entries come last; items of one kind come in order of their
/// case-folded names (an entry's name is its title, or "Untitled" without one), so that names
/// differing only in case are ordered by UUID alone.
pub proof fn lemma_listing_order(a: RxContainedRef, b: RxContainedRef)
    ensures
        a is VirtualRoot && !(b is VirtualRoot) ==> key_before(ref_key(a), ref_key(b)),
        a is Group && !(b is VirtualRoot) && !(b is Group) ==> key_before(ref_key(a), ref_key(b)),
        !(a is Entry) && b is Entry ==> key_before(ref_key(a), ref_key(b)),
        ref_rank(a) == ref_rank(b) && crate::rx::sort_order::chars_before(
            unicase_folded(ref_name(a)),
            unicase_folded(ref_name(b)),
        ) ==> key_before(ref_key(a), ref_key(b)),
        ref_rank(a) == ref_rank(b) && unicase_folded(ref_name(a)) == unicase_folded(ref_name(b)) ==> (key_before(
            ref_key(a),
            ref_key(b),
        ) <==> ref_uuid(a) < ref_uuid(b)),
        a matches RxContainedRef::Entry(x) && b matches RxContainedRef::Entry(y) && value_text_opt(x.title) matches Some(
            s,
        ) && value_text_opt(y.title) matches Some(t) && unicase_folded(s) == unicase_folded(t) ==> (key_before(
            ref_key(a),
            ref_key(b),
        ) <==> ref_uuid(a) < ref_uuid(b)),
{
    crate::rx::sort_order::lemma_chars_before_irreflexive(unicase_folded(ref_name(a)));
}

} // verus!

verus! {

/// The references of children that match a search are exactly those of the children that
/// point to something the search finds for the case-folded term (all of them without a term).
pub proof fn lemma_matching_refs_are_found_children(cs: Seq<RxContainer>, search_type: RxSearchType, term: Option<Seq<char>>)
    ensures
        forall|i: int|
            0 <= i < matching_refs(cs, search_type, term).len() ==> exists|j: int|
                0 <= j < cs.len() && contained_ref_of(cs[j]) == Some(#[trigger] matching_refs(cs, search_type, term)[i])
                    && (term is None || ref_matches(
                    matching_refs(cs, search_type, term)[i],
                    search_type,
                    unicase_folded(term->0),
                )),
        forall|j: int|
            0 <= j < cs.len() && (#[trigger] contained_ref_of(cs[j])) is Some && (term is None || ref_matches(
                contained_ref_of(cs[j])->0,
                search_type,
                unicase_folded(term->0),
            )) ==> matching_refs(cs, search_type, term).contains(contained_ref_of(cs[j])->0),
    decreases cs.len(),
{
    let r = matching_refs(cs, search_type, term);
    if cs.len() > 0 {
        let init = cs.drop_last();
        lemma_matching_refs_are_found_children(init, search_type, term);
        let rest = matching_refs(init, search_type, term);
        assert forall|i: int| 0 <= i < r.len() implies exists|j: int|
            0 <= j < cs.len() && contained_ref_of(cs[j]) == Some(#[trigger] r[i]) && (term is None || ref_matches(
                r[i],
                search_type,
                unicase_folded(term->0),
            )) by {
            if i < rest.len() {
                assert(r[i] == rest[i]);
                let j = choose|j: int|
                    0 <= j < init.len() && contained_ref_of(init[j]) == Some(rest[i]) && (term is None || ref_matches(
                        rest[i],
                        search_type,
                        unicase_folded(term->0),
                    ));
                assert(cs[j] == init[j]);
            } else {
                assert(cs[cs.len() - 1] == cs.last());
            }
        }
        assert forall|j: int|
            0 <= j < cs.len() && (#[trigger] contained_ref_of(cs[j])) is Some && (term is None || ref_matches(
                contained_ref_of(cs[j])->0,
                search_type,
                unicase_folded(term->0),
            )) implies r.contains(contained_ref_of(cs[j])->0) by {
            if j < cs.len() - 1 {
                assert(cs[j] == init[j]);
                let i = choose|i: int| 0 <= i < rest.len() && rest[i] == contained_ref_of(init[j])->0;
                assert(r[i] == rest[i]);
            } else {
                assert(cs[j] == cs.last());
                assert(r[r.len() - 1] == contained_ref_of(cs.last())->0);
            }
        }
    }
}

/// Searching children is case-insensitive in the term: two terms with the same case folding
/// find the same references.
pub proof fn lemma_matching_refs_ignore_term_case(cs: Seq<RxContainer>, search_type: RxSearchType, a: Seq<char>, b: Seq<char>)
    requires
        unicase_folded(a) == unicase_folded(b),
    ensures
        matching_refs(cs, search_type, Some(a)) == matching_refs(cs, search_type, Some(b)),
    decreases cs.len(),
{
    if cs.len() > 0 {
        lemma_matching_refs_ignore_term_case(cs.drop_last(), search_type, a, b);
    }
}

/// Searching the children of a container lists, in listing order, exactly the references of
/// the children that the search finds (all of them without a term), and the same ones for any
/// two terms with the same case folding.
pub proof fn lemma_search_result_lists_found_children(
    root: RxContainer,
    search_type: RxSearchType,
    container_uuid: u128,
    term: Option<Seq<char>>,
)
    ensures
        sorted_by_key(search_result(root, search_type, container_uuid, term), |x: RxContainedRef| ref_key(x)),
        container_at(root, container_uuid) is None ==> search_result(root, search_type, container_uuid, term).len() == 0,
        container_at(root, container_uuid) matches Some(c) ==> {
            &&& forall|r: RxContainedRef|
                #[trigger] search_result(root, search_type, container_uuid, term).contains(r) ==> (exists|j: int|
                    0 <= j < children_of(c).len() && contained_ref_of(children_of(c)[j]) == Some(r)) && (term is None
                    || ref_matches(r, search_type, unicase_folded(term->0)))
            &&& forall|j: int|
                0 <= j < children_of(c).len() && (#[trigger] contained_ref_of(children_of(c)[j])) is Some && (term is None
                    || ref_matches(contained_ref_of(children_of(c)[j])->0, search_type, unicase_folded(term->0)))
                    ==> search_result(root, search_type, container_uuid, term).contains(
                    contained_ref_of(children_of(c)[j])->0,
                )
        },
{
    broadcast use vstd::seq_lib::group_to_multiset_ensures;

    let key = |x: RxContainedRef| ref_key(x);
    let s = search_result(root, search_type, container_uuid, term);
    if container_at(root, container_uuid) is None {
        assert(sorted_by_key(s, key));
    } else {
        let c = container_at(root, container_uuid)->0;
        let m = matching_refs(children_of(c), search_type, term);
        crate::rx::sort_order::lemma_sort_sorted_facts(m, key);
        lemma_matching_refs_are_found_children(children_of(c), search_type, term);
        assert(s == sort_by_key(m, key));
        assert forall|r: RxContainedRef| #[trigger] s.contains(r) <==> m.contains(r) by {
            assert(s.contains(r) <==> s.to_multiset().count(r) > 0);
            assert(m.contains(r) <==> m.to_multiset().count(r) > 0);
        }
        assert forall|r: RxContainedRef| #[trigger] s.contains(r) implies (exists|j: int|
            0 <= j < children_of(c).len() && contained_ref_of(children_of(c)[j]) == Some(r)) && (term is None
            || ref_matches(r, search_type, unicase_folded(term->0))) by {
            assert(m.contains(r));
            let i = choose|i: int| 0 <= i < m.len() && m[i] == r;
            assert(exists|j: int|
                0 <= j < children_of(c).len() && contained_ref_of(children_of(c)[j]) == Some(m[i]) && (term is None
                    || ref_matches(m[i], search_type, unicase_folded(term->0))));
        }
    }
}

} // verus!

verus! {

/// Searching a container's children gives the same list for two terms with the same case
/// folding (such as `Mail` and `mail`).
pub proof fn lemma_search_result_ignores_term_case(
    root: RxContainer,
    search_type: RxSearchType,
    container_uuid: u128,
    a: Seq<char>,
    b: Seq<char>,
)
    requires
        unicase_folded(a) == unicase_folded(b),
    ensures
        search_result(root, search_type, container_uuid, Some(a)) == search_result(
            root,
            search_type,
            container_uuid,
            Some(b),
        ),
{
    if container_at(root, container_uuid) is Some {
        lemma_matching_refs_ignore_term_case(children_of(container_at(root, container_uuid)->0), search_type, a, b);
    }
}

} // verus!
