//! Views of the database as a tree of containers.
use vstd::prelude::*;
use std::rc::Rc;
use crate::index_set::uuid_set_items;
use crate::message::UiMessage;
use crate::outside::{no_nul, translate, translate_in_context};
use crate::rx::into_container::{
    entry_children, entry_container, entry_key, finite_below, group_rc, is_group_container, is_grouping,
    sorted_entry_containers,
};
use crate::rx::rx_container::{
    below_each, container_key, container_uuid, container_uuids, descendants, ref_key, search_result,
    RxContainedRef, RxContainedType, RxContainer, RxContainerItem, RxGrouping, RxRoot,
};
use crate::rx::rx_db::RxDatabase;
use crate::rx::rx_entry::RxEntry;
use crate::rx::rx_group::{RxTag, RxTemplate};
use crate::rx::rx_loader::copy_uuids;
use crate::text::str_eq;
use crate::rx::rx_loader::dedup_first;
use crate::rx::search::RxSearchType;
use crate::rx::sort_order::{key_before, lemma_sort_sorted, sort_by_key, sort_by_keys, sorted_by_key, SortKey};
use crate::text::to_owned_string;

verus! {

/// A setting that controls how the items of a view are rendered. The list that holds an item
/// must enable the feature too, so that, for example, 2FA codes are shown only in the 2FA view.
#[derive(Debug, Clone, Copy, PartialEq, Eq, Structural)]
pub enum RxViewFeature {
    NoFeature,
    DisplayTwoFactorAuth,
}

impl Default for RxViewFeature {
    /// No feature.
    fn default() -> (r: Self)
        ensures
            r == RxViewFeature::NoFeature,
    {
        RxViewFeature::NoFeature
    }
}

/// The display form of a view feature.
pub open spec fn view_feature_name(f: RxViewFeature) -> Seq<char> {
    match f {
        RxViewFeature::DisplayTwoFactorAuth => "DisplayTwoFactorAuth"@,
        RxViewFeature::NoFeature => "None"@,
    }
}

impl RxViewFeature {
    /// The display form of this feature.
    pub fn to_string(&self) -> (r: String)
        ensures
            r@ == view_feature_name(*self),
    {
        match self {
            RxViewFeature::DisplayTwoFactorAuth => to_owned_string("DisplayTwoFactorAuth"),
            RxViewFeature::NoFeature => to_owned_string("None"),
        }
    }
}


/// What a template is listed by.
pub open spec fn template_key(t: Rc<RxTemplate>) -> crate::rx::sort_order::KeyView {
    ref_key(RxContainedRef::Template(t))
}

/// The view of all groups and entries, from the root group down.
pub struct DefaultView(pub RxRoot);

impl DefaultView {
    /// The view of the database from its root group. The chains of subgroups must end.
    pub fn new(db: &RxDatabase) -> (r: DefaultView)
        requires
            db.wf(),
            exists|n: nat| finite_below(*db, group_rc(*db, db.root)->0, n),
        ensures
            is_group_container(*db, group_rc(*db, db.root)->0, *r.0.root_container),
            uuid_set_items(r.0.all_containers) == dedup_first(container_uuids(descendants(*r.0.root_container))),
    {
        let root_group = db.root_group();
        proof {
            crate::rx::rx_db::lemma_group_with_index(*db, db.root);
        }
        assert(root_group == group_rc(*db, db.root)->0);
        let root = RxContainer::from_group(&root_group, db);
        DefaultView(RxRoot { all_containers: root.child_uuids_recursive(), root_container: Rc::new(root) })
    }

    /// The root of this view.
    pub fn root(&self) -> (r: &RxRoot)
        ensures
            *r == self.0,
    {
        &self.0
    }

    /// The name of this view, before translation.
    pub fn name_message(&self) -> (r: UiMessage)
        ensures
            r.parts() == (Some("Default view of the password database (all entries)"@), "Default View"@),
            r.translatable(),
    {
        proof {
            reveal_strlit("Default view of the password database (all entries)");
            reveal_strlit("Default View");
        }
        UiMessage { context: Some("Default view of the password database (all entries)"), id: "Default View" }
    }

    /// The translated name of this view: its `name_message` in the current locale.
    pub fn name(&self) -> String {
        self.name_message().translated()
    }

    /// This view has no special feature.
    pub fn feature(&self) -> (r: RxViewFeature)
        ensures
            r == RxViewFeature::NoFeature,
    {
        RxViewFeature::NoFeature
    }

    /// The reference of the container with the given UUID in this view.
    pub fn get(&self, container_uuid: u128) -> (r: Option<RxContainedRef>)
        ensures
            r == match crate::rx::rx_container::container_at(*self.0.root_container, container_uuid) {
                Some(c) => crate::rx::rx_container::contained_ref_of(c),
                None => None,
            },
    {
        self.0.get(container_uuid)
    }

    /// Searches the children of the container with the given UUID.
    pub fn search(&self, search_type: RxSearchType, container_uuid: u128, search_term: Option<&str>) -> (r: Vec<RxContainedRef>)
        ensures
            r@ == search_result(
                *self.0.root_container,
                search_type,
                container_uuid,
                match search_term {
                    Some(t) => Some(t@),
                    None => None,
                },
            ),
    {
        self.0.search(search_type, container_uuid, search_term)
    }
}

/// The view of all templates, each holding the entries made from it.
pub struct AllTemplates(pub RxRoot);

impl AllTemplates {
    /// The view of the database's templates, in listing order.
    pub fn new(db: &RxDatabase) -> (r: AllTemplates)
        requires
            db.wf(),
        ensures
            ({
                let ts = sort_by_key(db.templates@, |t: Rc<RxTemplate>| template_key(t));
                r.0.root_container.item matches RxContainerItem::VirtualRoot(_, ch) && ch@.len() == ts.len()
                    && forall|i: int|
                    0 <= i < ts.len() ==> is_grouping(
                        #[trigger] ch@[i],
                        RxContainedType::Template,
                        RxGrouping::Template(ts[i]),
                        entry_children(*db, ts[i].entry_uuids@),
                    )
            }),
            r.0.root_container.is_root,
            r.0.root_container.contained_type == RxContainedType::VirtualRoot,
    {
        let mut keys: Vec<SortKey> = Vec::new();
        let mut ts: Vec<Rc<RxTemplate>> = Vec::new();
        for i in 0..db.templates.len()
            invariant
                keys@.len() == i,
                ts@ == db.templates@.take(i as int),
                forall|k: int| 0 <= k < i ==> (#[trigger] keys@[k]).view_key() == template_key(ts@[k]),
        {
            keys.push(RxContainedRef::Template(db.templates[i].clone()).sort_key());
            ts.push(db.templates[i].clone());
            assert(ts@ =~= db.templates@.take(i + 1));
        }
        assert(db.templates@.take(db.templates@.len() as int) =~= db.templates@);
        let sorted = sort_by_keys(ts, keys, Ghost(|t: Rc<RxTemplate>| template_key(t)));
        let mut children: Vec<RxContainer> = Vec::new();
        for i in 0..sorted.len()
            invariant
                db.wf(),
                sorted_by_key(sorted@, |t: Rc<RxTemplate>| template_key(t)),
                children@.len() == i,
                forall|k: int|
                    0 <= k < i ==> is_grouping(
                        #[trigger] children@[k],
                        RxContainedType::Template,
                        RxGrouping::Template(sorted@[k]),
                        entry_children(*db, sorted@[k].entry_uuids@),
                    ),
        {
            children.push(RxContainer::from_template(&sorted[i], db));
        }
        proof {
            assert forall|i: int, j: int| 0 <= i < j < children@.len() implies !key_before(
                container_key(children@[j]),
                container_key(children@[i]),
            ) by {
                assert(container_key(children@[i]) == template_key(sorted@[i]));
                assert(container_key(children@[j]) == template_key(sorted@[j]));
            }
            lemma_sort_sorted(children@, |c: RxContainer| container_key(c));
        }
        let ghost built = children@;
        proof {
            reveal_strlit("Special Categories");
        }
        let name = translate("Special Categories");
        AllTemplates(RxRoot::virtual_root(name.as_str(), children))
    }

    /// The root of this view.
    pub fn root(&self) -> (r: &RxRoot)
        ensures
            *r == self.0,
    {
        &self.0
    }

    /// The name of this view, before translation.
    pub fn name_message(&self) -> (r: UiMessage)
        ensures
            r.parts() == (None::<Seq<char>>, "All Templates"@),
            r.translatable(),
    {
        proof {
            reveal_strlit("All Templates");
        }
        UiMessage { context: None, id: "All Templates" }
    }

    /// The translated name of this view: its `name_message` in the current locale.
    pub fn name(&self) -> String {
        self.name_message().translated()
    }

    /// This view has no special feature.
    pub fn feature(&self) -> (r: RxViewFeature)
        ensures
            r == RxViewFeature::NoFeature,
    {
        RxViewFeature::NoFeature
    }

    /// Searches all templates when the UUID is that of the root, the entries of the template
    /// with the given UUID otherwise.
    pub fn search(&self, search_type: RxSearchType, container_uuid: u128, search_term: Option<&str>) -> (r: Vec<RxContainedRef>)
        ensures
            r@ == search_result(
                *self.0.root_container,
                search_type,
                container_uuid,
                match search_term {
                    Some(t) => Some(t@),
                    None => None,
                },
            ),
    {
        if container_uuid == self.0.uuid() {
            self.0.root_container.search_children_immediate(search_type, search_term)
        } else {
            self.0.search(search_type, container_uuid, search_term)
        }
    }
}

/// The entries with a one-time password, in listing order.
pub open spec fn otp_entries(es: Seq<Rc<RxEntry>>) -> Seq<Rc<RxEntry>>
    decreases es.len(),
{
    if es.len() == 0 {
        es
    } else if es.last().raw_otp_value is Some {
        otp_entries(es.drop_last()).push(es.last())
    } else {
        otp_entries(es.drop_last())
    }
}

/// The view of all entries that have 2FA codes.
pub struct TotpEntries(pub RxRoot);

impl TotpEntries {
    /// The view of the database's entries with a one-time password, in listing order.
    pub fn new(db: &RxDatabase) -> (r: TotpEntries)
        ensures
            r.0.root_container.item matches RxContainerItem::VirtualRoot(_, ch) && ch@ == sort_by_key(
                otp_entries(db.entries@),
                |e: Rc<RxEntry>| entry_key(e),
            ).map_values(|e: Rc<RxEntry>| entry_container(e)),
            r.0.root_container.is_root,
            r.0.root_container.contained_type == RxContainedType::VirtualRoot,
    {
        let mut with_otp: Vec<Rc<RxEntry>> = Vec::new();
        for i in 0..db.entries.len()
            invariant
                with_otp@ == otp_entries(db.entries@.take(i as int)),
        {
            assert(db.entries@.take(i + 1).drop_last() =~= db.entries@.take(i as int));
            if db.entries[i].has_otp() {
                with_otp.push(db.entries[i].clone());
            }
        }
        assert(db.entries@.take(db.entries@.len() as int) =~= db.entries@);
        let children = sorted_entry_containers(with_otp);
        proof {
            let sorted = sort_by_key(otp_entries(db.entries@), |e: Rc<RxEntry>| entry_key(e));
            crate::rx::sort_order::lemma_sort_sorted_facts(otp_entries(db.entries@), |e: Rc<RxEntry>| entry_key(e));
            assert forall|i: int, j: int| 0 <= i < j < children@.len() implies !key_before(
                container_key(children@[j]),
                container_key(children@[i]),
            ) by {
                assert(children@[i] == entry_container(sorted[i]));
                assert(children@[j] == entry_container(sorted[j]));
            }
            lemma_sort_sorted(children@, |c: RxContainer| container_key(c));
        }
        proof {
            reveal_strlit("Two-factor/OTP codes (keep phrase short as possible)");
            reveal_strlit("2FA Codes");
        }
        let name = translate_in_context("Two-factor/OTP codes (keep phrase short as possible)", "2FA Codes");
        TotpEntries(RxRoot::virtual_root(name.as_str(), children))
    }

    /// The root of this view.
    pub fn root(&self) -> (r: &RxRoot)
        ensures
            *r == self.0,
    {
        &self.0
    }

    /// The name of this view, before translation.
    pub fn name_message(&self) -> (r: UiMessage)
        ensures
            r.parts() == (Some("Two-factor/OTP codes (keep phrase short as possible)"@), "2FA Codes"@),
            r.translatable(),
    {
        proof {
            reveal_strlit("Two-factor/OTP codes (keep phrase short as possible)");
            reveal_strlit("2FA Codes");
        }
        UiMessage { context: Some("Two-factor/OTP codes (keep phrase short as possible)"), id: "2FA Codes" }
    }

    /// The translated name of this view: its `name_message` in the current locale.
    pub fn name(&self) -> String {
        self.name_message().translated()
    }

    /// This view shows 2FA codes.
    pub fn feature(&self) -> (r: RxViewFeature)
        ensures
            r == RxViewFeature::DisplayTwoFactorAuth,
    {
        RxViewFeature::DisplayTwoFactorAuth
    }

    /// Searches the children of the container with the given UUID.
    pub fn search(&self, search_type: RxSearchType, container_uuid: u128, search_term: Option<&str>) -> (r: Vec<RxContainedRef>)
        ensures
            r@ == search_result(
                *self.0.root_container,
                search_type,
                container_uuid,
                match search_term {
                    Some(t) => Some(t@),
                    None => None,
                },
            ),
    {
        self.0.search(search_type, container_uuid, search_term)
    }
}


/// Each tag of each entry, with the entry's UUID, in order.
pub open spec fn tag_pairs(es: Seq<Rc<RxEntry>>) -> Seq<(Seq<char>, u128)>
    decreases es.len(),
{
    if es.len() == 0 {
        Seq::empty()
    } else {
        tag_pairs(es.drop_last()) + es.last().tags@.map_values(|t: String| (t@, es.last().uuid))
    }
}

/// Position of the last row of a tag table with the given name, or -1.
pub open spec fn tag_index(t: Seq<(Seq<char>, Seq<u128>)>, name: Seq<char>) -> int
    decreases t.len(),
{
    if t.len() == 0 {
        -1
    } else if t.last().0 == name {
        t.len() - 1
    } else {
        tag_index(t.drop_last(), name)
    }
}

/// The tag table after recording one more (tag, entry) pair: the entry joins the row of its
/// tag, or a new row is added at the end.
pub open spec fn record_tag(t: Seq<(Seq<char>, Seq<u128>)>, p: (Seq<char>, u128)) -> Seq<(Seq<char>, Seq<u128>)> {
    let i = tag_index(t, p.0);
    if i >= 0 {
        t.update(i, (t[i].0, t[i].1.push(p.1)))
    } else {
        t.push((p.0, seq![p.1]))
    }
}

/// The tags of all entries, in order of first appearance, each with the UUIDs of the entries
/// that carry it (once per time they carry it), in order.
pub open spec fn tag_table(pairs: Seq<(Seq<char>, u128)>) -> Seq<(Seq<char>, Seq<u128>)>
    decreases pairs.len(),
{
    if pairs.len() == 0 {
        Seq::empty()
    } else {
        record_tag(tag_table(pairs.drop_last()), pairs.last())
    }
}

/// The rows of a tag table have distinct names.
pub open spec fn distinct_tags(t: Seq<(Seq<char>, Seq<u128>)>) -> bool {
    forall|i: int, j: int| 0 <= i < j < t.len() ==> t[i].0 != t[j].0
}

proof fn lemma_tag_index(t: Seq<(Seq<char>, Seq<u128>)>, name: Seq<char>)
    ensures
        -1 <= tag_index(t, name) < t.len(),
        tag_index(t, name) >= 0 ==> t[tag_index(t, name)].0 == name,
        tag_index(t, name) == -1 ==> forall|i: int| 0 <= i < t.len() ==> t[i].0 != name,
    decreases t.len(),
{
    if t.len() > 0 {
        lemma_tag_index(t.drop_last(), name);
        if t.last().0 != name {
            assert forall|i: int| 0 <= i < t.len() - 1 implies t[i] == t.drop_last()[i] by {}
        }
    }
}

proof fn lemma_tag_index_unique(t: Seq<(Seq<char>, Seq<u128>)>, name: Seq<char>, i: int)
    requires
        distinct_tags(t),
        0 <= i < t.len(),
        t[i].0 == name,
    ensures
        tag_index(t, name) == i,
{
    lemma_tag_index(t, name);
}

/// The tag of a tag container.
pub open spec fn tag_of(c: RxContainer) -> Rc<RxTag> {
    c.item->Grouping_0.grouping->Tag_0
}

/// The view of all tags, each holding the entries that carry it.
pub struct AllTags(pub RxRoot);

impl AllTags {
    /// The view of the tags of the database's entries, in listing order. Each tag gets a fresh
    /// random UUID, which decides the order of tags whose names fold to the same text.
    pub fn new(db: &RxDatabase) -> (r: AllTags)
        requires
            db.wf(),
        ensures
            ({
                let table = tag_table(tag_pairs(db.entries@));
                r.0.root_container.item matches RxContainerItem::VirtualRoot(_, ch) && {
                    &&& ch@.len() == table.len()
                    &&& forall|i: int|
                        0 <= i < ch@.len() ==> is_grouping(
                            #[trigger] ch@[i],
                            RxContainedType::Tag,
                            RxGrouping::Tag(tag_of(ch@[i])),
                            entry_children(*db, tag_of(ch@[i]).entry_uuids@),
                        ) && tag_of(ch@[i]).uuid != 0
                    &&& forall|k: int|
                        0 <= k < table.len() ==> exists|i: int|
                            0 <= i < ch@.len() && (#[trigger] tag_of(ch@[i])).name@ == (#[trigger] table[k]).0
                                && tag_of(ch@[i]).entry_uuids@ == table[k].1
                    &&& sorted_by_key(ch@, |c: RxContainer| container_key(c))
                }
            }),
            r.0.root_container.is_root,
            r.0.root_container.contained_type == RxContainedType::VirtualRoot,
    {
        let mut names: Vec<String> = Vec::new();
        let mut members: Vec<Vec<u128>> = Vec::new();
        let ghost mut table: Seq<(Seq<char>, Seq<u128>)> = Seq::empty();
        for i in 0..db.entries.len()
            invariant
                table == tag_table(tag_pairs(db.entries@.take(i as int))),
                distinct_tags(table),
                names@.len() == table.len(),
                members@.len() == table.len(),
                forall|k: int| 0 <= k < table.len() ==> (#[trigger] names@[k])@ == table[k].0,
                    forall|k: int| 0 <= k < table.len() ==> (#[trigger] members@[k])@ == table[k].1,
        {
            let e = &db.entries[i];
            let ghost done = tag_pairs(db.entries@.take(i as int));
            let ghost now = e.tags@.map_values(|t: String| (t@, e.uuid));
            assert(db.entries@.take(i + 1).drop_last() =~= db.entries@.take(i as int));
            for j in 0..e.tags.len()
                invariant
                    now == e.tags@.map_values(|t: String| (t@, e.uuid)),
                    table == tag_table(done + now.take(j as int)),
                    distinct_tags(table),
                    names@.len() == table.len(),
                    members@.len() == table.len(),
                    forall|k: int| 0 <= k < table.len() ==> (#[trigger] names@[k])@ == table[k].0,
                    forall|k: int| 0 <= k < table.len() ==> (#[trigger] members@[k])@ == table[k].1,
            {
                let tag = &e.tags[j];
                let ghost p = (tag@, e.uuid);
                assert((done + now.take(j + 1)).drop_last() =~= done + now.take(j as int));
                assert((done + now.take(j + 1)).last() == p);
                let mut found: Option<usize> = None;
                let mut k: usize = 0;
                while k < names.len()
                    invariant
                        k <= names@.len(),
                        names@.len() == table.len(),
                        forall|q: int| 0 <= q < table.len() ==> (#[trigger] names@[q])@ == table[q].0,
                        found is None ==> forall|q: int| 0 <= q < k ==> table[q].0 != tag@,
                        found matches Some(f) ==> f < table.len() && table[f as int].0 == tag@,
                    decreases names@.len() - k,
                {
                    if found.is_none() && str_eq(names[k].as_str(), tag.as_str()) {
                        found = Some(k);
                    }
                    k = k + 1;
                }
                proof {
                    lemma_tag_index(table, tag@);
                }
                match found {
                    Some(f) => {
                        proof {
                            lemma_tag_index_unique(table, tag@, f as int);
                        }
                        let mut m = copy_uuids(&members[f]);
                        m.push(e.uuid);
                        let ghost old_members = members@;
                        let ghost old_table = table;
                        members.set(f, m);
                        proof {
                            table = record_tag(table, p);
                            assert(table == old_table.update(f as int, (old_table[f as int].0, old_table[f as int].1.push(e.uuid))));
                            assert forall|q: int| 0 <= q < table.len() implies (#[trigger] names@[q])@ == table[q].0
                                && (#[trigger] members@[q])@ == table[q].1 by {
                                if q != f {
                                    assert(members@[q] == old_members[q]);
                                }
                            }
                            assert forall|a: int, b: int| 0 <= a < b < table.len() implies table[a].0 != table[b].0 by {
                                assert(table[a].0 == old_table[a].0 && table[b].0 == old_table[b].0);
                            }
                        }
                    },
                    None => {
                        let ghost old_table = table;
                        let ghost old_names = names@;
                        let ghost old_members = members@;
                        names.push(tag.clone());
                        let mut m: Vec<u128> = Vec::new();
                        m.push(e.uuid);
                        assert(m@ =~= seq![e.uuid]);
                        members.push(m);
                        proof {
                            table = record_tag(table, p);
                            assert(table == old_table.push((tag@, seq![e.uuid])));
                            assert forall|q: int| 0 <= q < table.len() implies (#[trigger] names@[q])@ == table[q].0
                                && (#[trigger] members@[q])@ == table[q].1 by {
                                if q < old_table.len() {
                                    assert(names@[q] == old_names[q]);
                                    assert(members@[q] == old_members[q]);
                                }
                            }
                        }
                    },
                }
            }
            assert(now.take(e.tags@.len() as int) =~= now);
        }
        assert(db.entries@.take(db.entries@.len() as int) =~= db.entries@);
        let ghost final_table = table;
        let mut tags: Vec<Rc<RxTag>> = Vec::new();
        let mut keys: Vec<SortKey> = Vec::new();
        let n = names.len();
        for k in 0..n
            invariant
                n == names@.len(),
                names@.len() == final_table.len(),
                members@.len() == final_table.len(),
                forall|q: int| 0 <= q < final_table.len() ==> (#[trigger] names@[q])@ == final_table[q].0,
                forall|q: int| 0 <= q < final_table.len() ==> (#[trigger] members@[q])@ == final_table[q].1,
                tags@.len() == k,
                keys@.len() == k,
                forall|q: int| 0 <= q < k ==> (#[trigger] tags@[q]).name@ == final_table[q].0 && tags@[q].entry_uuids@ == final_table[q].1 && tags@[q].uuid != 0,
                forall|q: int| 0 <= q < k ==> (#[trigger] keys@[q]).view_key() == ref_key(RxContainedRef::Tag(tags@[q])),
        {
            let tag = Rc::new(RxTag::new(names[k].clone(), copy_uuids(&members[k])));
            keys.push(RxContainedRef::Tag(tag.clone()).sort_key());
            tags.push(tag);
        }
        let ghost unsorted = tags@;
        let sorted = sort_by_keys(tags, keys, Ghost(|t: Rc<RxTag>| ref_key(RxContainedRef::Tag(t))));
        let mut children: Vec<RxContainer> = Vec::new();
        for i in 0..sorted.len()
            invariant
                db.wf(),
                children@.len() == i,
                forall|q: int|
                    0 <= q < i ==> is_grouping(
                        #[trigger] children@[q],
                        RxContainedType::Tag,
                        RxGrouping::Tag(sorted@[q]),
                        entry_children(*db, sorted@[q].entry_uuids@),
                    ),
        {
            children.push(RxContainer::from_tag(&sorted[i], db));
        }
        proof {
            broadcast use vstd::seq_lib::group_to_multiset_ensures;
            assert(sorted@.len() == unsorted.len()) by {
                assert(sorted@.to_multiset().len() == unsorted.to_multiset().len());
            }
            assert forall|i: int| 0 <= i < children@.len() implies tag_of(children@[i]) == sorted@[i] && sorted@[i].uuid != 0 by {
                assert(sorted@.contains(sorted@[i]));
                assert(sorted@.to_multiset().count(sorted@[i]) > 0);
                assert(unsorted.to_multiset().count(sorted@[i]) > 0);
                let q = choose|q: int| 0 <= q < unsorted.len() && unsorted[q] == sorted@[i];
                assert(unsorted[q].uuid != 0);
            }
            assert forall|k: int| 0 <= k < final_table.len() implies exists|i: int|
                0 <= i < children@.len() && (#[trigger] tag_of(children@[i])).name@ == (#[trigger] final_table[k]).0
                    && tag_of(children@[i]).entry_uuids@ == final_table[k].1 by {
                let x = unsorted[k];
                assert(unsorted.contains(x));
                assert(unsorted.to_multiset().count(x) > 0);
                assert(sorted@.to_multiset().count(x) > 0);
                assert(sorted@.contains(x));
                let i = choose|i: int| 0 <= i < sorted@.len() && sorted@[i] == x;
                assert(tag_of(children@[i]) == sorted@[i]);
            }
            assert forall|i: int, j: int| 0 <= i < j < children@.len() implies !key_before(
                container_key(children@[j]),
                container_key(children@[i]),
            ) by {
                assert(container_key(children@[i]) == ref_key(RxContainedRef::Tag(sorted@[i])));
                assert(container_key(children@[j]) == ref_key(RxContainedRef::Tag(sorted@[j])));
            }
            lemma_sort_sorted(children@, |c: RxContainer| container_key(c));
        }
        proof {
            reveal_strlit("List of entries with tags");
            reveal_strlit("Tags");
        }
        let name = translate_in_context("List of entries with tags", "Tags");
        AllTags(RxRoot::virtual_root(name.as_str(), children))
    }

    /// The root of this view.
    pub fn root(&self) -> (r: &RxRoot)
        ensures
            *r == self.0,
    {
        &self.0
    }

    /// The name of this view, before translation.
    pub fn name_message(&self) -> (r: UiMessage)
        ensures
            r.parts() == (None::<Seq<char>>, "Tags"@),
            r.translatable(),
    {
        proof {
            reveal_strlit("Tags");
        }
        UiMessage { context: None, id: "Tags" }
    }

    /// The translated name of this view: its `name_message` in the current locale.
    pub fn name(&self) -> String {
        self.name_message().translated()
    }

    /// This view has no special feature.
    pub fn feature(&self) -> (r: RxViewFeature)
        ensures
            r == RxViewFeature::NoFeature,
    {
        RxViewFeature::NoFeature
    }

    /// Searches the children of the container with the given UUID.
    pub fn search(&self, search_type: RxSearchType, container_uuid: u128, search_term: Option<&str>) -> (r: Vec<RxContainedRef>)
        ensures
            r@ == search_result(
                *self.0.root_container,
                search_type,
                container_uuid,
                match search_term {
                    Some(t) => Some(t@),
                    None => None,
                },
            ),
    {
        self.0.search(search_type, container_uuid, search_term)
    }
}

} // verus!
