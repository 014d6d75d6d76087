//! Loading a database file's groups and entries into the library's structures.
use vstd::prelude::*;
use std::rc::Rc;
use indexmap::IndexSet;
use crate::index_set::{uuid_set_index_of, uuid_set_insert, uuid_set_items, uuid_set_new};
use crate::rx::rx_entry::{template_of, RxEntry, RxIcon, RxIconView};
use crate::rx::rx_group::{kp_group_ids, RxGroup, RxTemplate};
use crate::rx::source::{KeePassEntry, KeePassGroup};

verus! {

/// The groups that loading `g` stores, in the order it stores them, with their parents:
/// everything below each subgroup first, then the subgroups themselves.
pub open spec fn groups_below(g: KeePassGroup) -> Seq<(KeePassGroup, Option<u128>)>
    decreases g, 1int,
{
    groups_below_each(g.groups@, g.groups@.len() as int) + g.groups@.map_values(
        |s: KeePassGroup| (s, Some(g.uuid)),
    )
}

/// What loading the first `n` of the groups `gs` stores below them.
pub open spec fn groups_below_each(gs: Seq<KeePassGroup>, n: int) -> Seq<(KeePassGroup, Option<u128>)>
    decreases gs, 0int, n,
{
    if n <= 0 || n > gs.len() {
        Seq::empty()
    } else {
        groups_below_each(gs, n - 1) + groups_below(gs[n - 1])
    }
}

/// The entries that loading `g` stores, in order, with their groups: those below each
/// subgroup first, then the group's own entries.
pub open spec fn entries_below(g: KeePassGroup) -> Seq<(KeePassEntry, u128)>
    decreases g, 1int,
{
    entries_below_each(g.groups@, g.groups@.len() as int) + g.entries@.map_values(
        |e: KeePassEntry| (e, g.uuid),
    )
}

/// What loading the first `n` of the groups `gs` stores of entries.
pub open spec fn entries_below_each(gs: Seq<KeePassGroup>, n: int) -> Seq<(KeePassEntry, u128)>
    decreases gs, 0int, n,
{
    if n <= 0 || n > gs.len() {
        Seq::empty()
    } else {
        entries_below_each(gs, n - 1) + entries_below(gs[n - 1])
    }
}


/// The sequence with later repeats of a value left out.
pub open spec fn dedup_first(s: Seq<u128>) -> Seq<u128>
    decreases s.len(),
{
    if s.len() == 0 {
        Seq::empty()
    } else {
        let d = dedup_first(s.drop_last());
        if d.contains(s.last()) {
            d
        } else {
            d.push(s.last())
        }
    }
}

/// Position of the last occurrence of `u` in `s`, or -1.
pub open spec fn last_pos(s: Seq<u128>, u: u128) -> int
    decreases s.len(),
{
    if s.len() == 0 {
        -1
    } else if s.last() == u {
        s.len() - 1
    } else {
        last_pos(s.drop_last(), u)
    }
}

/// A non-empty sequence holds a value exactly when its front or its last item does.
pub proof fn lemma_seq_contains_last(s: Seq<u128>, u: u128)
    requires
        s.len() > 0,
    ensures
        s.contains(u) <==> (s.drop_last().contains(u) || s.last() == u),
{
    if s.contains(u) {
        let k = choose|k: int| 0 <= k < s.len() && s[k] == u;
        if k < s.len() - 1 {
            assert(s.drop_last()[k] == u);
        }
    }
    if s.drop_last().contains(u) {
        let k = choose|k: int| 0 <= k < s.drop_last().len() && s.drop_last()[k] == u;
        assert(s[k] == u);
    }
    if s.last() == u {
        assert(s[s.len() - 1] == u);
    }
}

/// Appending a value adds exactly that value to what a sequence holds.
pub proof fn lemma_push_contains(d: Seq<u128>, x: u128, u: u128)
    ensures
        d.push(x).contains(u) <==> (d.contains(u) || x == u),
{
    lemma_seq_contains_last(d.push(x), u);
    assert(d.push(x).drop_last() == d);
}

/// Dropping repeats keeps every value that occurs.
pub proof fn lemma_dedup_contains(s: Seq<u128>, u: u128)
    ensures
        dedup_first(s).contains(u) <==> s.contains(u),
    decreases s.len(),
{
    if s.len() > 0 {
        lemma_dedup_contains(s.drop_last(), u);
        lemma_seq_contains_last(s, u);
        let d = dedup_first(s.drop_last());
        let x = s.last();
        lemma_push_contains(d, x, u);
        if d.contains(x) {
            lemma_dedup_contains(s.drop_last(), x);
        }
    }
}

/// Appending to a sequence appends to its repeat-free form, unless the value was there.
pub proof fn lemma_dedup_push(s: Seq<u128>, u: u128)
    ensures
        dedup_first(s.push(u)) == if s.contains(u) {
            dedup_first(s)
        } else {
            dedup_first(s).push(u)
        },
{
    assert(s.push(u).drop_last() == s);
    lemma_dedup_contains(s, u);
}

/// The last position of a value holds that value, and is -1 when the value is absent.
pub proof fn lemma_last_pos(s: Seq<u128>, u: u128)
    ensures
        s.contains(u) ==> 0 <= last_pos(s, u) < s.len() && s[last_pos(s, u)] == u,
        !s.contains(u) ==> last_pos(s, u) == -1,
    decreases s.len(),
{
    if s.len() > 0 {
        lemma_last_pos(s.drop_last(), u);
        if s.last() != u {
            if s.contains(u) {
                let k = choose|k: int| 0 <= k < s.len() && s[k] == u;
                assert(s.drop_last()[k] == u);
            }
            if s.drop_last().contains(u) {
                let k = choose|k: int| 0 <= k < s.drop_last().len() && s.drop_last()[k] == u;
                assert(s[k] == u);
            }
        } else {
            assert(s[s.len() - 1] == u);
        }
    }
}

/// Appending a value moves its last position to the end and leaves other values alone.
pub proof fn lemma_last_pos_push(s: Seq<u128>, x: u128, u: u128)
    ensures
        last_pos(s.push(x), u) == if x == u {
            s.len() as int
        } else {
            last_pos(s, u)
        },
{
    assert(s.push(x).drop_last() == s);
}

/// The UUIDs of loaded entries, in load order.
pub open spec fn entry_src_ids(srcs: Seq<(KeePassEntry, u128)>) -> Seq<u128> {
    srcs.map_values(|p: (KeePassEntry, u128)| p.0.uuid)
}

/// The UUIDs of loaded groups, in load order.
pub open spec fn group_src_ids(srcs: Seq<(KeePassGroup, Option<u128>)>) -> Seq<u128> {
    srcs.map_values(|p: (KeePassGroup, Option<u128>)| p.0.uuid)
}

/// The template UUIDs that loaded entries point to, in load order.
pub open spec fn template_refs(srcs: Seq<(KeePassEntry, u128)>) -> Seq<u128>
    decreases srcs.len(),
{
    if srcs.len() == 0 {
        Seq::empty()
    } else {
        let rest = template_refs(srcs.drop_last());
        match template_of(srcs.last().0.fields@) {
            Some(t) => rest.push(t),
            None => rest,
        }
    }
}

/// The UUIDs of the loaded entries made from template `t`, in load order.
pub open spec fn template_members(srcs: Seq<(KeePassEntry, u128)>, t: u128) -> Seq<u128>
    decreases srcs.len(),
{
    if srcs.len() == 0 {
        Seq::empty()
    } else {
        let rest = template_members(srcs.drop_last(), t);
        if template_of(srcs.last().0.fields@) == Some(t) {
            rest.push(srcs.last().0.uuid)
        } else {
            rest
        }
    }
}

/// What loading builds up: templates, groups and entries, each kept once per UUID in the
/// order of first appearance (a later one with the same UUID takes the place of the earlier).
pub struct LoadState {
    pub templates: Vec<RxTemplate>,
    pub group_ids: IndexSet<u128>,
    pub groups: Vec<Rc<RxGroup>>,
    pub entry_ids: IndexSet<u128>,
    pub entries: Vec<Rc<RxEntry>>,
}

impl LoadState {
    /// The state holds the entries loaded from `srcs`.
    pub open spec fn entries_loaded(&self, srcs: Seq<(KeePassEntry, u128)>) -> bool {
        let ids = entry_src_ids(srcs);
        &&& uuid_set_items(self.entry_ids) == dedup_first(ids)
        &&& self.entries@.len() == dedup_first(ids).len()
        &&& forall|i: int|
            0 <= i < self.entries@.len() ==> {
                let e = #[trigger] self.entries@[i];
                let src = srcs[last_pos(ids, e.uuid)];
                &&& e.uuid == dedup_first(ids)[i]
                &&& e.made_from(src.0, src.1)
            }
    }

    /// The state holds the groups loaded from `srcs`.
    pub open spec fn groups_loaded(&self, srcs: Seq<(KeePassGroup, Option<u128>)>) -> bool {
        let ids = group_src_ids(srcs);
        &&& uuid_set_items(self.group_ids) == dedup_first(ids)
        &&& self.groups@.len() == dedup_first(ids).len()
        &&& forall|i: int|
            0 <= i < self.groups@.len() ==> {
                let g = #[trigger] self.groups@[i];
                let src = srcs[last_pos(ids, g.uuid)];
                &&& g.uuid == dedup_first(ids)[i]
                &&& g.made_from(src.0, src.1)
            }
    }

    /// The state holds the templates that the entries loaded from `srcs` point to.
    pub open spec fn templates_loaded(&self, srcs: Seq<(KeePassEntry, u128)>) -> bool {
        &&& self.templates@.map_values(|t: RxTemplate| t.uuid) == dedup_first(template_refs(srcs))
        &&& forall|i: int|
            0 <= i < self.templates@.len() ==> {
                let t = #[trigger] self.templates@[i];
                &&& t.entry_uuids@ == template_members(srcs, t.uuid)
                &&& t.name@ == Seq::<char>::empty()
                &&& t.icon@ == RxIconView::NoIcon
            }
    }

    /// Nothing loaded yet.
    pub fn new() -> (r: LoadState)
        ensures
            r.entries_loaded(Seq::empty()),
            r.groups_loaded(Seq::empty()),
            r.templates_loaded(Seq::empty()),
    {
        let r = LoadState {
            templates: Vec::new(),
            group_ids: uuid_set_new(),
            groups: Vec::new(),
            entry_ids: uuid_set_new(),
            entries: Vec::new(),
        };
        assert(entry_src_ids(Seq::empty()) =~= Seq::<u128>::empty());
        assert(group_src_ids(Seq::empty()) =~= Seq::<u128>::empty());
        assert(r.templates@.map_values(|t: RxTemplate| t.uuid) =~= Seq::<u128>::empty());
        r
    }

    /// Stores a loaded entry.
    pub fn insert_entry(&mut self, e: RxEntry, Ghost(srcs): Ghost<Seq<(KeePassEntry, u128)>>, Ghost(src): Ghost<(KeePassEntry, u128)>)
        requires
            old(self).entries_loaded(srcs),
            e.made_from(src.0, src.1),
        ensures
            final(self).entries_loaded(srcs.push(src)),
            final(self).templates == old(self).templates,
            final(self).group_ids == old(self).group_ids,
            final(self).groups == old(self).groups,
    {
        let ghost ids = entry_src_ids(srcs);
        let ghost nsrcs = srcs.push(src);
        let ghost nids = entry_src_ids(nsrcs);
        assert(nids =~= ids.push(src.0.uuid));
        proof {
            lemma_dedup_push(ids, e.uuid);
            lemma_dedup_contains(ids, e.uuid);
        }
        let u = e.uuid;
        let added = uuid_set_insert(&mut self.entry_ids, u);
        if added {
            self.entries.push(Rc::new(e));
            assert forall|i: int| 0 <= i < self.entries@.len() implies {
                let x = #[trigger] self.entries@[i];
                let s2 = nsrcs[last_pos(nids, x.uuid)];
                &&& x.uuid == dedup_first(nids)[i]
                &&& x.made_from(s2.0, s2.1)
            } by {
                let x = self.entries@[i];
                lemma_last_pos_push(ids, u, x.uuid);
                if i < self.entries@.len() - 1 {
                    assert(x.uuid == dedup_first(ids)[i]);
                    assert(dedup_first(ids).contains(x.uuid));
                    assert(x.uuid != u);
                    lemma_dedup_contains(ids, x.uuid);
                    lemma_last_pos(ids, x.uuid);
                    assert(ids.len() == srcs.len());
                    assert(nsrcs[last_pos(nids, x.uuid)] == srcs[last_pos(ids, x.uuid)]);
                }
            }
        } else {
            let p = uuid_set_index_of(&self.entry_ids, u);
            let p = p.unwrap();
            self.entries.set(p, Rc::new(e));
            assert forall|i: int| 0 <= i < self.entries@.len() implies {
                let x = #[trigger] self.entries@[i];
                let s2 = nsrcs[last_pos(nids, x.uuid)];
                &&& x.uuid == dedup_first(nids)[i]
                &&& x.made_from(s2.0, s2.1)
            } by {
                let x = self.entries@[i];
                lemma_last_pos_push(ids, u, x.uuid);
                if i != p {
                    assert(x.uuid == dedup_first(ids)[i]);
                    assert(x.uuid != u) by {
                        lemma_dedup_distinct(ids);
                    }
                    assert(dedup_first(ids).contains(x.uuid));
                    lemma_dedup_contains(ids, x.uuid);
                    lemma_last_pos(ids, x.uuid);
                    assert(ids.len() == srcs.len());
                    assert(nsrcs[last_pos(nids, x.uuid)] == srcs[last_pos(ids, x.uuid)]);
                }
            }
        }
    }
}

/// A copy of a list of UUIDs.
pub fn copy_uuids(v: &Vec<u128>) -> (r: Vec<u128>)
    ensures
        r@ == v@,
{
    let mut r: Vec<u128> = Vec::new();
    let n = v.len();
    for i in 0..n
        invariant
            n == v@.len(),
            r@ == v@.take(i as int),
    {
        r.push(v[i]);
        assert(v@.take(i + 1) == v@.take(i as int).push(v@[i as int]));
    }
    assert(v@.take(n as int) == v@);
    r
}

impl LoadState {
    /// Stores a loaded group.
    pub fn insert_group(&mut self, g: RxGroup, Ghost(srcs): Ghost<Seq<(KeePassGroup, Option<u128>)>>, Ghost(src): Ghost<(KeePassGroup, Option<u128>)>)
        requires
            old(self).groups_loaded(srcs),
            g.made_from(src.0, src.1),
        ensures
            final(self).groups_loaded(srcs.push(src)),
            final(self).templates == old(self).templates,
            final(self).entry_ids == old(self).entry_ids,
            final(self).entries == old(self).entries,
    {
        let ghost ids = group_src_ids(srcs);
        let ghost nsrcs = srcs.push(src);
        let ghost nids = group_src_ids(nsrcs);
        assert(nids =~= ids.push(src.0.uuid));
        proof {
            lemma_dedup_push(ids, g.uuid);
            lemma_dedup_contains(ids, g.uuid);
        }
        let u = g.uuid;
        let added = uuid_set_insert(&mut self.group_ids, u);
        if added {
            self.groups.push(Rc::new(g));
            assert forall|i: int| 0 <= i < self.groups@.len() implies {
                let x = #[trigger] self.groups@[i];
                let s2 = nsrcs[last_pos(nids, x.uuid)];
                &&& x.uuid == dedup_first(nids)[i]
                &&& x.made_from(s2.0, s2.1)
            } by {
                let x = self.groups@[i];
                lemma_last_pos_push(ids, u, x.uuid);
                if i < self.groups@.len() - 1 {
                    assert(x.uuid == dedup_first(ids)[i]);
                    assert(dedup_first(ids).contains(x.uuid));
                    assert(x.uuid != u);
                    lemma_dedup_contains(ids, x.uuid);
                    lemma_last_pos(ids, x.uuid);
                    assert(ids.len() == srcs.len());
                    assert(nsrcs[last_pos(nids, x.uuid)] == srcs[last_pos(ids, x.uuid)]);
                }
            }
        } else {
            let p = uuid_set_index_of(&self.group_ids, u);
            let p = p.unwrap();
            self.groups.set(p, Rc::new(g));
            assert forall|i: int| 0 <= i < self.groups@.len() implies {
                let x = #[trigger] self.groups@[i];
                let s2 = nsrcs[last_pos(nids, x.uuid)];
                &&& x.uuid == dedup_first(nids)[i]
                &&& x.made_from(s2.0, s2.1)
            } by {
                let x = self.groups@[i];
                lemma_last_pos_push(ids, u, x.uuid);
                if i != p {
                    assert(x.uuid == dedup_first(ids)[i]);
                    assert(x.uuid != u) by {
                        lemma_dedup_distinct(ids);
                    }
                    assert(dedup_first(ids).contains(x.uuid));
                    lemma_dedup_contains(ids, x.uuid);
                    lemma_last_pos(ids, x.uuid);
                    assert(ids.len() == srcs.len());
                    assert(nsrcs[last_pos(nids, x.uuid)] == srcs[last_pos(ids, x.uuid)]);
                }
            }
        }
    }

    /// Records that a loaded entry is made from a template, if it is.
    pub fn note_template(&mut self, entry_uuid: u128, template: Option<u128>, Ghost(srcs): Ghost<Seq<(KeePassEntry, u128)>>, Ghost(src): Ghost<(KeePassEntry, u128)>)
        requires
            old(self).templates_loaded(srcs),
            template == template_of(src.0.fields@),
            entry_uuid == src.0.uuid,
        ensures
            final(self).templates_loaded(srcs.push(src)),
            final(self).entry_ids == old(self).entry_ids,
            final(self).entries == old(self).entries,
            final(self).group_ids == old(self).group_ids,
            final(self).groups == old(self).groups,
    {
        let ghost nsrcs = srcs.push(src);
        assert(nsrcs.drop_last() == srcs);
        let ghost old_ids = self.templates@.map_values(|t: RxTemplate| t.uuid);
        match template {
            None => {
                assert(template_refs(nsrcs) == template_refs(srcs));
                assert forall|i: int| 0 <= i < self.templates@.len() implies {
                    let t = #[trigger] self.templates@[i];
                    t.entry_uuids@ == template_members(nsrcs, t.uuid)
                } by {
                    let t = self.templates@[i];
                    assert(template_members(nsrcs, t.uuid) == template_members(srcs, t.uuid));
                }
            },
            Some(t) => {
                assert(template_refs(nsrcs) == template_refs(srcs).push(t));
                proof {
                    lemma_dedup_push(template_refs(srcs), t);
                    lemma_dedup_contains(template_refs(srcs), t);
                    lemma_dedup_distinct(template_refs(srcs));
                }
                let n = self.templates.len();
                let mut i: usize = 0;
                while i < n
                    invariant
                        n == self.templates@.len(),
                        i <= n,
                        forall|k: int| 0 <= k < i ==> self.templates@[k].uuid != t,
                    ensures
                        i <= n,
                        forall|k: int| 0 <= k < i ==> self.templates@[k].uuid != t,
                        i < n ==> self.templates@[i as int].uuid == t,
                    decreases n - i,
                {
                    if self.templates[i].uuid == t {
                        break;
                    }
                    i = i + 1;
                }
                if i < n {
                    let old_t = &self.templates[i];
                    let mut members = copy_uuids(&old_t.entry_uuids);
                    members.push(entry_uuid);
                    let new_t = RxTemplate {
                        uuid: t,
                        name: String::new(),
                        icon: RxIcon::NoIcon,
                        entry_uuids: members,
                    };
                    assert(old_ids[i as int] == t);
                    assert(dedup_first(template_refs(srcs)).contains(t));
                    self.templates.set(i, new_t);
                    assert(self.templates@.map_values(|t: RxTemplate| t.uuid) =~= old_ids);
                    assert forall|k: int| 0 <= k < self.templates@.len() implies {
                        let x = #[trigger] self.templates@[k];
                        x.entry_uuids@ == template_members(nsrcs, x.uuid)
                    } by {
                        let x = self.templates@[k];
                        if k != i {
                            assert(old_ids[k] != old_ids[i as int]);
                            assert(template_members(nsrcs, x.uuid) == template_members(srcs, x.uuid));
                        }
                    }
                } else {
                    let mut members: Vec<u128> = Vec::new();
                    members.push(entry_uuid);
                    let new_t = RxTemplate {
                        uuid: t,
                        name: String::new(),
                        icon: RxIcon::NoIcon,
                        entry_uuids: members,
                    };
                    assert(!old_ids.contains(t));
                    self.templates.push(new_t);
                    assert(self.templates@.map_values(|t: RxTemplate| t.uuid) =~= old_ids.push(t));
                    assert(template_members(srcs, t) =~= Seq::<u128>::empty()) by {
                        lemma_members_absent(srcs, t);
                    }
                    assert forall|k: int| 0 <= k < self.templates@.len() implies {
                        let x = #[trigger] self.templates@[k];
                        x.entry_uuids@ == template_members(nsrcs, x.uuid)
                    } by {
                        let x = self.templates@[k];
                        if k < n {
                            assert(old_ids[k] == x.uuid);
                            assert(template_members(nsrcs, x.uuid) == template_members(srcs, x.uuid));
                        }
                    }
                }
            },
        }
    }
}

/// The group's entries paired with the group's UUID.
pub open spec fn own_entries(g: KeePassGroup) -> Seq<(KeePassEntry, u128)> {
    g.entries@.map_values(|e: KeePassEntry| (e, g.uuid))
}

/// The group's subgroups paired with the group's UUID as their parent.
pub open spec fn own_subgroups(g: KeePassGroup) -> Seq<(KeePassGroup, Option<u128>)> {
    g.groups@.map_values(|s: KeePassGroup| (s, Some(g.uuid)))
}

impl LoadState {
    /// Makes the group for `group`, storing everything below it along the way: the groups
    /// below each subgroup, then the subgroups, and the entries below each subgroup, then the
    /// group's own entries (noting templates as entries come). The group itself is returned,
    /// not stored.
    pub fn load_groups_recursive(
        &mut self,
        group: &KeePassGroup,
        parent: Option<u128>,
        Ghost(gsrcs): Ghost<Seq<(KeePassGroup, Option<u128>)>>,
        Ghost(esrcs): Ghost<Seq<(KeePassEntry, u128)>>,
    ) -> (r: RxGroup)
        requires
            old(self).groups_loaded(gsrcs),
            old(self).entries_loaded(esrcs),
            old(self).templates_loaded(esrcs),
        ensures
            final(self).groups_loaded(gsrcs + groups_below(*group)),
            final(self).entries_loaded(esrcs + entries_below(*group)),
            final(self).templates_loaded(esrcs + entries_below(*group)),
            r.made_from(*group, parent),
        decreases group,
    {
        let mut subgroups: Vec<RxGroup> = Vec::new();
        let n = group.groups.len();
        assert(gsrcs + groups_below_each(group.groups@, 0) =~= gsrcs);
        assert(esrcs + entries_below_each(group.groups@, 0) =~= esrcs);
        for i in 0..n
            invariant
                n == group.groups@.len(),
                self.groups_loaded(gsrcs + groups_below_each(group.groups@, i as int)),
                self.entries_loaded(esrcs + entries_below_each(group.groups@, i as int)),
                self.templates_loaded(esrcs + entries_below_each(group.groups@, i as int)),
                subgroups@.len() == i,
                forall|k: int|
                    0 <= k < i ==> (#[trigger] subgroups@[k]).made_from(
                        group.groups@[k],
                        Some(group.uuid),
                    ),
        {
            let ghost g1 = gsrcs + groups_below_each(group.groups@, i as int);
            let ghost e1 = esrcs + entries_below_each(group.groups@, i as int);
            let sg = self.load_groups_recursive(
                &group.groups[i],
                Some(group.uuid),
                Ghost(g1),
                Ghost(e1),
            );
            assert(g1 + groups_below(group.groups@[i as int]) =~= gsrcs + groups_below_each(
                group.groups@,
                i + 1,
            ));
            assert(e1 + entries_below(group.groups@[i as int]) =~= esrcs + entries_below_each(
                group.groups@,
                i + 1,
            ));
            subgroups.push(sg);
        }
        let ghost gmid = gsrcs + groups_below_each(group.groups@, n as int);
        let ghost emid = esrcs + entries_below_each(group.groups@, n as int);
        let mut entry_uuids: Vec<u128> = Vec::new();
        let m = group.entries.len();
        assert(emid + own_entries(*group).take(0) =~= emid);
        for j in 0..m
            invariant
                m == group.entries@.len(),
                self.groups_loaded(gmid),
                self.entries_loaded(emid + own_entries(*group).take(j as int)),
                self.templates_loaded(emid + own_entries(*group).take(j as int)),
                entry_uuids@ == group.entries@.take(j as int).map_values(|e: KeePassEntry| e.uuid),
        {
            let ghost before = emid + own_entries(*group).take(j as int);
            let ghost src = (group.entries@[j as int], group.uuid);
            let e = RxEntry::new(&group.entries[j], group.uuid);
            let t = e.template_uuid;
            let u = e.uuid;
            self.insert_entry(e, Ghost(before), Ghost(src));
            self.note_template(u, t, Ghost(before), Ghost(src));
            entry_uuids.push(u);
            assert(before.push(src) =~= emid + own_entries(*group).take(j + 1));
            assert(entry_uuids@ =~= group.entries@.take(j + 1).map_values(
                |e: KeePassEntry| e.uuid,
            ));
        }
        assert(own_entries(*group).take(m as int) =~= own_entries(*group));
        assert(emid + own_entries(*group) =~= esrcs + entries_below(*group));
        assert(group.entries@.take(m as int) =~= group.entries@);
        let mut sub_ids: Vec<u128> = Vec::new();
        for k in 0..n
            invariant
                n == subgroups@.len(),
                n == group.groups@.len(),
                sub_ids@.len() == k,
                forall|q: int| 0 <= q < k ==> sub_ids@[q] == group.groups@[q].uuid,
                forall|q: int|
                    0 <= q < n ==> (#[trigger] subgroups@[q]).made_from(
                        group.groups@[q],
                        Some(group.uuid),
                    ),
        {
            sub_ids.push(subgroups[k].uuid);
        }
        assert(sub_ids@ =~= kp_group_ids(group.groups@));
        let this_group = RxGroup::new(group, sub_ids, entry_uuids, parent);
        let mut k: usize = 0;
        assert(gmid + own_subgroups(*group).take(0) =~= gmid);
        while k < n
            invariant
                n == group.groups@.len(),
                k <= n,
                subgroups@.len() == n - k,
                forall|q: int|
                    0 <= q < n - k ==> (#[trigger] subgroups@[q]).made_from(
                        group.groups@[q + k],
                        Some(group.uuid),
                    ),
                self.groups_loaded(gmid + own_subgroups(*group).take(k as int)),
                self.entries_loaded(esrcs + entries_below(*group)),
                self.templates_loaded(esrcs + entries_below(*group)),
            decreases n - k,
        {
            let ghost before = gmid + own_subgroups(*group).take(k as int);
            let ghost src = (group.groups@[k as int], Some(group.uuid));
            let sg = subgroups.remove(0);
            self.insert_group(sg, Ghost(before), Ghost(src));
            assert(before.push(src) =~= gmid + own_subgroups(*group).take(k + 1));
            k = k + 1;
        }
        assert(own_subgroups(*group).take(n as int) =~= own_subgroups(*group));
        assert(gmid + own_subgroups(*group) =~= gsrcs + groups_below(*group));
        this_group
    }
}

/// A template that no loaded entry points to has no members.
pub proof fn lemma_members_absent(srcs: Seq<(KeePassEntry, u128)>, t: u128)
    requires
        !dedup_first(template_refs(srcs)).contains(t),
    ensures
        template_members(srcs, t) == Seq::<u128>::empty(),
    decreases srcs.len(),
{
    lemma_dedup_contains(template_refs(srcs), t);
    if srcs.len() > 0 {
        let rest = srcs.drop_last();
        lemma_dedup_contains(template_refs(rest), t);
        match template_of(srcs.last().0.fields@) {
            Some(x) => {
                lemma_push_contains(template_refs(rest), x, t);
            },
            None => {},
        }
        lemma_members_absent(rest, t);
    }
}

/// A repeat-free form holds no value twice.
pub proof fn lemma_dedup_distinct(s: Seq<u128>)
    ensures
        forall|i: int, j: int|
            0 <= i < j < dedup_first(s).len() ==> dedup_first(s)[i] != dedup_first(s)[j],
    decreases s.len(),
{
    if s.len() > 0 {
        lemma_dedup_distinct(s.drop_last());
        let d = dedup_first(s.drop_last());
        let x = s.last();
        if !d.contains(x) {
            assert forall|i: int, j: int|
                0 <= i < j < d.push(x).len() implies d.push(x)[i] != d.push(x)[j] by {
                if j == d.len() {
                    assert(d[i] == d.push(x)[i]);
                }
            }
        }
    }
}

} // verus!
