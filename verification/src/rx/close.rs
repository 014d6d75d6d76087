//! Closing a database: the secrets it holds are wiped before it is dropped.
use vstd::prelude::*;
use std::rc::Rc;
use crate::outside::{wipe_bytes, wipe_string};
use crate::rx::rx_db::RxDatabase;
use crate::rx::rx_entry::{RxCustomFields, RxEntry, RxIcon, RxTotp, RxValue, RxValueView};
use crate::rx::rx_group::RxGroup;
use crate::rx::rx_loader::copy_uuids;
use crate::rx::source::KeePassAttachment;

verus! {

/// A value holds nothing any more: its bytes or text are empty.
pub open spec fn value_wiped(v: RxValueView) -> bool {
    match v {
        RxValueView::Protected(b) => b.len() == 0,
        RxValueView::Sensitive(b) => b.len() == 0,
        RxValueView::Unprotected(t) => t.len() == 0,
        RxValueView::CurrentTotp(c, f) => c.len() == 0 && f.len() == 0,
        RxValueView::Unsupported => true,
    }
}

/// An optional value holds nothing any more.
pub open spec fn opt_value_wiped(v: Option<RxValue>) -> bool {
    v matches Some(x) ==> value_wiped(x@)
}

/// An entry holds no secret and no name any more: every value, custom field, tag and
/// attachment is empty.
pub open spec fn entry_wiped(e: RxEntry) -> bool {
    &&& opt_value_wiped(e.title)
    &&& opt_value_wiped(e.username)
    &&& opt_value_wiped(e.password)
    &&& opt_value_wiped(e.notes)
    &&& opt_value_wiped(e.url)
    &&& opt_value_wiped(e.raw_otp_value)
    &&& forall|i: int|
        0 <= i < e.custom_fields@.len() ==> (#[trigger] e.custom_fields@[i]).0.len() == 0 && value_wiped(
            e.custom_fields@[i].1,
        )
    &&& forall|i: int| 0 <= i < e.tags@.len() ==> (#[trigger] e.tags@[i])@.len() == 0
    &&& forall|i: int|
        0 <= i < e.attachments@.len() ==> (#[trigger] e.attachments@[i]).name@.len() == 0 && e.attachments@[i].data@.len()
            == 0
}

/// Wipes a value.
pub fn wipe_value(v: &mut RxValue)
    ensures
        value_wiped(final(v)@),
{
    let mut taken = RxValue::Unsupported;
    std::mem::swap(&mut taken, v);
    *v = match taken {
        RxValue::Protected(mut b) => {
            wipe_bytes(&mut b);
            RxValue::Protected(b)
        },
        RxValue::Sensitive(mut b) => {
            wipe_bytes(&mut b);
            RxValue::Sensitive(b)
        },
        RxValue::Unprotected(mut t) => {
            wipe_string(&mut t);
            RxValue::Unprotected(t)
        },
        RxValue::CurrentTotp(t) => {
            let RxTotp { mut code, mut valid_for } = t;
            wipe_string(&mut code);
            wipe_string(&mut valid_for);
            RxValue::CurrentTotp(RxTotp { code, valid_for })
        },
        RxValue::Unsupported => RxValue::Unsupported,
    };
}

/// Wipes an optional value.
pub fn wipe_opt_value(v: &mut Option<RxValue>)
    ensures
        opt_value_wiped(*final(v)),
        final(v).is_some() == old(v).is_some(),
{
    let taken = v.take();
    *v = match taken {
        Some(mut x) => {
            wipe_value(&mut x);
            Some(x)
        },
        None => None,
    };
}

/// Wipes every value, custom field, tag and attachment of an entry; its UUID stays.
pub fn wipe_entry(e: &mut RxEntry)
    ensures
        entry_wiped(*final(e)),
        final(e).uuid == old(e).uuid,
        final(e).parent_group == old(e).parent_group,
{
    wipe_opt_value(&mut e.title);
    wipe_opt_value(&mut e.username);
    wipe_opt_value(&mut e.password);
    wipe_opt_value(&mut e.notes);
    wipe_opt_value(&mut e.url);
    wipe_opt_value(&mut e.raw_otp_value);
    let mut fields: Vec<(String, RxValue)> = Vec::new();
    std::mem::swap(&mut fields, &mut e.custom_fields.data);
    let mut wiped_fields: Vec<(String, RxValue)> = Vec::new();
    while fields.len() > 0
        invariant
            forall|i: int|
                0 <= i < wiped_fields@.len() ==> (#[trigger] wiped_fields@[i]).0@.len() == 0 && value_wiped(
                    wiped_fields@[i].1@,
                ),
        decreases fields@.len(),
    {
        let (mut k, mut v) = fields.remove(0);
        wipe_string(&mut k);
        wipe_value(&mut v);
        wiped_fields.push((k, v));
    }
    e.custom_fields = RxCustomFields { data: wiped_fields };
    let mut tags: Vec<String> = Vec::new();
    std::mem::swap(&mut tags, &mut e.tags);
    let mut wiped_tags: Vec<String> = Vec::new();
    while tags.len() > 0
        invariant
            forall|i: int| 0 <= i < wiped_tags@.len() ==> (#[trigger] wiped_tags@[i])@.len() == 0,
        decreases tags@.len(),
    {
        let mut t = tags.remove(0);
        wipe_string(&mut t);
        wiped_tags.push(t);
    }
    e.tags = wiped_tags;
    let mut atts: Vec<KeePassAttachment> = Vec::new();
    std::mem::swap(&mut atts, &mut e.attachments);
    let mut wiped_atts: Vec<KeePassAttachment> = Vec::new();
    while atts.len() > 0
        invariant
            forall|i: int|
                0 <= i < wiped_atts@.len() ==> (#[trigger] wiped_atts@[i]).name@.len() == 0 && wiped_atts@[i].data@.len()
                    == 0,
        decreases atts@.len(),
    {
        let KeePassAttachment { mut name, mut data } = atts.remove(0);
        wipe_string(&mut name);
        wipe_bytes(&mut data);
        wiped_atts.push(KeePassAttachment { name, data });
    }
    e.attachments = wiped_atts;
    assert forall|i: int| 0 <= i < e.custom_fields@.len() implies (#[trigger] e.custom_fields@[i]).0.len() == 0
        && value_wiped(e.custom_fields@[i].1) by {
        assert(e.custom_fields@[i] == (e.custom_fields.data@[i].0@, e.custom_fields.data@[i].1@));
    }
}

impl RxDatabase {
    /// Closes the database: every entry's values, custom fields, tags and attachments and
    /// every group's name are wiped. An entry or group that a view still shares cannot be
    /// reached to be wiped in place; the database drops its own reference to it and holds a
    /// wiped stand-in with the same UUID instead. Gives how many were shared so.
    pub fn close(&mut self) -> (shared: usize)
        ensures
            old(self).wf() ==> final(self).wf(),
            final(self).entry_uuids() == old(self).entry_uuids(),
            final(self).group_uuids() == old(self).group_uuids(),
            forall|i: int| 0 <= i < final(self).entries@.len() ==> entry_wiped(*#[trigger] final(self).entries@[i]),
            forall|i: int| 0 <= i < final(self).groups@.len() ==> (#[trigger] final(self).groups@[i]).name@.len() == 0,
    {
        let ghost old_entry_ids = self.entry_uuids();
        let ghost old_group_ids = self.group_uuids();
        let mut shared: usize = 0;
        let mut entries: Vec<Rc<RxEntry>> = Vec::new();
        std::mem::swap(&mut entries, &mut self.entries);
        let n = entries.len();
        let mut wiped: Vec<Rc<RxEntry>> = Vec::new();
        while entries.len() > 0
            invariant
                wiped@.len() + entries@.len() == n,
                wiped@.map_values(|e: Rc<RxEntry>| e.uuid) + entries@.map_values(|e: Rc<RxEntry>| e.uuid) == old_entry_ids,
                forall|i: int| 0 <= i < wiped@.len() ==> entry_wiped(*#[trigger] wiped@[i]),
                shared <= wiped@.len(),
            decreases entries@.len(),
        {
            let ghost before_w = wiped@;
            let ghost before_e = entries@;
            let rc = entries.remove(0);
            let e = match Rc::try_unwrap(rc) {
                Ok(mut e) => {
                    wipe_entry(&mut e);
                    e
                },
                Err(rc) => {
                    shared = shared + 1;
                    RxEntry {
                        uuid: rc.uuid,
                        parent_group: rc.parent_group,
                        template_uuid: None,
                        title: None,
                        username: None,
                        password: None,
                        notes: None,
                        tags: Vec::new(),
                        custom_fields: RxCustomFields::new(),
                        url: None,
                        raw_otp_value: None,
                        icon: RxIcon::NoIcon,
                        expired: false,
                        weak_password: false,
                        attachments: Vec::new(),
                    }
                },
            };
            wiped.push(Rc::new(e));
            assert(wiped@.map_values(|e: Rc<RxEntry>| e.uuid) + entries@.map_values(|e: Rc<RxEntry>| e.uuid)
                =~= before_w.map_values(|e: Rc<RxEntry>| e.uuid) + before_e.map_values(|e: Rc<RxEntry>| e.uuid));
        }
        assert(wiped@.map_values(|e: Rc<RxEntry>| e.uuid) =~= old_entry_ids);
        self.entries = wiped;
        let mut groups: Vec<Rc<RxGroup>> = Vec::new();
        std::mem::swap(&mut groups, &mut self.groups);
        let m = groups.len();
        let mut wiped_g: Vec<Rc<RxGroup>> = Vec::new();
        while groups.len() > 0
            invariant
                wiped_g@.len() + groups@.len() == m,
                wiped_g@.map_values(|g: Rc<RxGroup>| g.uuid) + groups@.map_values(|g: Rc<RxGroup>| g.uuid) == old_group_ids,
                forall|i: int| 0 <= i < wiped_g@.len() ==> (#[trigger] wiped_g@[i]).name@.len() == 0,
            decreases groups@.len(),
        {
            let ghost before_w = wiped_g@;
            let ghost before_g = groups@;
            let rc = groups.remove(0);
            let g = match Rc::try_unwrap(rc) {
                Ok(mut g) => {
                    wipe_string(&mut g.name);
                    g
                },
                Err(rc) => {
                    shared = if shared < usize::MAX { shared + 1 } else { shared };
                    RxGroup {
                        uuid: rc.uuid,
                        parent: rc.parent,
                        name: String::new(),
                        icon: RxIcon::NoIcon,
                        subgroups: copy_uuids(&rc.subgroups),
                        entries: copy_uuids(&rc.entries),
                    }
                },
            };
            wiped_g.push(Rc::new(g));
            assert(wiped_g@.map_values(|g: Rc<RxGroup>| g.uuid) + groups@.map_values(|g: Rc<RxGroup>| g.uuid)
                =~= before_w.map_values(|g: Rc<RxGroup>| g.uuid) + before_g.map_values(|g: Rc<RxGroup>| g.uuid));
        }
        assert(wiped_g@.map_values(|g: Rc<RxGroup>| g.uuid) =~= old_group_ids);
        self.groups = wiped_g;
        shared
    }
}

} // verus!
