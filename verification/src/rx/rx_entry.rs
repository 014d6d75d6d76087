//! Password entries and their values.
use vstd::prelude::*;
use vstd::string::StringSliceAdditionalSpecFns;
use vstd::utf8::{decode_utf8, encode_utf8, valid_utf8};
use crate::outside::{parse_uuid, std_to_lowercase, to_lowercase, utf8_str, uuid_parse};
use crate::text::{
    chars_eq, chars_of, chars_starts_with, starts_with, str_eq, strings_view, to_owned_string,
};
use crate::rx::source::{
    attachment_named, attachments_view, KeePassAttachment, KeePassCustomItem, KeePassEntry, KeePassField, KeePassValue,
};

verus! {

broadcast use vstd::utf8::encode_utf8_decode_utf8, vstd::utf8::encode_utf8_valid_utf8;

/// Special field that marks an entry as made from a template (credit card, Wi-Fi, ...).
pub open spec fn template_field_name() -> Seq<char> {
    "_etm_template_uuid"@
}

/// Field names that are never shown as custom fields.
pub open spec fn is_field_to_hide(name: Seq<char>) -> bool {
    ||| name == "KeePassXC-Browser Settings"@
    ||| name == "_LAST_MODIFIED"@
    ||| name == template_field_name()
}

/// Field name prefixes that are never shown as custom fields.
pub open spec fn has_hidden_prefix(name: Seq<char>) -> bool {
    ||| starts_with(name, "AndroidApp"@)
    ||| starts_with(name, "KP2A_URL"@)
    ||| starts_with(name, "KPEX_PASSKEY_"@)
}

/// A field that other KeePass programs insert and that is not shown as a custom field.
pub open spec fn hidden_field(name: Seq<char>) -> bool {
    is_field_to_hide(name) || has_hidden_prefix(name)
}

/// Tells whether a field is hidden from the custom fields.
pub fn should_hide_field(field_name: &str) -> (b: bool)
    ensures
        b == hidden_field(field_name@),
{
    let name = chars_of(field_name);
    let n = name.as_slice();
    chars_eq(n, chars_of("KeePassXC-Browser Settings").as_slice()) || chars_eq(
        n,
        chars_of("_LAST_MODIFIED").as_slice(),
    ) || chars_eq(n, chars_of("_etm_template_uuid").as_slice()) || chars_starts_with(
        n,
        chars_of("AndroidApp").as_slice(),
    ) || chars_starts_with(n, chars_of("KP2A_URL").as_slice()) || chars_starts_with(
        n,
        chars_of("KPEX_PASSKEY_").as_slice(),
    )
}

/// A one-time password as of the moment it was computed.
pub struct RxTotp {
    pub code: String,
    pub valid_for: String,
}

/// The content of a value.
pub enum RxValueView {
    Protected(Seq<u8>),
    Sensitive(Seq<u8>),
    Unprotected(Seq<char>),
    CurrentTotp(Seq<char>, Seq<char>),
    Unsupported,
}

/// A value of an entry.
pub enum RxValue {
    /// Hidden by default. Used for passwords and the like.
    Protected(Vec<u8>),
    /// Not hidden by default, kept as bytes.
    Sensitive(Vec<u8>),
    /// A plain value.
    Unprotected(String),
    /// A one-time password computed for the current moment.
    CurrentTotp(RxTotp),
    Unsupported,
}

impl View for RxValue {
    type V = RxValueView;

    open spec fn view(&self) -> RxValueView {
        match self {
            RxValue::Protected(b) => RxValueView::Protected(b@),
            RxValue::Sensitive(b) => RxValueView::Sensitive(b@),
            RxValue::Unprotected(s) => RxValueView::Unprotected(s@),
            RxValue::CurrentTotp(t) => RxValueView::CurrentTotp(t.code@, t.valid_for@),
            RxValue::Unsupported => RxValueView::Unsupported,
        }
    }
}

/// The text of a value: byte values decoded as UTF-8 when they are valid, plain values as
/// they are, nothing for the others.
pub open spec fn value_text(v: RxValueView) -> Option<Seq<char>> {
    match v {
        RxValueView::Protected(b) => if valid_utf8(b) {
            Some(decode_utf8(b))
        } else {
            None
        },
        RxValueView::Sensitive(b) => if valid_utf8(b) {
            Some(decode_utf8(b))
        } else {
            None
        },
        RxValueView::Unprotected(s) => Some(s),
        _ => None,
    }
}

/// The text of an optional value.
pub open spec fn opt_value_text(v: Option<RxValueView>) -> Option<Seq<char>> {
    match v {
        Some(v) => value_text(v),
        None => None,
    }
}

/// A copy of a byte vector.
pub fn copy_bytes(b: &[u8]) -> (r: Vec<u8>)
    ensures
        r@ == b@,
{
    let mut r: Vec<u8> = Vec::new();
    let n = b.len();
    for i in 0..n
        invariant
            n == b@.len(),
            r@ == b@.take(i as int),
    {
        r.push(b[i]);
        assert(b@.take(i + 1) == b@.take(i as int).push(b@[i as int]));
    }
    assert(b@.take(n as int) == b@);
    r
}

/// A copy of a string.
pub fn copy_string(s: &String) -> (r: String)
    ensures
        r@ == s@,
{
    to_owned_string(s.as_str())
}

impl RxTotp {
    /// A copy of this one-time password.
    pub fn duplicate(&self) -> (r: RxTotp)
        ensures
            r.code@ == self.code@,
            r.valid_for@ == self.valid_for@,
    {
        RxTotp { code: copy_string(&self.code), valid_for: copy_string(&self.valid_for) }
    }
}

impl RxValue {
    /// A value holding the UTF-8 bytes of a plain string, not hidden by default.
    pub fn sensitive(value: &String) -> (r: RxValue)
        ensures
            r@ == RxValueView::Sensitive(encode_utf8(value@)),
    {
        let bytes = value.as_str().as_bytes();
        RxValue::Sensitive(copy_bytes(bytes))
    }

    /// A protected value holding the given bytes.
    pub fn protected(value: &[u8]) -> (r: RxValue)
        ensures
            r@ == RxValueView::Protected(value@),
    {
        RxValue::Protected(copy_bytes(value))
    }

    /// Protected values are hidden by default.
    pub fn is_hidden_by_default(&self) -> (b: bool)
        ensures
            b == (self@ is Protected),
    {
        match self {
            RxValue::Protected(_) => true,
            _ => false,
        }
    }

    /// The text of the value, when it has one.
    pub fn value(&self) -> (r: Option<String>)
        ensures
            match r {
                Some(s) => value_text(self@) == Some(s@),
                None => value_text(self@) is None,
            },
    {
        match self {
            RxValue::Protected(b) => match utf8_str(b.as_slice()) {
                Some(s) => Some(to_owned_string(s)),
                None => None,
            },
            RxValue::Sensitive(b) => match utf8_str(b.as_slice()) {
                Some(s) => Some(to_owned_string(s)),
                None => None,
            },
            RxValue::Unprotected(s) => Some(copy_string(s)),
            _ => None,
        }
    }

    /// The one-time password held by the value, if it holds one.
    pub fn totp_value(&self) -> (r: Option<&RxTotp>)
        ensures
            r is Some <==> self@ is CurrentTotp,
            r matches Some(t) ==> self@ == RxValueView::CurrentTotp(t.code@, t.valid_for@),
    {
        match self {
            RxValue::CurrentTotp(t) => Some(t),
            _ => None,
        }
    }

    /// A copy of this value.
    pub fn duplicate(&self) -> (r: RxValue)
        ensures
            r@ == self@,
    {
        match self {
            RxValue::Protected(b) => RxValue::Protected(copy_bytes(b.as_slice())),
            RxValue::Sensitive(b) => RxValue::Sensitive(copy_bytes(b.as_slice())),
            RxValue::Unprotected(s) => RxValue::Unprotected(copy_string(s)),
            RxValue::CurrentTotp(t) => RxValue::CurrentTotp(t.duplicate()),
            RxValue::Unsupported => RxValue::Unsupported,
        }
    }
}

/// The value an entry gets from a field of the file: protected values stay protected,
/// plain text becomes a sensitive value, binary data is dropped.
pub open spec fn converted(v: KeePassValue) -> Option<RxValueView> {
    match v {
        KeePassValue::Protected(b) => Some(RxValueView::Protected(b@)),
        KeePassValue::Unprotected(s) => Some(RxValueView::Sensitive(encode_utf8(s@))),
        KeePassValue::Bytes(_) => None,
    }
}

/// Converts a value of the file into an entry's value.
pub fn convert_value(v: &KeePassValue) -> (r: Option<RxValue>)
    ensures
        match r {
            Some(x) => converted(*v) == Some(x@),
            None => converted(*v) is None,
        },
{
    match v {
        KeePassValue::Protected(b) => Some(RxValue::protected(b.as_slice())),
        KeePassValue::Unprotected(s) => Some(RxValue::sensitive(s)),
        KeePassValue::Bytes(_) => None,
    }
}


/// Name of a field of an entry, as the user interface asks for it.
pub enum RxFieldName {
    Title,
    Username,
    Password,
    Url,
    CurrentTotp,
    CustomField(String),
}

/// The content of a field name.
pub enum RxFieldNameView {
    Title,
    Username,
    Password,
    Url,
    CurrentTotp,
    CustomField(Seq<char>),
}

impl View for RxFieldName {
    type V = RxFieldNameView;

    open spec fn view(&self) -> RxFieldNameView {
        match self {
            RxFieldName::Title => RxFieldNameView::Title,
            RxFieldName::Username => RxFieldNameView::Username,
            RxFieldName::Password => RxFieldNameView::Password,
            RxFieldName::Url => RxFieldNameView::Url,
            RxFieldName::CurrentTotp => RxFieldNameView::CurrentTotp,
            RxFieldName::CustomField(n) => RxFieldNameView::CustomField(n@),
        }
    }
}

/// The field name that a requested name stands for: the Unicode lower-cased request is
/// compared with the built-in names, anything else names a custom field as it was given.
pub open spec fn field_name_of(value: Seq<char>) -> RxFieldNameView {
    let l = std_to_lowercase(value);
    if l == "username"@ {
        RxFieldNameView::Username
    } else if l == "password"@ {
        RxFieldNameView::Password
    } else if l == "title"@ {
        RxFieldNameView::Title
    } else if l == "url"@ {
        RxFieldNameView::Url
    } else if l == "currenttotp"@ {
        RxFieldNameView::CurrentTotp
    } else {
        RxFieldNameView::CustomField(value)
    }
}

impl RxFieldName {
    /// Reads a field name from text, ignoring case for the built-in names.
    pub fn from_string(value: String) -> (r: RxFieldName)
        ensures
            r@ == field_name_of(value@),
    {
        let lower = to_lowercase(value.as_str());
        let l = chars_of(lower.as_str());
        let l = l.as_slice();
        if chars_eq(l, chars_of("username").as_slice()) {
            RxFieldName::Username
        } else if chars_eq(l, chars_of("password").as_slice()) {
            RxFieldName::Password
        } else if chars_eq(l, chars_of("title").as_slice()) {
            RxFieldName::Title
        } else if chars_eq(l, chars_of("url").as_slice()) {
            RxFieldName::Url
        } else if chars_eq(l, chars_of("currenttotp").as_slice()) {
            RxFieldName::CurrentTotp
        } else {
            RxFieldName::CustomField(value)
        }
    }

    /// The name of the field as text.
    pub fn to_string(&self) -> (r: String)
        ensures
            r@ == match self {
                RxFieldName::Username => "Username"@,
                RxFieldName::Password => "Password"@,
                RxFieldName::Title => "Title"@,
                RxFieldName::Url => "URL"@,
                RxFieldName::CurrentTotp => "CurrentTOTP"@,
                RxFieldName::CustomField(name) => name@,
            },
    {
        match self {
            RxFieldName::Username => to_owned_string("Username"),
            RxFieldName::Password => to_owned_string("Password"),
            RxFieldName::Title => to_owned_string("Title"),
            RxFieldName::Url => to_owned_string("URL"),
            RxFieldName::CurrentTotp => to_owned_string("CurrentTOTP"),
            RxFieldName::CustomField(name) => copy_string(name),
        }
    }
}

/// The content of a list of named values.
pub open spec fn pairs_view(v: Seq<(String, RxValue)>) -> Seq<(Seq<char>, RxValueView)> {
    v.map_values(|p: (String, RxValue)| (p.0@, p.1@))
}

/// The custom fields of an entry, in order.
pub struct RxCustomFields {
    pub data: Vec<(String, RxValue)>,
}

impl View for RxCustomFields {
    type V = Seq<(Seq<char>, RxValueView)>;

    open spec fn view(&self) -> Seq<(Seq<char>, RxValueView)> {
        pairs_view(self.data@)
    }
}

/// The custom fields taken from an entry's custom data: items that are not hidden and hold
/// a convertible value, in order.
pub open spec fn custom_data_fields(items: Seq<KeePassCustomItem>) -> Seq<(Seq<char>, RxValueView)>
    decreases items.len(),
{
    if items.len() == 0 {
        Seq::empty()
    } else {
        let rest = custom_data_fields(items.drop_last());
        let it = items.last();
        match it.value {
            Some(v) => if !hidden_field(it.key@) && converted(v) is Some {
                rest.push((it.key@, converted(v)->0))
            } else {
                rest
            },
            None => rest,
        }
    }
}

/// The fields that an entry keeps in named slots rather than among its custom fields.
pub open spec fn is_standard_field(name: Seq<char>) -> bool {
    ||| name == "Title"@
    ||| name == "UserName"@
    ||| name == "Password"@
    ||| name == "Notes"@
    ||| name == "URL"@
    ||| name == "otp"@
    ||| name == template_field_name()
}

/// The custom fields taken from an entry's remaining fields: not standard, not hidden,
/// convertible, in order.
pub open spec fn remaining_fields(fields: Seq<KeePassField>) -> Seq<(Seq<char>, RxValueView)>
    decreases fields.len(),
{
    if fields.len() == 0 {
        Seq::empty()
    } else {
        let rest = remaining_fields(fields.drop_last());
        let f = fields.last();
        if !is_standard_field(f.name@) && !hidden_field(f.name@) && converted(f.value) is Some {
            rest.push((f.name@, converted(f.value)->0))
        } else {
            rest
        }
    }
}

/// The value of the first field with the given name.
pub open spec fn field_value(fields: Seq<KeePassField>, name: Seq<char>) -> Option<KeePassValue>
    decreases fields.len(),
{
    if fields.len() == 0 {
        None
    } else if fields[0].name@ == name {
        Some(fields[0].value)
    } else {
        field_value(fields.drop_first(), name)
    }
}

/// The entry value made from the first field with the given name.
pub open spec fn extracted(fields: Seq<KeePassField>, name: Seq<char>) -> Option<RxValueView> {
    match field_value(fields, name) {
        Some(v) => converted(v),
        None => None,
    }
}

/// The template an entry points to: the UUID written in its template field.
pub open spec fn template_of(fields: Seq<KeePassField>) -> Option<u128> {
    match opt_value_text(extracted(fields, template_field_name())) {
        Some(t) => uuid_parse(t),
        None => None,
    }
}

fn push_pair(v: &mut Vec<(String, RxValue)>, key: &String, value: RxValue)
    ensures
        pairs_view(final(v)@) == pairs_view(old(v)@).push((key@, value@)),
{
    let ghost before = v@;
    let k = copy_string(key);
    v.push((k, value));
    assert(pairs_view(v@) =~= pairs_view(before).push((key@, value@))) by {
        assert forall|i: int| 0 <= i < before.len() implies pairs_view(v@)[i] == pairs_view(
            before,
        )[i] by {
            assert(v@[i] == before[i]);
        }
    }
}

impl RxCustomFields {
    /// No custom fields.
    pub fn new() -> (r: RxCustomFields)
        ensures
            r@ == Seq::<(Seq<char>, RxValueView)>::empty(),
    {
        let r = RxCustomFields { data: Vec::new() };
        assert(r@ =~= Seq::<(Seq<char>, RxValueView)>::empty());
        r
    }

    /// Custom fields from an entry's custom data.
    pub fn from_custom_data(items: &Vec<KeePassCustomItem>) -> (r: RxCustomFields)
        ensures
            r@ == custom_data_fields(items@),
    {
        let mut data: Vec<(String, RxValue)> = Vec::new();
        let n = items.len();
        assert(pairs_view(data@) =~= custom_data_fields(items@.take(0)));
        for i in 0..n
            invariant
                n == items@.len(),
                pairs_view(data@) == custom_data_fields(items@.take(i as int)),
        {
            let it = &items[i];
            assert(items@.take(i + 1).drop_last() == items@.take(i as int));
            match &it.value {
                Some(v) => {
                    if !should_hide_field(it.key.as_str()) {
                        match convert_value(v) {
                            Some(x) => push_pair(&mut data, &it.key, x),
                            None => {},
                        }
                    }
                },
                None => {},
            }
        }
        assert(items@.take(n as int) == items@);
        RxCustomFields { data }
    }

    /// Custom fields from the fields left after the standard ones.
    pub fn from_remaining_fields(fields: &Vec<KeePassField>) -> (r: RxCustomFields)
        ensures
            r@ == remaining_fields(fields@),
    {
        let mut data: Vec<(String, RxValue)> = Vec::new();
        let n = fields.len();
        assert(pairs_view(data@) =~= remaining_fields(fields@.take(0)));
        for i in 0..n
            invariant
                n == fields@.len(),
                pairs_view(data@) == remaining_fields(fields@.take(i as int)),
        {
            let f = &fields[i];
            assert(fields@.take(i + 1).drop_last() == fields@.take(i as int));
            if !is_standard_name(f.name.as_str()) && !should_hide_field(f.name.as_str()) {
                match convert_value(&f.value) {
                    Some(x) => push_pair(&mut data, &f.name, x),
                    None => {},
                }
            }
        }
        assert(fields@.take(n as int) == fields@);
        RxCustomFields { data }
    }

    /// Moves all fields of `other` to the end of these.
    pub fn append(&mut self, other: &mut RxCustomFields)
        ensures
            final(self)@ == old(self)@ + old(other)@,
            final(other)@ == Seq::<(Seq<char>, RxValueView)>::empty(),
    {
        let ghost a = self.data@;
        let ghost b = other.data@;
        self.data.append(&mut other.data);
        assert(pairs_view(self.data@) =~= pairs_view(a) + pairs_view(b));
        assert(pairs_view(other.data@) =~= Seq::<(Seq<char>, RxValueView)>::empty());
    }

    /// Number of custom fields.
    pub fn len(&self) -> (n: usize)
        ensures
            n == self@.len(),
    {
        self.data.len()
    }

    /// The value of the first custom field with the given name.
    pub fn get(&self, name: &str) -> (r: Option<&RxValue>)
        ensures
            match r {
                Some(v) => exists|i: int|
                    0 <= i < self@.len() && self@[i].0 == name@ && self@[i].1 == v@ && forall|
                        k: int,
                    |
                        0 <= k < i ==> self@[k].0 != name@,
                None => forall|i: int| 0 <= i < self@.len() ==> self@[i].0 != name@,
            },
    {
        let n = self.data.len();
        for i in 0..n
            invariant
                n == self.data@.len(),
                forall|k: int| 0 <= k < i ==> self@[k].0 != name@,
        {
            if str_eq(self.data[i].0.as_str(), name) {
                assert(self@[i as int].0 == name@);
                return Some(&self.data[i].1);
            }
        }
        None
    }
}

/// Tells whether a field name is one of the standard ones.
pub fn is_standard_name(name: &str) -> (b: bool)
    ensures
        b == is_standard_field(name@),
{
    let n = chars_of(name);
    let n = n.as_slice();
    chars_eq(n, chars_of("Title").as_slice()) || chars_eq(n, chars_of("UserName").as_slice())
        || chars_eq(n, chars_of("Password").as_slice()) || chars_eq(
        n,
        chars_of("Notes").as_slice(),
    ) || chars_eq(n, chars_of("URL").as_slice()) || chars_eq(n, chars_of("otp").as_slice())
        || chars_eq(n, chars_of("_etm_template_uuid").as_slice())
}

/// Finds the first field with the given name and converts its value.
pub fn extract_value(fields: &Vec<KeePassField>, field_name: &str) -> (r: Option<RxValue>)
    ensures
        match r {
            Some(v) => extracted(fields@, field_name@) == Some(v@),
            None => extracted(fields@, field_name@) is None,
        },
{
    let n = fields.len();
    assert(fields@.skip(0) == fields@);
    for i in 0..n
        invariant
            n == fields@.len(),
            field_value(fields@, field_name@) == field_value(fields@.skip(i as int), field_name@),
    {
        assert(fields@.skip(i as int)[0] == fields@[i as int]);
        assert(fields@.skip(i as int).drop_first() == fields@.skip(i + 1));
        if str_eq(fields[i].name.as_str(), field_name) {
            return convert_value(&fields[i].value);
        }
    }
    assert(fields@.skip(n as int).len() == 0);
    None
}


/// A copy of a list of strings.
pub fn copy_strings(v: &Vec<String>) -> (r: Vec<String>)
    ensures
        strings_view(r@) == strings_view(v@),
{
    let mut r: Vec<String> = Vec::new();
    let n = v.len();
    for i in 0..n
        invariant
            n == v@.len(),
            r@.len() == i,
            forall|k: int| 0 <= k < i ==> r@[k]@ == v@[k]@,
    {
        r.push(copy_string(&v[i]));
    }
    assert(strings_view(r@) =~= strings_view(v@));
    r
}

/// The content of an icon.
pub enum RxIconView {
    Builtin(usize),
    Image(Seq<u8>),
    NoIcon,
}

/// The icon of an entry or a group.
pub enum RxIcon {
    /// One of KeePass's built-in icons, by number.
    Builtin(usize),
    /// Image data of a custom icon.
    Image(Vec<u8>),
    NoIcon,
}

impl View for RxIcon {
    type V = RxIconView;

    open spec fn view(&self) -> RxIconView {
        match self {
            RxIcon::Builtin(id) => RxIconView::Builtin(*id),
            RxIcon::Image(b) => RxIconView::Image(b@),
            RxIcon::NoIcon => RxIconView::NoIcon,
        }
    }
}

impl RxIcon {
    /// No icon.
    pub fn default() -> (r: RxIcon)
        ensures
            r@ == RxIconView::NoIcon,
    {
        RxIcon::NoIcon
    }

    /// The icon is one of the built-in ones.
    pub fn is_builtin(&self) -> (b: bool)
        ensures
            b == (self@ is Builtin),
    {
        match self {
            RxIcon::Builtin(_) => true,
            _ => false,
        }
    }

    /// A copy of this icon.
    pub fn duplicate(&self) -> (r: RxIcon)
        ensures
            r@ == self@,
    {
        match self {
            RxIcon::Builtin(id) => RxIcon::Builtin(*id),
            RxIcon::Image(b) => RxIcon::Image(copy_bytes(b.as_slice())),
            RxIcon::NoIcon => RxIcon::NoIcon,
        }
    }
}

/// The content of an optional value.
pub open spec fn opt_view(v: Option<RxValue>) -> Option<RxValueView> {
    match v {
        Some(x) => Some(x@),
        None => None,
    }
}

/// The content of an optional borrowed value.
pub open spec fn opt_ref_view(v: Option<&RxValue>) -> Option<RxValueView> {
    match v {
        Some(x) => Some(x@),
        None => None,
    }
}

/// A password entry.
pub struct RxEntry {
    pub uuid: u128,
    /// An entry always has a parent group.
    pub parent_group: u128,
    pub template_uuid: Option<u128>,
    pub title: Option<RxValue>,
    pub username: Option<RxValue>,
    pub password: Option<RxValue>,
    pub notes: Option<RxValue>,
    pub tags: Vec<String>,
    pub custom_fields: RxCustomFields,
    pub url: Option<RxValue>,
    pub raw_otp_value: Option<RxValue>,
    pub icon: RxIcon,
    pub expired: bool,
    pub weak_password: bool,
    /// The files attached to the entry.
    pub attachments: Vec<KeePassAttachment>,
}

/// Copies attachments.
pub fn copy_attachments(a: &Vec<KeePassAttachment>) -> (r: Vec<KeePassAttachment>)
    ensures
        attachments_view(r@) == attachments_view(a@),
{
    let mut r: Vec<KeePassAttachment> = Vec::new();
    for i in 0..a.len()
        invariant
            attachments_view(r@) == attachments_view(a@.take(i as int)),
    {
        let ghost before = r@;
        r.push(KeePassAttachment { name: copy_string(&a[i].name), data: copy_bytes(a[i].data.as_slice()) });
        assert(a@.take(i + 1) =~= a@.take(i as int).push(a@[i as int]));
        assert(attachments_view(r@) =~= attachments_view(before).push((a@[i as int].name@, a@[i as int].data@)));
        assert(attachments_view(a@.take(i + 1)) =~= attachments_view(a@.take(i as int)).push(
            (a@[i as int].name@, a@[i as int].data@),
        ));
    }
    assert(a@.take(a@.len() as int) =~= a@);
    r
}

/// The icon an entry gets: its custom image if it has one, else its built-in icon, else none.
pub open spec fn entry_icon(entry: KeePassEntry) -> RxIconView {
    match entry.custom_icon {
        Some(data) => RxIconView::Image(data@),
        None => match entry.icon_id {
            Some(id) => RxIconView::Builtin(id),
            None => RxIconView::NoIcon,
        },
    }
}

impl RxEntry {
    /// The entry made from an entry of the file: the standard fields go to their slots,
    /// the template field gives the template, the custom data and the remaining fields that
    /// are not hidden become the custom fields, in that order.
    pub open spec fn made_from(&self, entry: KeePassEntry, parent_uuid: u128) -> bool {
        let f = entry.fields@;
        &&& self.uuid == entry.uuid
        &&& self.parent_group == parent_uuid
        &&& opt_view(self.title) == extracted(f, "Title"@)
        &&& opt_view(self.username) == extracted(f, "UserName"@)
        &&& opt_view(self.password) == extracted(f, "Password"@)
        &&& opt_view(self.notes) == extracted(f, "Notes"@)
        &&& opt_view(self.url) == extracted(f, "URL"@)
        &&& opt_view(self.raw_otp_value) == extracted(f, "otp"@)
        &&& self.template_uuid == template_of(f)
        &&& self.icon@ == entry_icon(entry)
        &&& self.custom_fields@ == custom_data_fields(entry.custom_data@) + remaining_fields(f)
        &&& strings_view(self.tags@) == strings_view(entry.tags@)
        &&& self.expired == entry.is_expired
        &&& self.weak_password == entry.password_is_weak
        &&& attachments_view(self.attachments@) == attachments_view(entry.attachments@)
    }

    /// Makes an entry from an entry of the file, placed in the given group.
    pub fn new(entry: &KeePassEntry, parent_uuid: u128) -> (r: RxEntry)
        ensures
            r.made_from(*entry, parent_uuid),
    {
        let title = extract_value(&entry.fields, "Title");
        let username = extract_value(&entry.fields, "UserName");
        let password = extract_value(&entry.fields, "Password");
        let notes = extract_value(&entry.fields, "Notes");
        let url = extract_value(&entry.fields, "URL");
        let raw_otp_value = extract_value(&entry.fields, "otp");
        let template_value = extract_value(&entry.fields, "_etm_template_uuid");
        let template_uuid = match &template_value {
            Some(v) => match v.value() {
                Some(t) => parse_uuid(t.as_str()),
                None => None,
            },
            None => None,
        };
        let icon = match &entry.custom_icon {
            Some(data) => RxIcon::Image(copy_bytes(data.as_slice())),
            None => match entry.icon_id {
                Some(id) => RxIcon::Builtin(id),
                None => RxIcon::NoIcon,
            },
        };
        let mut remaining = RxCustomFields::from_remaining_fields(&entry.fields);
        let mut custom_fields = RxCustomFields::from_custom_data(&entry.custom_data);
        custom_fields.append(&mut remaining);
        RxEntry {
            uuid: entry.uuid,
            parent_group: parent_uuid,
            template_uuid,
            title,
            username,
            password,
            notes,
            tags: copy_strings(&entry.tags),
            custom_fields,
            url,
            raw_otp_value,
            icon,
            expired: entry.is_expired,
            weak_password: entry.password_is_weak,
            attachments: copy_attachments(&entry.attachments),
        }
    }

    /// The bytes of the entry's attachment with the given name (see `attachment_named`).
    pub fn attachment(&self, name: &str) -> (r: Option<Vec<u8>>)
        ensures
            match r {
                Some(b) => attachment_named(attachments_view(self.attachments@), name@) == Some(b@),
                None => attachment_named(attachments_view(self.attachments@), name@) is None,
            },
    {
        let ghost av = attachments_view(self.attachments@);
        let n = self.attachments.len();
        let mut i: usize = 0;
        assert(av.skip(0) =~= av);
        while i < n
            invariant
                n == self.attachments@.len(),
                av == attachments_view(self.attachments@),
                i <= n,
                attachment_named(av, name@) == attachment_named(av.skip(i as int), name@),
            decreases n - i,
        {
            assert(av.skip(i as int)[0] == (self.attachments@[i as int].name@, self.attachments@[i as int].data@));
            assert(av.skip(i as int).drop_first() =~= av.skip(i + 1));
            if str_eq(self.attachments[i].name.as_str(), name) {
                return Some(copy_bytes(self.attachments[i].data.as_slice()));
            }
            i = i + 1;
        }
        None
    }

    /// The entry's attachments as names and bytes, each readable.
    pub fn attachment_list(&self) -> (r: Vec<(String, Option<Vec<u8>>)>)
        ensures
            r@.len() == self.attachments@.len(),
            forall|i: int|
                0 <= i < r@.len() ==> ((#[trigger] r@[i]).0@ == self.attachments@[i].name@ && (r@[i].1 matches Some(b)
                    && b@ == self.attachments@[i].data@)),
    {
        let mut r: Vec<(String, Option<Vec<u8>>)> = Vec::new();
        for i in 0..self.attachments.len()
            invariant
                r@.len() == i,
                i <= self.attachments@.len(),
                forall|k: int|
                    0 <= k < i ==> ((#[trigger] r@[k]).0@ == self.attachments@[k].name@ && (r@[k].1 matches Some(b)
                        && b@ == self.attachments@[k].data@)),
        {
            r.push((copy_string(&self.attachments[i].name), Some(copy_bytes(self.attachments[i].data.as_slice()))));
        }
        r
    }

    /// The user name value, if the entry has one.
    pub fn username(&self) -> (r: Option<&RxValue>)
        ensures
            opt_ref_view(r) == opt_view(self.username),
    {
        self.username.as_ref()
    }

    /// The password value, if the entry has one.
    pub fn password(&self) -> (r: Option<&RxValue>)
        ensures
            opt_ref_view(r) == opt_view(self.password),
    {
        self.password.as_ref()
    }

    /// The title value, if the entry has one.
    pub fn title(&self) -> (r: Option<&RxValue>)
        ensures
            opt_ref_view(r) == opt_view(self.title),
    {
        self.title.as_ref()
    }

    /// The URL value, if the entry has one.
    pub fn url(&self) -> (r: Option<&RxValue>)
        ensures
            opt_ref_view(r) == opt_view(self.url),
    {
        self.url.as_ref()
    }

    /// The notes value, if the entry has one.
    pub fn notes(&self) -> (r: Option<&RxValue>)
        ensures
            opt_ref_view(r) == opt_view(self.notes),
    {
        self.notes.as_ref()
    }

    /// The raw one-time password setting, if the entry has one.
    pub fn raw_otp_value(&self) -> (r: Option<&RxValue>)
        ensures
            opt_ref_view(r) == opt_view(self.raw_otp_value),
    {
        self.raw_otp_value.as_ref()
    }

    /// The entry's tags.
    pub fn tags(&self) -> (r: &Vec<String>)
        ensures
            r == self.tags,
    {
        &self.tags
    }

    /// The entry has at least one tag.
    pub fn has_tags(&self) -> (b: bool)
        ensures
            b == (self.tags@.len() > 0),
    {
        self.tags.len() > 0
    }

    /// The entry has a one-time password setting.
    pub fn has_otp(&self) -> (b: bool)
        ensures
            b == (self.raw_otp_value is Some),
    {
        self.raw_otp_value.is_some()
    }

    /// The entry has expired.
    pub fn is_expired(&self) -> (b: bool)
        ensures
            b == self.expired,
    {
        self.expired
    }

    /// The entry's password was judged weak.
    pub fn is_password_weak(&self) -> (b: bool)
        ensures
            b == self.weak_password,
    {
        self.weak_password
    }

    /// The text of an optional value of this entry.
    pub fn text_of(v: Option<&RxValue>) -> (r: Option<String>)
        ensures
            match r {
                Some(s) => v matches Some(x) && value_text(x@) == Some(s@),
                None => v matches Some(x) ==> value_text(x@) is None,
            },
    {
        match v {
            Some(x) => x.value(),
            None => None,
        }
    }
}

} // verus!
