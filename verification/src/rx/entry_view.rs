//! What the user interface is given of an entry when it is opened: its standard fields that
//! have a value, its icon image, its custom fields, and whether it has a one-time password.
use vstd::prelude::*;
use crate::outside::{infer_kind, infer_mime, totp_parses};
use crate::rx::icons::{data_url, data_url_string};
use crate::rx::otp::{otp_text, totp_result};
use crate::rx::rx_db::value_text_opt;
use crate::rx::rx_entry::{value_text, RxEntry, RxIcon, RxIconView, RxValue, RxValueView};
use crate::text::to_owned_string;
use crate::uuid_text::{uuid_hyphenated, uuid_to_string};

verus! {

/// A custom field as the user interface gets it: its name, its text (empty when it has
/// none), and whether it is hidden by default.
pub struct RxFieldDetails {
    pub name: String,
    pub value: String,
    pub is_hidden_by_default: bool,
}

/// An opened entry as the user interface gets it.
pub struct RxEntryDetails {
    /// The standard fields that have a text, by name: `uuid`, `url`, `username`, `title`,
    /// `password`, `notes`, in that order.
    pub fields: Vec<(String, String)>,
    /// The entry's own icon image as a `data:` URL, empty when it has none.
    pub icon_path: String,
    pub custom_fields: Vec<RxFieldDetails>,
    pub has_totp: bool,
}

/// A standard field, when its value has a text.
pub open spec fn field_entry(name: Seq<char>, v: Option<RxValue>) -> Seq<(Seq<char>, Seq<char>)> {
    match value_text_opt(v) {
        Some(t) => seq![(name, t)],
        None => Seq::empty(),
    }
}

/// The standard fields of an entry that have a text, in the order the user interface lists
/// them, led by the UUID.
pub open spec fn entry_fields(e: RxEntry) -> Seq<(Seq<char>, Seq<char>)> {
    seq![("uuid"@, uuid_hyphenated(e.uuid))] + field_entry("url"@, e.url) + field_entry("username"@, e.username)
        + field_entry("title"@, e.title) + field_entry("password"@, e.password) + field_entry("notes"@, e.notes)
}

/// The `data:` URL of an entry's own icon image, when `infer` recognises its type.
pub open spec fn icon_data_url_of(icon: RxIconView) -> Option<Seq<char>> {
    match icon {
        RxIconView::Image(data) => match infer_mime(data) {
            Some(m) => Some(data_url(m, data)),
            None => None,
        },
        _ => None,
    }
}

/// A custom field as the user interface gets it.
pub open spec fn field_details_of(f: (Seq<char>, RxValueView)) -> (Seq<char>, Seq<char>, bool) {
    (
        f.0,
        match value_text(f.1) {
            Some(t) => t,
            None => Seq::empty(),
        },
        f.1 is Protected,
    )
}

/// The view of a custom field's details.
pub open spec fn field_details_view(d: RxFieldDetails) -> (Seq<char>, Seq<char>, bool) {
    (d.name@, d.value@, d.is_hidden_by_default)
}

/// The view of a list of named texts.
pub open spec fn pairs_text_view(v: Seq<(String, String)>) -> Seq<(Seq<char>, Seq<char>)> {
    v.map_values(|p: (String, String)| (p.0@, p.1@))
}

impl RxEntry {
    /// The `data:` URL of the entry's own icon image (see `icon_data_url_of`).
    pub fn icon_data_url(&self) -> (r: Option<String>)
        ensures
            match r {
                Some(u) => icon_data_url_of(self.icon@) == Some(u@),
                None => icon_data_url_of(self.icon@) is None,
            },
    {
        match &self.icon {
            RxIcon::Image(data) => match infer_kind(data.as_slice()) {
                Some(kind) => Some(data_url_string(kind.0.as_str(), data.as_slice())),
                None => None,
            },
            _ => None,
        }
    }

    /// The entry as the user interface gets it, given whether it has a one-time password.
    pub fn details_with_totp(&self, has_totp: bool) -> (r: RxEntryDetails)
        ensures
            pairs_text_view(r.fields@) == entry_fields(*self),
            r.icon_path@ == match icon_data_url_of(self.icon@) {
                Some(u) => u,
                None => Seq::empty(),
            },
            r.custom_fields@.map_values(|d: RxFieldDetails| field_details_view(d)) == self.custom_fields@.map_values(
                |f: (Seq<char>, RxValueView)| field_details_of(f),
            ),
            r.has_totp == has_totp,
    {
        let mut fields: Vec<(String, String)> = Vec::new();
        fields.push((to_owned_string("uuid"), uuid_to_string(self.uuid)));
        assert(pairs_text_view(fields@) =~= seq![("uuid"@, uuid_hyphenated(self.uuid))]);
        push_field(&mut fields, "url", self.url.as_ref());
        push_field(&mut fields, "username", self.username.as_ref());
        push_field(&mut fields, "title", self.title.as_ref());
        push_field(&mut fields, "password", self.password.as_ref());
        push_field(&mut fields, "notes", self.notes.as_ref());
        let icon_path = match self.icon_data_url() {
            Some(u) => u,
            None => String::new(),
        };
        let ghost cv = self.custom_fields@;
        let mut custom: Vec<RxFieldDetails> = Vec::new();
        let n = self.custom_fields.data.len();
        for i in 0..n
            invariant
                n == self.custom_fields.data@.len(),
                cv == self.custom_fields@,
                cv.len() == n,
                custom@.map_values(|d: RxFieldDetails| field_details_view(d)) == cv.take(i as int).map_values(
                    |f: (Seq<char>, RxValueView)| field_details_of(f),
                ),
        {
            let (name, value) = &self.custom_fields.data[i];
            assert(cv[i as int] == (name@, value@));
            let text = match value.value() {
                Some(t) => t,
                None => String::new(),
            };
            let ghost before = custom@.map_values(|d: RxFieldDetails| field_details_view(d));
            custom.push(RxFieldDetails {
                name: to_owned_string(name.as_str()),
                value: text,
                is_hidden_by_default: value.is_hidden_by_default(),
            });
            assert(custom@.map_values(|d: RxFieldDetails| field_details_view(d)) =~= before.push(
                field_details_of(cv[i as int]),
            ));
            assert(cv.take(i + 1).map_values(|f: (Seq<char>, RxValueView)| field_details_of(f)) =~= cv.take(
                i as int,
            ).map_values(|f: (Seq<char>, RxValueView)| field_details_of(f)).push(field_details_of(cv[i as int])));
        }
        assert(cv.take(n as int) =~= cv);
        RxEntryDetails { fields, icon_path, custom_fields: custom, has_totp }
    }

    /// The entry as the user interface gets it now: it has a one-time password when one can
    /// be computed at this moment.
    pub fn details(&self) -> (r: RxEntryDetails)
        ensures
            pairs_text_view(r.fields@) == entry_fields(*self),
            r.has_totp ==> exists|t: u64| #[trigger] totp_result(*self, t) is Ok,
            !totp_parses(otp_text(*self)) ==> !r.has_totp,
    {
        let totp = self.totp();
        self.details_with_totp(totp.is_ok())
    }
}

/// Adds a standard field when its value has a text.
fn push_field(fields: &mut Vec<(String, String)>, name: &str, v: Option<&RxValue>)
    ensures
        pairs_text_view(final(fields)@) == pairs_text_view(old(fields)@) + field_entry(
            name@,
            match v {
                Some(x) => Some(*x),
                None => None,
            },
        ),
{
    let ghost before = pairs_text_view(fields@);
    match RxEntry::text_of(v) {
        Some(t) => {
            fields.push((to_owned_string(name), t));
            assert(pairs_text_view(fields@) =~= before.push((name@, t@)));
        },
        None => {
            assert(before + Seq::<(Seq<char>, Seq<char>)>::empty() =~= before);
        },
    }
}

} // verus!

verus! {

/// The standard field names differ from one another.
proof fn lemma_standard_names_differ()
    ensures
        "uuid"@ != "url"@, "uuid"@ != "username"@, "uuid"@ != "title"@, "uuid"@ != "password"@, "uuid"@ != "notes"@,
        "url"@ != "username"@, "url"@ != "title"@, "url"@ != "password"@, "url"@ != "notes"@,
        "username"@ != "title"@, "username"@ != "password"@, "username"@ != "notes"@,
        "title"@ != "password"@, "title"@ != "notes"@, "password"@ != "notes"@,
{
    reveal_strlit("uuid");
    reveal_strlit("url");
    reveal_strlit("username");
    reveal_strlit("title");
    reveal_strlit("password");
    reveal_strlit("notes");
    assert("uuid"@.len() == 4 && "url"@.len() == 3 && "username"@.len() == 8);
    assert("title"@.len() == 5 && "password"@.len() == 8 && "notes"@.len() == 5);
    assert("username"@[0] != "password"@[0]);
    assert("title"@[0] != "notes"@[0]);
}

/// A field of one name among a field for a value: present exactly when the value has a text,
/// with that text.
proof fn lemma_field_entry_has(name: Seq<char>, v: Option<RxValue>, other: Seq<char>, text: Seq<char>)
    ensures
        field_entry(name, v).contains((other, text)) <==> other == name && value_text_opt(v) == Some(text),
        field_entry(name, v).len() <= 1,
{
    if other == name && value_text_opt(v) == Some(text) {
        assert(field_entry(name, v)[0] == (other, text));
    }
}

/// Membership in a concatenation.
proof fn lemma_concat_has<A>(a: Seq<A>, b: Seq<A>, x: A)
    ensures
        (a + b).contains(x) <==> a.contains(x) || b.contains(x),
{
    if a.contains(x) {
        let i = choose|i: int| 0 <= i < a.len() && a[i] == x;
        assert((a + b)[i] == x);
    }
    if b.contains(x) {
        let i = choose|i: int| 0 <= i < b.len() && b[i] == x;
        assert((a + b)[a.len() + i] == x);
    }
    if (a + b).contains(x) {
        let i = choose|i: int| 0 <= i < (a + b).len() && (a + b)[i] == x;
        if i < a.len() {
            assert(a[i] == x);
        } else {
            assert(b[i - a.len()] == x);
        }
    }
}

/// The details of an opened entry show each standard field under its own name with that
/// field's text: `uuid` with the hyphenated UUID, and `url`, `username`, `title`, `password`
/// and `notes` exactly when the entry's value of that name has a text, with that text.
pub proof fn lemma_details_show_each_field_under_its_name(e: RxEntry, text: Seq<char>)
    ensures
        entry_fields(e)[0] == ("uuid"@, uuid_hyphenated(e.uuid)),
        entry_fields(e).contains(("uuid"@, text)) <==> text == uuid_hyphenated(e.uuid),
        entry_fields(e).contains(("url"@, text)) <==> value_text_opt(e.url) == Some(text),
        entry_fields(e).contains(("username"@, text)) <==> value_text_opt(e.username) == Some(text),
        entry_fields(e).contains(("title"@, text)) <==> value_text_opt(e.title) == Some(text),
        entry_fields(e).contains(("password"@, text)) <==> value_text_opt(e.password) == Some(text),
        entry_fields(e).contains(("notes"@, text)) <==> value_text_opt(e.notes) == Some(text),
{
    lemma_standard_names_differ();
    let head = seq![("uuid"@, uuid_hyphenated(e.uuid))];
    let (url, user, title, password, notes) = (e.url, e.username, e.title, e.password, e.notes);
    let a = field_entry("url"@, url);
    let b = field_entry("username"@, user);
    let c = field_entry("title"@, title);
    let d = field_entry("password"@, password);
    let f = field_entry("notes"@, notes);
    assert(entry_fields(e) == head + a + b + c + d + f);
    let names = seq!["uuid"@, "url"@, "username"@, "title"@, "password"@, "notes"@];
    assert forall|k: int| 0 <= k < names.len() implies #[trigger] entry_fields(e).contains((names[k], text)) <==> (
        head.contains((names[k], text)) || a.contains((names[k], text)) || b.contains((names[k], text)) || c.contains(
            (names[k], text),
        ) || d.contains((names[k], text)) || f.contains((names[k], text))) by {
        let x = (names[k], text);
        lemma_concat_has(head + a + b + c + d, f, x);
        lemma_concat_has(head + a + b + c, d, x);
        lemma_concat_has(head + a + b, c, x);
        lemma_concat_has(head + a, b, x);
        lemma_concat_has(head, a, x);
    }
    assert forall|k: int| 0 <= k < names.len() implies #[trigger] head.contains((names[k], text)) <==> (names[k]
        == "uuid"@ && text == uuid_hyphenated(e.uuid)) by {
        if names[k] == "uuid"@ && text == uuid_hyphenated(e.uuid) {
            assert(head[0] == (names[k], text));
        }
    }
    assert forall|k: int| 0 <= k < names.len() implies {
        &&& #[trigger] a.contains((names[k], text)) == (names[k] == "url"@ && value_text_opt(e.url) == Some(text))
        &&& b.contains((names[k], text)) == (names[k] == "username"@ && value_text_opt(e.username) == Some(text))
        &&& c.contains((names[k], text)) == (names[k] == "title"@ && value_text_opt(e.title) == Some(text))
        &&& d.contains((names[k], text)) == (names[k] == "password"@ && value_text_opt(e.password) == Some(text))
        &&& f.contains((names[k], text)) == (names[k] == "notes"@ && value_text_opt(e.notes) == Some(text))
    } by {
        lemma_field_entry_has("url"@, e.url, names[k], text);
        lemma_field_entry_has("username"@, e.username, names[k], text);
        lemma_field_entry_has("title"@, e.title, names[k], text);
        lemma_field_entry_has("password"@, e.password, names[k], text);
        lemma_field_entry_has("notes"@, e.notes, names[k], text);
    }
    assert(names[0] == "uuid"@ && names[1] == "url"@ && names[2] == "username"@);
    assert(names[3] == "title"@ && names[4] == "password"@ && names[5] == "notes"@);
}

} // verus!

verus! {

/// An opened entry shows each custom field under its own name, with the field's text (empty
/// when it has none), hidden by default exactly when the value is protected.
pub proof fn lemma_custom_field_details_show_the_field(e: RxEntry, i: int)
    requires
        0 <= i < e.custom_fields@.len(),
    ensures
        ({
            let shown = e.custom_fields@.map_values(|f: (Seq<char>, RxValueView)| field_details_of(f))[i];
            let (name, value) = e.custom_fields@[i];
            &&& shown.0 == name
            &&& value_text(value) matches Some(t) ==> shown.1 == t
            &&& value_text(value) is None ==> shown.1.len() == 0
            &&& shown.2 == value is Protected
        }),
{
}

} // verus!
