//! What the user interface shows of an entry's attachments, and the names, paths and views
//! it makes when one is exported or viewed.
use vstd::prelude::*;
use vstd::utf8::{decode_utf8, encode_utf8, valid_utf8};
use crate::gui::icons::{decimal, decimal_string_wide};
use crate::gui::utils::{join_path, path_join};
use crate::mirror::paths::{components_of, path_components};
use crate::outside::{infer_kind, infer_type, parse_uuid, unix_micros, utf8_str, uuid_parse};
use crate::rx::rx_db::RxDatabase;
use crate::rx::source::{attachment_named, attachments_view};
use crate::rx::icons::{data_url, data_url_string};
use crate::text::{
    chars_eq, chars_of, char_vecs_view, push_char, push_str, slice_chars, string_of, to_owned_string, trim,
    trim_chars,
};

verus! {

/// Characters that cannot stand in a file name on common file systems.
pub open spec fn is_reserved_char(c: char) -> bool {
    c == '/' || c == '\\' || c == ':' || c == '*' || c == '?' || c == '"' || c == '<' || c == '>' || c == '|'
}

/// Control characters (general category Cc), as `char::is_control` tests them.
pub open spec fn is_control_char(c: char) -> bool {
    (c as u32) < 0x20 || (0x7f <= (c as u32) && (c as u32) <= 0x9f)
}

/// A character of an exported file name: `_` for a reserved or control character.
pub open spec fn clean_char(c: char) -> char {
    if is_reserved_char(c) || is_control_char(c) {
        '_'
    } else {
        c
    }
}

/// Number of leading copies of `c` in `s`.
pub open spec fn leading_char(s: Seq<char>, c: char) -> nat
    decreases s.len(),
{
    if s.len() > 0 && s[0] == c {
        1 + leading_char(s.drop_first(), c)
    } else {
        0
    }
}

/// Number of trailing copies of `c` in `s`.
pub open spec fn trailing_char(s: Seq<char>, c: char) -> nat
    decreases s.len(),
{
    if s.len() > 0 && s.last() == c {
        1 + trailing_char(s.drop_last(), c)
    } else {
        0
    }
}

/// `s` without leading and trailing copies of `c`, as `str::trim_matches` gives it.
pub open spec fn trim_char(s: Seq<char>, c: char) -> Seq<char> {
    let t = s.skip(leading_char(s, c) as int);
    t.take(t.len() - trailing_char(t, c))
}

/// At most the first `n` characters of `s`.
pub open spec fn take_at_most(s: Seq<char>, n: nat) -> Seq<char> {
    if s.len() > n {
        s.take(n as int)
    } else {
        s
    }
}

/// The longest file name an export gets, in characters.
pub const EXPORT_NAME_MAX: usize = 180;

/// The file name an attachment is exported under: reserved and control characters become
/// `_`, surrounding whitespace and then surrounding dots are dropped, at most 180 characters
/// are kept, and an empty result becomes `attachment`.
pub open spec fn sanitized_file_name(name: Seq<char>) -> Seq<char> {
    let kept = take_at_most(trim_char(trim(name.map_values(|c: char| clean_char(c))), '.'), EXPORT_NAME_MAX as nat);
    if kept.len() == 0 {
        "attachment"@
    } else {
        kept
    }
}

/// Counts never exceed the length.
proof fn lemma_char_counts_bounded(s: Seq<char>, c: char)
    ensures
        leading_char(s, c) <= s.len(),
        trailing_char(s, c) <= s.len(),
    decreases s.len(),
{
    if s.len() > 0 {
        lemma_char_counts_bounded(s.drop_first(), c);
        lemma_char_counts_bounded(s.drop_last(), c);
    }
}

/// `s` without leading and trailing copies of `c`.
fn trim_char_chars(s: &[char], c: char) -> (r: Vec<char>)
    ensures
        r@ == trim_char(s@, c),
{
    let mut i: usize = 0;
    assert(s@.skip(0) == s@);
    while i < s.len() && s[i] == c
        invariant
            i <= s@.len(),
            leading_char(s@, c) == i + leading_char(s@.skip(i as int), c),
        decreases s@.len() - i,
    {
        assert(s@.skip(i as int).drop_first() == s@.skip(i + 1));
        i = i + 1;
    }
    proof {
        lemma_char_counts_bounded(s@, c);
    }
    let t = slice_chars(s, i, s.len());
    assert(t@ == s@.skip(i as int));
    let mut k: usize = t.len();
    assert(t@.take(k as int) == t@);
    while k > 0 && t[k - 1] == c
        invariant
            k <= t@.len(),
            trailing_char(t@, c) == (t@.len() - k) + trailing_char(t@.take(k as int), c),
        decreases k,
    {
        assert(t@.take(k as int).drop_last() == t@.take(k - 1));
        k = k - 1;
    }
    proof {
        if k > 0 {
            assert(t@.take(k as int).last() == t@[k - 1]);
        }
    }
    slice_chars(t.as_slice(), 0, k)
}

/// `char::is_control`.
fn char_is_control(c: char) -> (b: bool)
    ensures
        b == is_control_char(c),
{
    let n = c as u32;
    n < 0x20 || (0x7f <= n && n <= 0x9f)
}

/// The file name an attachment is exported under (see `sanitized_file_name`).
pub fn sanitize_export_file_name(value: &str) -> (r: String)
    ensures
        r@ == sanitized_file_name(value@),
{
    let cs = chars_of(value);
    let mut cleaned: Vec<char> = Vec::new();
    for i in 0..cs.len()
        invariant
            cs@ == value@,
            cleaned@ == cs@.take(i as int).map_values(|c: char| clean_char(c)),
    {
        let c = cs[i];
        let reserved = c == '/' || c == '\\' || c == ':' || c == '*' || c == '?' || c == '"' || c == '<' || c
            == '>' || c == '|';
        if reserved || char_is_control(c) {
            cleaned.push('_');
        } else {
            cleaned.push(c);
        }
        assert(cs@.take(i + 1).map_values(|c: char| clean_char(c)) =~= cs@.take(i as int).map_values(
            |c: char| clean_char(c),
        ).push(clean_char(cs@[i as int])));
    }
    assert(cs@.take(cs@.len() as int) =~= cs@);
    let trimmed = trim_chars(cleaned.as_slice());
    let kept = trim_char_chars(trimmed.as_slice(), '.');
    let cut = if kept.len() > EXPORT_NAME_MAX {
        slice_chars(kept.as_slice(), 0, EXPORT_NAME_MAX)
    } else {
        kept
    };
    if cut.len() == 0 {
        to_owned_string("attachment")
    } else {
        string_of(cut.as_slice())
    }
}

/// Bytes written as themselves in a `file://` URL: ASCII letters and digits and `/-_.~`.
pub open spec fn is_url_safe_byte(b: u8) -> bool {
    (48 <= b && b <= 57) || (65 <= b && b <= 90) || (97 <= b && b <= 122) || b == 47 || b == 45 || b == 95 || b
        == 46 || b == 126
}

/// An upper-case hexadecimal digit.
pub open spec fn hex_upper(d: nat) -> char {
    if d < 10 {
        (d + 48) as char
    } else {
        (d + 55) as char
    }
}

/// How a byte is written in a `file://` URL: itself when safe, else `%` and two upper-case
/// hexadecimal digits.
pub open spec fn encoded_byte(b: u8) -> Seq<char> {
    if is_url_safe_byte(b) {
        seq![b as char]
    } else {
        seq!['%', hex_upper((b / 16) as nat), hex_upper((b % 16) as nat)]
    }
}

/// The bytes of a path, each written as `encoded_byte` gives it.
pub open spec fn percent_encoded(bytes: Seq<u8>) -> Seq<char>
    decreases bytes.len(),
{
    if bytes.len() == 0 {
        Seq::empty()
    } else {
        percent_encoded(bytes.drop_last()) + encoded_byte(bytes.last())
    }
}

/// The `file://` URL of a path given by its bytes.
pub open spec fn file_url(path: Seq<u8>) -> Seq<char> {
    "file://"@ + percent_encoded(path)
}

/// An upper-case hexadecimal digit.
fn hex_digit(d: u8) -> (c: char)
    requires
        d < 16,
    ensures
        c == hex_upper(d as nat),
{
    if d < 10 {
        (d + 48) as char
    } else {
        (d + 55) as char
    }
}

/// The `file://` URL of a path given by its bytes (see `file_url`).
pub fn percent_encode_file_path(path: &[u8]) -> (r: String)
    ensures
        r@ == file_url(path@),
{
    let mut r = to_owned_string("file://");
    let ghost start = r@;
    for i in 0..path.len()
        invariant
            start == "file://"@,
            r@ == start + percent_encoded(path@.take(i as int)),
    {
        let b = path[i];
        let safe = (48 <= b && b <= 57) || (65 <= b && b <= 90) || (97 <= b && b <= 122) || b == 47 || b == 45
            || b == 95 || b == 46 || b == 126;
        if safe {
            push_char(&mut r, b as char);
        } else {
            push_char(&mut r, '%');
            push_char(&mut r, hex_digit(b / 16));
            push_char(&mut r, hex_digit(b % 16));
        }
        assert(path@.take(i + 1).drop_last() =~= path@.take(i as int));
        assert(path@.take(i + 1).last() == b);
        assert(r@ =~= start + percent_encoded(path@.take(i + 1)));
    }
    assert(path@.take(path@.len() as int) =~= path@);
    r
}

/// The view type of an attachment's bytes: `text` for what `infer` calls text, `image` for
/// an image, `text` again for unrecognised bytes that are UTF-8, nothing otherwise.
pub open spec fn view_type_of(bytes: Seq<u8>) -> Seq<char> {
    match infer_type(bytes) {
        Some(t) => if t.1 {
            "text"@
        } else if t.2 {
            "image"@
        } else {
            ""@
        },
        None => if valid_utf8(bytes) {
            "text"@
        } else {
            ""@
        },
    }
}

/// The view type of an attachment's bytes (see `view_type_of`).
pub fn view_type_for_attachment(bytes: &[u8]) -> (r: String)
    ensures
        r@ == view_type_of(bytes@),
{
    proof {
        reveal_strlit("");
    }
    match infer_kind(bytes) {
        Some(kind) => if kind.1 {
            to_owned_string("text")
        } else if kind.2 {
            to_owned_string("image")
        } else {
            String::new()
        },
        None => if utf8_str(bytes).is_some() {
            to_owned_string("text")
        } else {
            String::new()
        },
    }
}

/// An attachment as the list of an entry's attachments shows it.
pub struct RxUiAttachment {
    pub attachment_name: String,
    pub attachment_size: i32,
    pub attachment_mime_type: String,
    pub attachment_view_type: String,
}

/// The size shown for an attachment: its length when it can be read and fits an `i32`, else 0.
pub open spec fn attachment_size_of(bytes: Option<Seq<u8>>) -> i32 {
    match bytes {
        Some(b) => if b.len() <= i32::MAX {
            b.len() as i32
        } else {
            0
        },
        None => 0,
    }
}

/// The MIME type shown for an attachment: what `infer` recognises, `text/plain` for other
/// UTF-8 text, `unknown` otherwise or when it cannot be read.
pub open spec fn attachment_mime_of(bytes: Option<Seq<u8>>) -> Seq<char> {
    match bytes {
        Some(b) => match infer_type(b) {
            Some(t) => t.0,
            None => if valid_utf8(b) {
                "text/plain"@
            } else {
                "unknown"@
            },
        },
        None => "unknown"@,
    }
}

/// The attachment shown for a name and its bytes, when they could be read.
pub open spec fn shows_attachment(a: RxUiAttachment, name: Seq<char>, bytes: Option<Seq<u8>>) -> bool {
    &&& a.attachment_name@ == name
    &&& a.attachment_size == attachment_size_of(bytes)
    &&& a.attachment_mime_type@ == attachment_mime_of(bytes)
    &&& a.attachment_view_type@ == match bytes {
        Some(b) => view_type_of(b),
        None => Seq::empty(),
    }
}

/// The attachment shown for a name and its bytes (see `shows_attachment`).
pub fn convert_attachment(name: &str, bytes: Option<&[u8]>) -> (r: RxUiAttachment)
    ensures
        shows_attachment(
            r,
            name@,
            match bytes {
                Some(b) => Some(b@),
                None => None,
            },
        ),
{
    match bytes {
        Some(b) => {
            let size: i32 = if b.len() <= 0x7fff_ffff {
                b.len() as i32
            } else {
                0
            };
            let mime = match infer_kind(b) {
                Some(kind) => kind.0,
                None => if utf8_str(b).is_some() {
                    to_owned_string("text/plain")
                } else {
                    to_owned_string("unknown")
                },
            };
            RxUiAttachment {
                attachment_name: to_owned_string(name),
                attachment_size: size,
                attachment_mime_type: mime,
                attachment_view_type: view_type_for_attachment(b),
            }
        },
        None => RxUiAttachment {
            attachment_name: to_owned_string(name),
            attachment_size: 0,
            attachment_mime_type: to_owned_string("unknown"),
            attachment_view_type: String::new(),
        },
    }
}

/// The bytes of an attachment as a sequence, when they could be read.
pub open spec fn bytes_view(b: Option<Vec<u8>>) -> Option<Seq<u8>> {
    match b {
        Some(v) => Some(v@),
        None => None,
    }
}

/// The attachments of an entry as the list shows them, in the order given: each by its name
/// and its bytes, when they could be read.
pub fn convert_attachments(items: &Vec<(String, Option<Vec<u8>>)>) -> (r: Vec<RxUiAttachment>)
    ensures
        r@.len() == items@.len(),
        forall|i: int|
            0 <= i < items@.len() ==> shows_attachment(
                #[trigger] r@[i],
                items@[i].0@,
                bytes_view(items@[i].1),
            ),
{
    let mut r: Vec<RxUiAttachment> = Vec::new();
    for i in 0..items.len()
        invariant
            r@.len() == i,
            forall|k: int| 0 <= k < i ==> shows_attachment(#[trigger] r@[k], items@[k].0@, bytes_view(items@[k].1)),
    {
        let a = match &items[i].1 {
            Some(b) => convert_attachment(items[i].0.as_str(), Some(b.as_slice())),
            None => convert_attachment(items[i].0.as_str(), None),
        };
        r.push(a);
    }
    r
}

/// What the user interface shows when an attachment is opened for viewing.
#[derive(Debug)]
pub struct AttachmentView {
    pub can_view: bool,
    pub view_type: String,
    pub file_name: String,
    pub mime_type: String,
    pub text: String,
    pub data_url: String,
}

/// Why an attachment could not be shown.
#[derive(Debug, Clone, Copy, PartialEq, Eq, Structural)]
pub enum AttachmentViewError {
    /// `infer` calls the attachment text, but it is no UTF-8.
    UndecodableText,
}

/// The fields of a view.
pub open spec fn view_is(
    v: AttachmentView,
    can_view: bool,
    view_type: Seq<char>,
    file_name: Seq<char>,
    mime_type: Seq<char>,
    text: Seq<char>,
    url: Seq<char>,
) -> bool {
    &&& v.can_view == can_view
    &&& v.view_type@ == view_type
    &&& v.file_name@ == file_name
    &&& v.mime_type@ == mime_type
    &&& v.text@ == text
    &&& v.data_url@ == url
}

/// Viewing fails only for bytes that `infer` calls text and that are no UTF-8.
pub open spec fn view_fails(bytes: Seq<u8>) -> bool {
    infer_type(bytes) matches Some(t) && t.1 && !valid_utf8(bytes)
}

/// The view of an attachment: text (decoded) for what `infer` calls text, an image as a
/// `data:` URL, any other recognised type as not viewable; unrecognised bytes are shown as
/// plain text when they are UTF-8 and are not viewable otherwise. The file name is always
/// the sanitized one.
pub open spec fn attachment_view_of(v: AttachmentView, name: Seq<char>, bytes: Seq<u8>) -> bool {
    let f = sanitized_file_name(name);
    match infer_type(bytes) {
        Some(t) => if t.1 {
            view_is(v, true, "text"@, f, t.0, decode_utf8(bytes), ""@)
        } else if t.2 {
            view_is(v, true, "image"@, f, t.0, ""@, data_url(t.0, bytes))
        } else {
            view_is(v, false, ""@, f, t.0, ""@, ""@)
        },
        None => if valid_utf8(bytes) {
            view_is(v, true, "text"@, f, "text/plain"@, decode_utf8(bytes), ""@)
        } else {
            view_is(v, false, ""@, f, ""@, ""@, ""@)
        },
    }
}

/// The view of an attachment given its name and bytes (see `attachment_view_of`); refused
/// exactly when `view_fails`.
pub fn view_attachment(name: &str, bytes: &[u8]) -> (r: Result<AttachmentView, AttachmentViewError>)
    ensures
        match r {
            Ok(v) => !view_fails(bytes@) && attachment_view_of(v, name@, bytes@),
            Err(e) => view_fails(bytes@) && e == AttachmentViewError::UndecodableText,
        },
{
    proof {
        reveal_strlit("");
        assert(""@ =~= Seq::<char>::empty());
    }
    let file_name = sanitize_export_file_name(name);
    let ghost f = sanitized_file_name(name@);
    match infer_kind(bytes) {
        Some(kind) => {
            if kind.1 {
                match utf8_str(bytes) {
                    Some(text) => {
                        let v = AttachmentView {
                            can_view: true,
                            view_type: to_owned_string("text"),
                            file_name,
                            mime_type: kind.0,
                            text: to_owned_string(text),
                            data_url: String::new(),
                        };
                        assert(view_is(v, true, "text"@, f, kind.0@, decode_utf8(bytes@), ""@));
                        Ok(v)
                    },
                    None => Err(AttachmentViewError::UndecodableText),
                }
            } else if kind.2 {
                let url = data_url_string(kind.0.as_str(), bytes);
                let v = AttachmentView {
                    can_view: true,
                    view_type: to_owned_string("image"),
                    file_name,
                    mime_type: kind.0,
                    text: String::new(),
                    data_url: url,
                };
                assert(view_is(v, true, "image"@, f, kind.0@, ""@, data_url(kind.0@, bytes@)));
                Ok(v)
            } else {
                let v = AttachmentView {
                    can_view: false,
                    view_type: String::new(),
                    file_name,
                    mime_type: kind.0,
                    text: String::new(),
                    data_url: String::new(),
                };
                assert(view_is(v, false, ""@, f, kind.0@, ""@, ""@));
                Ok(v)
            }
        },
        None => match utf8_str(bytes) {
            Some(text) => {
                let v = AttachmentView {
                    can_view: true,
                    view_type: to_owned_string("text"),
                    file_name,
                    mime_type: to_owned_string("text/plain"),
                    text: to_owned_string(text),
                    data_url: String::new(),
                };
                assert(view_is(v, true, "text"@, f, "text/plain"@, decode_utf8(bytes@), ""@));
                Ok(v)
            },
            None => {
                let v = AttachmentView {
                    can_view: false,
                    view_type: String::new(),
                    file_name,
                    mime_type: String::new(),
                    text: String::new(),
                    data_url: String::new(),
                };
                assert(view_is(v, false, ""@, f, ""@, ""@, ""@));
                Ok(v)
            },
        },
    }
}

/// The path an export is written to: the number of microseconds since the Unix epoch, `_`
/// and the file name, in the export directory.
pub open spec fn export_path(export_dir: Seq<char>, micros: u128, file_name: Seq<char>) -> Seq<char> {
    path_join(export_dir, decimal(micros as nat) + seq!['_'] + file_name)
}

/// The path an export is written to at the given moment (see `export_path`).
pub fn unique_export_path_at(export_dir: &str, now_micros: u128, file_name: &str) -> (r: String)
    ensures
        r@ == export_path(export_dir@, now_micros, file_name@),
{
    let mut name = decimal_string_wide(now_micros);
    push_char(&mut name, '_');
    push_str(&mut name, file_name);
    join_path(export_dir, name.as_str())
}

/// The path an export is written to now; the clock before 1970 counts as the epoch itself.
pub fn unique_export_path(export_dir: &str, file_name: &str) -> (r: String)
    ensures
        exists|t: u128| r@ == #[trigger] export_path(export_dir@, t, file_name@),
{
    let now = match unix_micros() {
        Some(t) => t,
        None => 0,
    };
    let r = unique_export_path_at(export_dir, now, file_name);
    assert(r@ == export_path(export_dir@, now, file_name@));
    r
}

/// Where and under what name an attachment is exported, and the URL that opens it.
pub struct ExportPlan {
    pub path: String,
    pub url: String,
    pub file_name: String,
}

/// Plans the export of an attachment into the export directory: the sanitized file name, a
/// path under it stamped with the current time, and the path's `file://` URL.
pub fn export_plan(export_dir: &str, attachment_name: &str) -> (r: ExportPlan)
    ensures
        r.file_name@ == sanitized_file_name(attachment_name@),
        exists|t: u128| r.path@ == #[trigger] export_path(export_dir@, t, r.file_name@),
        r.url@ == file_url(encode_utf8(r.path@)),
{
    let file_name = sanitize_export_file_name(attachment_name);
    let path = unique_export_path(export_dir, file_name.as_str());
    let url = percent_encode_file_path(path.as_str().as_bytes());
    ExportPlan { path, url, file_name }
}

/// `a` is a prefix of `b`, element by element.
pub open spec fn is_prefix_of(a: Seq<Seq<char>>, b: Seq<Seq<char>>) -> bool {
    a.len() <= b.len() && b.take(a.len() as int) == a
}

/// The path lies in the directory, component by component, as `Path::starts_with` tests it.
pub fn is_inside_dir(path: &str, dir: &str) -> (r: bool)
    ensures
        r == is_prefix_of(path_components(dir@), path_components(path@)),
{
    let p = components_of(path);
    let d = components_of(dir);
    if d.len() > p.len() {
        return false;
    }
    let ghost pv = char_vecs_view(p@);
    let ghost dv = char_vecs_view(d@);
    let mut i: usize = 0;
    while i < d.len()
        invariant
            d@.len() <= p@.len(),
            pv == char_vecs_view(p@),
            dv == char_vecs_view(d@),
            pv == path_components(path@),
            dv == path_components(dir@),
            i <= d@.len(),
            forall|k: int| 0 <= k < i ==> pv[k] == dv[k],
        decreases d@.len() - i,
    {
        assert(pv[i as int] == p@[i as int]@ && dv[i as int] == d@[i as int]@);
        if !chars_eq(p[i].as_slice(), d[i].as_slice()) {
            assert(pv.take(dv.len() as int)[i as int] != dv[i as int]);
            return false;
        }
        i = i + 1;
    }
    assert(pv.take(dv.len() as int) =~= dv);
    true
}

/// Why an attachment of an entry could not be shown.
#[derive(Debug, Clone, Copy, PartialEq, Eq, Structural)]
pub enum EntryAttachmentError {
    /// The entry's UUID is no UUID.
    BadUuid,
    /// The open database has no entry with the UUID.
    EntryNotFound,
    /// The entry has no attachment with the name.
    AttachmentNotFound,
    /// `infer` calls the attachment text, but it is no UTF-8.
    UndecodableText,
}

/// The view of the attachment with the given name of the entry whose UUID is given as text:
/// an error when the UUID is no UUID, the database has no such entry, or the entry no such
/// attachment; otherwise the view of its bytes (see `view_attachment`).
pub fn view_entry_attachment(db: &RxDatabase, entry_uuid: &str, name: &str) -> (r: Result<AttachmentView, EntryAttachmentError>)
    requires
        db.wf(),
    ensures
        match uuid_parse(entry_uuid@) {
            None => r matches Err(EntryAttachmentError::BadUuid),
            Some(u) => match db.entry_with(u) {
                None => r matches Err(EntryAttachmentError::EntryNotFound),
                Some(e) => match attachment_named(attachments_view(e.attachments@), name@) {
                    None => r matches Err(EntryAttachmentError::AttachmentNotFound),
                    Some(b) => match r {
                        Ok(v) => !view_fails(b) && attachment_view_of(v, name@, b),
                        Err(err) => view_fails(b) && err == EntryAttachmentError::UndecodableText,
                    },
                },
            },
        },
{
    let u = match parse_uuid(entry_uuid) {
        Some(u) => u,
        None => {
            return Err(EntryAttachmentError::BadUuid);
        },
    };
    let entry = match db.get_entry(u) {
        Some(e) => e,
        None => {
            return Err(EntryAttachmentError::EntryNotFound);
        },
    };
    let bytes = match entry.attachment(name) {
        Some(b) => b,
        None => {
            return Err(EntryAttachmentError::AttachmentNotFound);
        },
    };
    match view_attachment(name, bytes.as_slice()) {
        Ok(v) => Ok(v),
        Err(_) => Err(EntryAttachmentError::UndecodableText),
    }
}

/// The attachments of the entry whose UUID is given as text, as the list shows them: `None`
/// when the UUID is no UUID, none when the database has no such entry, otherwise one row per
/// attachment (see `shows_attachment`).
pub fn entry_attachments(db: &RxDatabase, entry_uuid: &str) -> (r: Option<Vec<RxUiAttachment>>)
    requires
        db.wf(),
    ensures
        match uuid_parse(entry_uuid@) {
            None => r is None,
            Some(u) => match db.entry_with(u) {
                None => r matches Some(v) && v@.len() == 0,
                Some(e) => r matches Some(v) && v@.len() == e.attachments@.len() && forall|i: int|
                    0 <= i < v@.len() ==> shows_attachment(
                        #[trigger] v@[i],
                        e.attachments@[i].name@,
                        Some(e.attachments@[i].data@),
                    ),
            },
        },
{
    let u = match parse_uuid(entry_uuid) {
        Some(u) => u,
        None => {
            return None;
        },
    };
    match db.get_entry(u) {
        Some(e) => {
            let items = e.attachment_list();
            let rows = convert_attachments(&items);
            assert forall|i: int| 0 <= i < rows@.len() implies shows_attachment(
                #[trigger] rows@[i],
                e.attachments@[i].name@,
                Some(e.attachments@[i].data@),
            ) by {
                assert(bytes_view(items@[i].1) == Some(e.attachments@[i].data@));
            }
            Some(rows)
        },
        None => Some(Vec::new()),
    }
}

} // verus!
