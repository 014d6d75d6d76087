//! Icons of entries and groups, and the files they are drawn from.
use vstd::prelude::*;
use crate::outside::{base64_standard, encode_base64, infer_kind, infer_mime};
use crate::rx::rx_entry::{RxIcon, RxIconView};
use crate::text::{push_str, to_owned_string};

verus! {

/// The position in the table of KeePassXC icon files of the built-in icon with the given
/// number. Number 58 has two files, which moves every later icon one place on.
pub open spec fn kpxc_icon_index(icon_id: nat) -> nat {
    if icon_id > 58 {
        icon_id + 1
    } else {
        icon_id
    }
}

/// The file of a built-in icon, looked up in the table of KeePassXC icon files.
pub fn to_builtin_icon(icon_id: usize, files: &[&str]) -> (r: Option<String>)
    requires
        icon_id < usize::MAX,
    ensures
        match r {
            Some(f) => kpxc_icon_index(icon_id as nat) < files@.len() && f@ == files@[kpxc_icon_index(
                icon_id as nat,
            ) as int]@,
            None => kpxc_icon_index(icon_id as nat) >= files@.len(),
        },
{
    let index = if icon_id > 58 {
        icon_id + 1
    } else {
        icon_id
    };
    if index < files.len() {
        Some(to_owned_string(files[index]))
    } else {
        None
    }
}

/// A `data:` URL: the MIME type and the Base64 form of the data.
pub open spec fn data_url(mime: Seq<char>, data: Seq<u8>) -> Seq<char> {
    "data:"@ + mime + ";base64,"@ + base64_standard(data)
}

/// Writes a `data:` URL (see `data_url`).
pub fn data_url_string(mime: &str, data: &[u8]) -> (r: String)
    ensures
        r@ == data_url(mime@, data@),
{
    let mut url = to_owned_string("data:");
    push_str(&mut url, mime);
    push_str(&mut url, ";base64,");
    let encoded = encode_base64(data);
    push_str(&mut url, encoded.as_str());
    url
}

/// Where an icon is drawn from: a built-in icon's file, or a `data:` URL for image data of a
/// recognised type.
pub open spec fn icon_path_of(icon: RxIconView, files: Seq<&str>) -> Option<Seq<char>> {
    match icon {
        RxIconView::NoIcon => None,
        RxIconView::Builtin(id) => {
            let i = kpxc_icon_index(id as nat);
            if i < files.len() {
                Some(files[i as int]@)
            } else {
                None
            }
        },
        RxIconView::Image(data) => match infer_mime(data) {
            Some(m) => Some(data_url(m, data)),
            None => None,
        },
    }
}

impl RxIcon {
    /// Where this icon is drawn from, given the table of KeePassXC icon files.
    pub fn icon_path(&self, files: &[&str]) -> (r: Option<String>)
        requires
            self@ matches RxIconView::Builtin(id) ==> id < usize::MAX,
        ensures
            match r {
                Some(p) => icon_path_of(self@, files@) == Some(p@),
                None => icon_path_of(self@, files@) is None,
            },
    {
        match self {
            RxIcon::NoIcon => None,
            RxIcon::Builtin(id) => to_builtin_icon(*id, files),
            RxIcon::Image(img_data) => match infer_kind(img_data.as_slice()) {
                Some(kind) => Some(data_url_string(kind.0.as_str(), img_data.as_slice())),
                None => None,
            },
        }
    }
}

} // verus!
