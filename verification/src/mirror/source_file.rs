//! The items of a source file as the search for a struct reads them, and the declarations
//! of the fields of the struct that a file holds.
use vstd::prelude::*;
use crate::mirror::source_hits::SourceItem;
use crate::outside::{file_items_of, parse_file_items};
use crate::rx::rx_entry::copy_strings;
use crate::text::{str_eq, strings_view};

verus! {

/// An item of a parsed source file as text: a struct's name, whether its fields are named
/// (and their names), and each field's declaration; a module's inline items; or anything
/// else.
pub enum SourceItemView {
    Struct { name: Seq<char>, named_fields: Option<Seq<Seq<char>>>, field_decls: Seq<Seq<char>> },
    Module { items: Option<Seq<SourceItemView>> },
    Other,
}

/// The items as text.
pub open spec fn items_view(items: Seq<SourceItem>) -> Seq<SourceItemView>
    decreases items, 1int,
{
    Seq::new(items.len(), |i: int| item_view_at(items, i))
}

/// The item at position `i` as text.
pub open spec fn item_view_at(items: Seq<SourceItem>, i: int) -> SourceItemView
    decreases items, 0int,
{
    if 0 <= i < items.len() {
        match items[i] {
            SourceItem::Struct { name, named_fields, field_decls } => SourceItemView::Struct {
                name: name@,
                named_fields: match named_fields {
                    Some(f) => Some(strings_view(f@)),
                    None => None,
                },
                field_decls: strings_view(field_decls@),
            },
            SourceItem::Module { items: Some(inner) } => SourceItemView::Module { items: Some(items_view(inner@)) },
            SourceItem::Module { items: None } => SourceItemView::Module { items: None },
            SourceItem::Other => SourceItemView::Other,
        }
    } else {
        SourceItemView::Other
    }
}

/// The field declarations of the struct named `target` among the items (searching inline
/// modules too): the first struct with the name decides, giving its declarations when its
/// fields are named and nothing otherwise; a module's search that finds nothing lets the
/// search go on after it.
pub open spec fn struct_decls_in(items: Seq<SourceItemView>, target: Seq<char>) -> Option<Seq<Seq<char>>>
    decreases items, 1int,
{
    struct_decls_from(items, target, 0)
}

/// The search of `struct_decls_in` from position `i` on.
pub open spec fn struct_decls_from(items: Seq<SourceItemView>, target: Seq<char>, i: int) -> Option<Seq<Seq<char>>>
    decreases items, 0int, items.len() - i,
{
    if i < 0 || i >= items.len() {
        None
    } else {
        match items[i] {
            SourceItemView::Struct { name, named_fields, field_decls } => if name == target {
                match named_fields {
                    Some(_) => Some(field_decls),
                    None => None,
                }
            } else {
                struct_decls_from(items, target, i + 1)
            },
            SourceItemView::Module { items: Some(inner) } => match struct_decls_in(inner, target) {
                Some(f) => Some(f),
                None => struct_decls_from(items, target, i + 1),
            },
            _ => struct_decls_from(items, target, i + 1),
        }
    }
}

/// The field declarations of the struct named `target` among parsed items (see
/// `struct_decls_in`).
pub fn find_struct_decls(items: &Vec<SourceItem>, target: &str) -> (r: Option<Vec<String>>)
    ensures
        match r {
            Some(d) => struct_decls_in(items_view(items@), target@) == Some(strings_view(d@)),
            None => struct_decls_in(items_view(items@), target@) is None,
        },
    decreases items@,
{
    let ghost vs = items_view(items@);
    let n = items.len();
    let mut i: usize = 0;
    while i < n
        invariant
            n == items@.len(),
            i <= n,
            vs == items_view(items@),
            vs.len() == n,
            struct_decls_in(vs, target@) == struct_decls_from(vs, target@, i as int),
        decreases n - i,
    {
        assert(vs[i as int] == item_view_at(items@, i as int));
        match &items[i] {
            SourceItem::Struct { name, named_fields, field_decls } => {
                if str_eq(name.as_str(), target) {
                    return match named_fields {
                        Some(_) => Some(copy_strings(field_decls)),
                        None => None,
                    };
                }
            },
            SourceItem::Module { items: Some(inner) } => {
                assert(decreases_to!(items@ => items@[i as int]));
                match find_struct_decls(inner, target) {
                    Some(f) => return Some(f),
                    None => {},
                }
            },
            _ => {},
        }
        i = i + 1;
    }
    None
}

/// Why a source file offers no field declarations.
#[derive(Debug, Clone, Copy, PartialEq, Eq, Structural)]
pub enum FieldsError {
    /// The file's text does not parse as Rust.
    ParseFailed,
    /// The file holds no struct of the name with named fields.
    NotFound,
}

/// The field declarations of the struct named `target` in a source file's text: an error
/// when the text does not parse, or when it holds no such struct (see `struct_decls_in`).
pub fn struct_fields_in_text(text: &str, target: &str) -> (r: Result<Vec<String>, FieldsError>)
    ensures
        match file_items_of(text@) {
            None => r == Err::<Vec<String>, FieldsError>(FieldsError::ParseFailed),
            Some(vs) => match struct_decls_in(vs, target@) {
                None => r == Err::<Vec<String>, FieldsError>(FieldsError::NotFound),
                Some(d) => r matches Ok(v) && strings_view(v@) == d,
            },
        },
{
    match parse_file_items(text) {
        None => Err(FieldsError::ParseFailed),
        Some(items) => match find_struct_decls(&items, target) {
            Some(d) => Ok(d),
            None => Err(FieldsError::NotFound),
        },
    }
}

} // verus!
