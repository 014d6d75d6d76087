//! Where the application keeps its database files.
use vstd::prelude::*;
use crate::gui::RxDbType;
use crate::text::{chars_of, push_char, push_str};

verus! {

/// The application's identifier, the name of its data directory.
pub const APP_ID: &'static str = "keepassrx.projectmoon";

/// Joining a relative path component onto a path (`Path::join` on Unix): an absolute
/// component replaces the path; otherwise a `/` is put between them unless the path is
/// empty or already ends with one.
pub open spec fn path_join(base: Seq<char>, comp: Seq<char>) -> Seq<char> {
    if comp.len() > 0 && comp[0] == '/' {
        comp
    } else if base.len() == 0 || base[base.len() - 1] == '/' {
        base + comp
    } else {
        base + seq!['/'] + comp
    }
}

/// The application's data directory under the user's data directory.
pub open spec fn app_data_path_in(data_dir: Seq<char>) -> Seq<char> {
    path_join(data_dir, APP_ID@)
}

/// The directory of imported databases under the user's data directory.
pub open spec fn imported_path_in(data_dir: Seq<char>) -> Seq<char> {
    path_join(app_data_path_in(data_dir), "imported"@)
}

/// The directory of synced databases under the user's data directory.
pub open spec fn synced_path_in(data_dir: Seq<char>) -> Seq<char> {
    path_join(app_data_path_in(data_dir), "synced"@)
}

/// Joins a path component onto a path.
pub fn join_path(base: &str, comp: &str) -> (r: String)
    ensures
        r@ == path_join(base@, comp@),
{
    let cc = chars_of(comp);
    if cc.len() > 0 && cc[0] == '/' {
        let mut r = String::new();
        push_str(&mut r, comp);
        assert(r@ =~= comp@);
        return r;
    }
    let bc = chars_of(base);
    let mut r = String::new();
    push_str(&mut r, base);
    if bc.len() > 0 && bc[bc.len() - 1] != '/' {
        push_char(&mut r, '/');
    }
    push_str(&mut r, comp);
    r
}

/// `dirs::data_dir()`: the user's data directory, as a string. It depends on the
/// environment, so nothing is claimed of it; a directory whose name is not valid UTF-8
/// comes back as `None`, as does a missing one.
#[verifier::external_body]
fn user_data_dir() -> (r: Option<String>) {
    match dirs::data_dir() {
        Some(p) => p.into_os_string().into_string().ok(),
        None => None,
    }
}

/// The application's data directory under the given user data directory.
pub fn app_data_path_under(data_dir: &str) -> (r: String)
    ensures
        r@ == app_data_path_in(data_dir@),
{
    join_path(data_dir, APP_ID)
}

/// The directory of databases of the given type under the given user data directory.
pub fn db_path_under(data_dir: &str, db_type: RxDbType) -> (r: String)
    ensures
        db_type == RxDbType::Imported ==> r@ == imported_path_in(data_dir@),
        db_type == RxDbType::Synced ==> r@ == synced_path_in(data_dir@),
{
    let app = app_data_path_under(data_dir);
    match db_type {
        RxDbType::Imported => join_path(app.as_str(), "imported"),
        RxDbType::Synced => join_path(app.as_str(), "synced"),
    }
}

/// The application's data directory; `None` when the user has no data directory.
pub fn app_data_path() -> (r: Option<String>)
    ensures
        r matches Some(p) ==> exists|d: Seq<char>| p@ == #[trigger] app_data_path_in(d),
{
    match user_data_dir() {
        Some(d) => {
            let p = app_data_path_under(d.as_str());
            assert(p@ == app_data_path_in(d@));
            Some(p)
        },
        None => None,
    }
}

/// The directory of imported databases; `None` when the user has no data directory.
pub fn imported_databases_path() -> (r: Option<String>)
    ensures
        r matches Some(p) ==> exists|d: Seq<char>| p@ == #[trigger] imported_path_in(d),
{
    match user_data_dir() {
        Some(d) => {
            let p = db_path_under(d.as_str(), RxDbType::Imported);
            assert(p@ == imported_path_in(d@));
            Some(p)
        },
        None => None,
    }
}

/// The directory of synced databases; `None` when the user has no data directory.
pub fn synced_databases_path() -> (r: Option<String>)
    ensures
        r matches Some(p) ==> exists|d: Seq<char>| p@ == #[trigger] synced_path_in(d),
{
    match user_data_dir() {
        Some(d) => {
            let p = db_path_under(d.as_str(), RxDbType::Synced);
            assert(p@ == synced_path_in(d@));
            Some(p)
        },
        None => None,
    }
}

/// The directory of databases of the given type; `None` when the user has no data
/// directory.
pub fn db_path_for_type(db_type: RxDbType) -> (r: Option<String>)
    ensures
        r matches Some(p) ==> (db_type == RxDbType::Imported ==> exists|d: Seq<char>|
            p@ == #[trigger] imported_path_in(d)),
        r matches Some(p) ==> (db_type == RxDbType::Synced ==> exists|d: Seq<char>|
            p@ == #[trigger] synced_path_in(d)),
{
    match db_type {
        RxDbType::Imported => imported_databases_path(),
        RxDbType::Synced => synced_databases_path(),
    }
}

} // verus!
