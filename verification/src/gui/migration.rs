//! Moving files left by older versions of the application to where it keeps them now. The
//! file operations are done around this logic, which decides where things go.
use vstd::prelude::*;
use crate::gui::utils::{app_data_path_in, app_data_path_under, db_path_under, imported_path_in, join_path, path_join, APP_ID};
use crate::gui::RxDbType;

verus! {

/// Where the single database of the first versions was, and where it goes: `db.kdbx` in the
/// application's data directory, copied into the directory of imported databases (and
/// removed once copied).
pub fn old_db_move(data_dir: &str) -> (r: (String, String))
    ensures
        r.0@ == path_join(app_data_path_in(data_dir@), "db.kdbx"@),
        r.1@ == path_join(imported_path_in(data_dir@), "db.kdbx"@),
{
    let app = app_data_path_under(data_dir);
    let imported = db_path_under(data_dir, RxDbType::Imported);
    (join_path(app.as_str(), "db.kdbx"), join_path(imported.as_str(), "db.kdbx"))
}

/// The data directory that some versions made by mistake: the application's identifier twice.
pub fn doubled_data_dir(data_dir: &str) -> (r: String)
    ensures
        r@ == path_join(app_data_path_in(data_dir@), APP_ID@),
{
    let app = app_data_path_under(data_dir);
    join_path(app.as_str(), APP_ID)
}

/// What is at a destination before something is moved there.
#[derive(Debug, Clone, Copy, PartialEq, Eq, Structural)]
pub enum DestState {
    Missing,
    Directory,
    File,
}

/// How one entry of the doubled data directory is moved up: what is removed first (a
/// directory with its contents, or a file, already at the destination), and where it goes.
pub struct EntryMove {
    pub remove_dir_first: bool,
    pub remove_file_first: bool,
    pub dest: String,
}

/// How an entry of the doubled data directory, by its file name, is moved into the
/// application's data directory, given what is at its destination now.
pub fn entry_move(data_dir: &str, entry_name: &str, dest_state: DestState) -> (r: EntryMove)
    ensures
        r.dest@ == path_join(app_data_path_in(data_dir@), entry_name@),
        r.remove_dir_first == (dest_state == DestState::Directory),
        r.remove_file_first == (dest_state == DestState::File),
{
    let app = app_data_path_under(data_dir);
    EntryMove {
        remove_dir_first: dest_state == DestState::Directory,
        remove_file_first: dest_state == DestState::File,
        dest: join_path(app.as_str(), entry_name),
    }
}

} // verus!
