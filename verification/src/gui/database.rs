//! The database chosen in the user interface: the last one opened, remembered between runs,
//! and the key file that goes with it. Reading and writing the files is done around this
//! logic, which decides.
use vstd::prelude::*;
use crate::crypto::{KeyFile, MasterKey};
use crate::gui::utils::{join_path, path_join};
use crate::gui::{db_type_named, InvalidDbType, RxDbType};
use crate::mirror::cargo_files::{find_text, first_occurrence, lemma_first_occurrence};
use crate::text::{chars_of, occurs_at, push_str, slice_chars, string_of, to_owned_string};

verus! {

/// The part of `s` before the first occurrence of `needle`, or all of `s` when it does not
/// occur (`s.split(needle).next()`).
pub open spec fn first_piece(s: Seq<char>, needle: Seq<char>) -> Seq<char> {
    let k = first_occurrence(s, needle);
    if k < 0 {
        s
    } else {
        s.take(k)
    }
}

/// The name of the key file that accompanies a database: the database's name before its
/// first `.kdbx`, with `.key` added; none when that part is empty.
pub open spec fn companion_key_name(db_name: Seq<char>) -> Option<Seq<char>> {
    let base = first_piece(db_name, ".kdbx"@);
    if base.len() > 0 {
        Some(base + ".key"@)
    } else {
        None
    }
}

/// The name of the key file that accompanies a database (see `companion_key_name`).
pub fn companion_key_file_name(db_name: &str) -> (r: Option<String>)
    ensures
        match r {
            Some(n) => companion_key_name(db_name@) == Some(n@),
            None => companion_key_name(db_name@) is None,
        },
{
    let cs = chars_of(db_name);
    let ext = chars_of(".kdbx");
    proof {
        reveal_strlit(".kdbx");
    }
    let base = match find_text(cs.as_slice(), ext.as_slice(), 0) {
        Some(k) => {
            proof {
                lemma_first_occurrence(cs@, ext@, k as int);
            }
            slice_chars(cs.as_slice(), 0, k)
        },
        None => {
            proof {
                if exists|i: int| occurs_at(cs@, ext@, i) {
                    let i = choose|i: int| occurs_at(cs@, ext@, i);
                    assert(0 <= i);
                }
            }
            assert(cs@.subrange(0, cs@.len() as int) =~= cs@);
            slice_chars(cs.as_slice(), 0, cs.len())
        },
    };
    if base.len() == 0 {
        return None;
    }
    let mut name = string_of(base.as_slice());
    push_str(&mut name, ".key");
    Some(name)
}

/// Which database file to look for when the application starts, from the texts of the two
/// files that remember the last database: none when no name was remembered; else the name
/// and its type, taken as imported when no type was remembered (as older versions wrote
/// only the name). A remembered type that is no type's name is refused.
pub open spec fn last_db_to_check(name: Option<Seq<char>>, type_text: Option<Seq<char>>) -> Result<Option<(Seq<char>, RxDbType)>, Seq<char>> {
    match name {
        None => Ok(None),
        Some(n) => match type_text {
            None => Ok(Some((n, RxDbType::Imported))),
            Some(t) => match db_type_named(t) {
                Some(ty) => Ok(Some((n, ty))),
                None => Err(t),
            },
        },
    }
}

/// Which database file to look for when the application starts (see `last_db_to_check`).
pub fn last_db_candidate(name: Option<&str>, type_text: Option<&str>) -> (r: Result<Option<(String, RxDbType)>, InvalidDbType>)
    ensures
        match r {
            Ok(None) => last_db_to_check(
                match name {
                    Some(n) => Some(n@),
                    None => None,
                },
                match type_text {
                    Some(t) => Some(t@),
                    None => None,
                },
            ) == Ok::<Option<(Seq<char>, RxDbType)>, Seq<char>>(None),
            Ok(Some((n, ty))) => last_db_to_check(
                match name {
                    Some(n) => Some(n@),
                    None => None,
                },
                match type_text {
                    Some(t) => Some(t@),
                    None => None,
                },
            ) == Ok::<Option<(Seq<char>, RxDbType)>, Seq<char>>(Some((n@, ty))),
            Err(e) => last_db_to_check(
                match name {
                    Some(n) => Some(n@),
                    None => None,
                },
                match type_text {
                    Some(t) => Some(t@),
                    None => None,
                },
            ) == Err::<Option<(Seq<char>, RxDbType)>, Seq<char>>(e.value@),
        },
{
    match name {
        None => Ok(None),
        Some(n) => match type_text {
            None => Ok(Some((to_owned_string(n), RxDbType::Imported))),
            Some(t) => match RxDbType::from_str(t) {
                Ok(ty) => Ok(Some((to_owned_string(n), ty))),
                Err(e) => Err(e),
            },
        },
    }
}

/// What to do with the files that remember the last database.
pub enum LastDbAction {
    /// Remember this database and its type.
    Write(String, RxDbType),
    /// Forget the last database.
    Clear,
}

/// The keys the session holds for opening a database: the key file's bytes, and the master
/// key that seals them once the database is open.
pub struct SessionKeys {
    pub db_key: Option<KeyFile>,
    pub master_key: Option<MasterKey>,
}

impl SessionKeys {
    /// No keys.
    pub fn new() -> (r: SessionKeys)
        ensures
            r.db_key is None && r.master_key is None,
    {
        SessionKeys { db_key: None, master_key: None }
    }
}

/// What is to be done about a companion key file.
pub enum KeyFileAction {
    /// Read the key file at this path and use it for the database (see `use_key_file_bytes`).
    Load(String),
    /// The key file was forgotten, and with it the database and master keys.
    Cleared,
}

/// The path of the key file beside the chosen database: only a synced database has one, in
/// the directory of synced databases (see `companion_key_name`).
pub open spec fn companion_key_path(db_type: RxDbType, db_name: Seq<char>, db_dir: Option<Seq<char>>) -> Option<Seq<char>> {
    if db_type != RxDbType::Synced {
        None
    } else {
        match (db_dir, companion_key_name(db_name)) {
            (Some(d), Some(n)) => Some(path_join(d, n)),
            _ => None,
        }
    }
}

/// The text of an optional string.
pub open spec fn opt_str_view(s: Option<&str>) -> Option<Seq<char>> {
    match s {
        Some(x) => Some(x@),
        None => None,
    }
}

/// The state of the database chooser: the chosen database, whether it is remembered for the
/// next start, and whether a key file is set or was found beside it.
pub struct RxUiDatabaseState {
    pub database_name: String,
    pub database_type: RxDbType,
    pub last_db_set: bool,
    pub key_file_set: bool,
    pub key_file_detected: bool,
}

/// Which flags changed, for the user interface to be told.
pub struct DbEvents {
    pub last_db_set_changed: bool,
    pub key_file_set_changed: bool,
    pub key_file_detected_changed: bool,
}

impl RxUiDatabaseState {
    /// The state at start: the remembered database, if any, chosen and remembered, its type
    /// read from the remembered text (imported when absent or unreadable), no key file.
    pub fn from_last_db(last_db: Option<String>, last_db_type: Option<String>) -> (r: RxUiDatabaseState)
        ensures
            r.database_name@ == match last_db {
                Some(n) => n@,
                None => Seq::empty(),
            },
            r.database_type == match last_db_type {
                Some(t) => match db_type_named(t@) {
                    Some(ty) => ty,
                    None => RxDbType::Imported,
                },
                None => RxDbType::Imported,
            },
            r.last_db_set == last_db is Some,
            !r.key_file_set && !r.key_file_detected,
    {
        let last_db_set = last_db.is_some();
        let database_type = match &last_db_type {
            Some(t) => match RxDbType::from_str(t.as_str()) {
                Ok(ty) => ty,
                Err(_) => RxDbType::Imported,
            },
            None => RxDbType::Imported,
        };
        RxUiDatabaseState {
            database_name: match last_db {
                Some(n) => n,
                None => String::new(),
            },
            database_type,
            last_db_set,
            key_file_set: false,
            key_file_detected: false,
        }
    }

    /// What to do with the remembered database: remember the chosen one when the flag is
    /// set, forget it otherwise.
    pub fn last_db_action(&self) -> (r: LastDbAction)
        ensures
            self.last_db_set ==> (r matches LastDbAction::Write(n, t) && n@ == self.database_name@
                && t == self.database_type),
            !self.last_db_set ==> r is Clear,
    {
        if self.last_db_set {
            LastDbAction::Write(to_owned_string(self.database_name.as_str()), self.database_type)
        } else {
            LastDbAction::Clear
        }
    }

    /// The chosen database is remembered exactly when it has a name; `true` when that
    /// changed the flag. The files are then written or cleared (see `last_db_action`).
    pub fn update_last_db_set(&mut self) -> (changed: bool)
        ensures
            final(self).last_db_set == (old(self).database_name@.len() > 0),
            changed == (final(self).last_db_set != old(self).last_db_set),
            final(self).database_name == old(self).database_name,
            final(self).database_type == old(self).database_type,
            final(self).key_file_set == old(self).key_file_set,
            final(self).key_file_detected == old(self).key_file_detected,
    {
        let is_set = chars_of(self.database_name.as_str()).len() > 0;
        let changed = is_set != self.last_db_set;
        self.last_db_set = is_set;
        changed
    }

    /// Sets whether the chosen database is remembered; `true` when that changed the flag,
    /// and only then are the files written or cleared.
    pub fn set_last_db_set(&mut self, value: bool) -> (changed: bool)
        ensures
            final(self).last_db_set == value,
            changed == (value != old(self).last_db_set),
            final(self).database_name == old(self).database_name,
            final(self).database_type == old(self).database_type,
            final(self).key_file_set == old(self).key_file_set,
            final(self).key_file_detected == old(self).key_file_detected,
    {
        let changed = value != self.last_db_set;
        self.last_db_set = value;
        changed
    }

    /// Records whether reading the key file succeeded; `true` when that changed the flag.
    pub fn key_file_read(&mut self, ok: bool) -> (changed: bool)
        ensures
            final(self).key_file_set == ok,
            changed == (ok != old(self).key_file_set),
            final(self).key_file_detected == old(self).key_file_detected,
            final(self).last_db_set == old(self).last_db_set,
            final(self).database_name == old(self).database_name,
            final(self).database_type == old(self).database_type,
    {
        let changed = ok != self.key_file_set;
        self.key_file_set = ok;
        changed
    }

    /// Records that a key file was found beside the database; `true` when that changed the
    /// flag.
    pub fn key_file_found(&mut self) -> (changed: bool)
        ensures
            final(self).key_file_detected,
            changed == !old(self).key_file_detected,
            final(self).key_file_set == old(self).key_file_set,
            final(self).last_db_set == old(self).last_db_set,
            final(self).database_name == old(self).database_name,
            final(self).database_type == old(self).database_type,
    {
        let changed = !self.key_file_detected;
        self.key_file_detected = true;
        changed
    }

    /// Forgets the key file: neither set nor detected. The user interface is told of each
    /// flag that changed.
    pub fn clear_key_file(&mut self) -> (ev: DbEvents)
        ensures
            !final(self).key_file_set && !final(self).key_file_detected,
            ev.key_file_set_changed == old(self).key_file_set,
            ev.key_file_detected_changed == old(self).key_file_detected,
            !ev.last_db_set_changed,
            final(self).last_db_set == old(self).last_db_set,
            final(self).database_name == old(self).database_name,
            final(self).database_type == old(self).database_type,
    {
        let ev = DbEvents {
            last_db_set_changed: false,
            key_file_set_changed: self.key_file_set,
            key_file_detected_changed: self.key_file_detected,
        };
        self.key_file_set = false;
        self.key_file_detected = false;
        ev
    }

    /// Decides about the key file beside the chosen database, given the directory of databases
    /// of its type and whether the file at `companion_key_path` exists. When it does, the
    /// key file counts as detected and is to be loaded; otherwise the key file is forgotten,
    /// and so are the session's database and master keys.
    pub fn detect_key_file(&mut self, keys: &mut SessionKeys, db_dir: Option<&str>, candidate_exists: bool) -> (r: (KeyFileAction, DbEvents))
        ensures
            final(self).last_db_set == old(self).last_db_set,
            final(self).database_name == old(self).database_name,
            final(self).database_type == old(self).database_type,
            !r.1.last_db_set_changed,
            match companion_key_path(old(self).database_type, old(self).database_name@, opt_str_view(db_dir)) {
                Some(p) if candidate_exists => {
                    &&& r.0 matches KeyFileAction::Load(q) && q@ == p
                    &&& final(self).key_file_detected
                    &&& final(self).key_file_set == old(self).key_file_set
                    &&& r.1.key_file_detected_changed == !old(self).key_file_detected
                    &&& !r.1.key_file_set_changed
                    &&& *final(keys) == *old(keys)
                },
                _ => {
                    &&& r.0 is Cleared
                    &&& !final(self).key_file_set && !final(self).key_file_detected
                    &&& r.1.key_file_set_changed == old(self).key_file_set
                    &&& r.1.key_file_detected_changed == old(self).key_file_detected
                    &&& final(keys).db_key is None && final(keys).master_key is None
                },
            },
    {
        let candidate = match db_dir {
            Some(d) => self.key_file_candidate(d),
            None => None,
        };
        match candidate {
            Some(p) if candidate_exists => {
                let changed = self.key_file_found();
                (KeyFileAction::Load(p), DbEvents {
                    last_db_set_changed: false,
                    key_file_set_changed: false,
                    key_file_detected_changed: changed,
                })
            },
            _ => {
                keys.db_key = None;
                keys.master_key = None;
                (KeyFileAction::Cleared, self.clear_key_file())
            },
        }
    }

    /// Uses the bytes read from a key file for the database: when they could be read, they
    /// become the session's database key, held as read, and the key file counts as set;
    /// otherwise it counts as not set. `true` when that flag changed.
    pub fn use_key_file_bytes(&mut self, keys: &mut SessionKeys, read: Option<Vec<u8>>) -> (changed: bool)
        ensures
            final(self).key_file_set == read is Some,
            changed == (final(self).key_file_set != old(self).key_file_set),
            final(self).key_file_detected == old(self).key_file_detected,
            final(self).last_db_set == old(self).last_db_set,
            final(self).database_name == old(self).database_name,
            final(self).database_type == old(self).database_type,
            final(keys).master_key == old(keys).master_key,
            match read {
                Some(b) => final(keys).db_key matches Some(KeyFile::Unencrypted(k)) && k@ == b@,
                None => final(keys).db_key == old(keys).db_key,
            },
    {
        match read {
            Some(b) => {
                keys.db_key = Some(KeyFile::Unencrypted(b));
                self.key_file_read(true)
            },
            None => self.key_file_read(false),
        }
    }

    /// Where to look for a key file beside the chosen database, given the directory of
    /// databases of its type: only synced databases get one (see `companion_key_name`).
    pub fn key_file_candidate(&self, db_dir: &str) -> (r: Option<String>)
        ensures
            self.database_type != RxDbType::Synced ==> r is None,
            self.database_type == RxDbType::Synced ==> match companion_key_name(self.database_name@) {
                Some(n) => r matches Some(p) && p@ == path_join(db_dir@, n),
                None => r is None,
            },
    {
        if self.database_type != RxDbType::Synced {
            return None;
        }
        match companion_key_file_name(self.database_name.as_str()) {
            Some(n) => Some(join_path(db_dir, n.as_str())),
            None => None,
        }
    }
}

} // verus!
