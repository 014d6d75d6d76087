//! Values the user interface exchanges with the library.
use vstd::prelude::*;
use crate::text::{str_eq, to_owned_string, trim, chars_of, trim_chars};
use crate::outside::{fold_case, unicase_folded};
use crate::mirror::paths::{file_name, file_name_of, path_components, components_of};
use crate::gui::utils::{join_path, path_join};
use crate::rx::sort_order::{sort_by_key, sort_by_keys, KeyView, SortKey};
use crate::text::{ends_with, chars_ends_with, string_of, char_vecs_view, strings_view};

pub mod attachments;
pub mod colors;
pub mod container_stack;
pub mod database;
pub mod icons;
pub mod instructions;
pub mod list_item;
pub mod migration;
pub mod session;
pub mod models;
pub mod utils;

verus! {

/// Where a database file came from.
#[derive(Debug, Clone, Copy, PartialEq, Eq, Structural)]
pub enum RxDbType {
    /// Imported through the content hub.
    Imported,
    /// Managed by an outside file sync.
    Synced,
}

impl Default for RxDbType {
    /// Imported.
    fn default() -> (r: Self)
        ensures
            r == RxDbType::Imported,
    {
        RxDbType::Imported
    }
}

/// A name that is not that of a database type.
#[derive(Debug)]
pub struct InvalidDbType {
    pub value: String,
}

/// The name of a database type.
pub open spec fn db_type_name(t: RxDbType) -> Seq<char> {
    match t {
        RxDbType::Imported => "Imported"@,
        RxDbType::Synced => "Synced"@,
    }
}

/// The database type with the given name, if any.
pub open spec fn db_type_named(s: Seq<char>) -> Option<RxDbType> {
    if s == "Imported"@ {
        Some(RxDbType::Imported)
    } else if s == "Synced"@ {
        Some(RxDbType::Synced)
    } else {
        None
    }
}

impl RxDbType {
    /// The name of this database type (its display form).
    pub fn to_string(&self) -> (r: String)
        ensures
            r@ == db_type_name(*self),
    {
        match self {
            RxDbType::Imported => to_owned_string("Imported"),
            RxDbType::Synced => to_owned_string("Synced"),
        }
    }

    /// Parses a database type from its name.
    pub fn from_str(value: &str) -> (r: Result<RxDbType, InvalidDbType>)
        ensures
            match r {
                Ok(t) => db_type_named(value@) == Some(t),
                Err(e) => db_type_named(value@) is None && e.value@ == value@,
            },
    {
        if str_eq(value, "Imported") {
            Ok(RxDbType::Imported)
        } else if str_eq(value, "Synced") {
            Ok(RxDbType::Synced)
        } else {
            Err(InvalidDbType { value: to_owned_string(value) })
        }
    }
}

/// Reading back the name of a database type gives the same type.
pub proof fn lemma_db_type_name_round_trip(t: RxDbType)
    ensures
        db_type_named(db_type_name(t)) == Some(t),
{
    reveal_strlit("Imported");
    reveal_strlit("Synced");
    assert("Imported"@.len() != "Synced"@.len());
}


/// Whether the application has a database open.
#[derive(Debug, Clone, Copy, PartialEq, Eq, Structural)]
pub enum RxGuiState {
    NotOpen,
    Open,
    Locked,
}

impl Default for RxGuiState {
    /// Not open.
    fn default() -> (r: Self)
        ensures
            r == RxGuiState::NotOpen,
    {
        RxGuiState::NotOpen
    }
}

/// The name of a state.
pub open spec fn gui_state_name(s: RxGuiState) -> Seq<char> {
    match s {
        RxGuiState::NotOpen => "NotOpen"@,
        RxGuiState::Open => "Open"@,
        RxGuiState::Locked => "Locked"@,
    }
}

/// The state with the given name, if any.
pub open spec fn gui_state_named(s: Seq<char>) -> Option<RxGuiState> {
    if s == "NotOpen"@ {
        Some(RxGuiState::NotOpen)
    } else if s == "Open"@ {
        Some(RxGuiState::Open)
    } else if s == "Locked"@ {
        Some(RxGuiState::Locked)
    } else {
        None
    }
}

impl RxGuiState {
    /// The name of this state.
    pub fn to_name(&self) -> (r: String)
        ensures
            r@ == gui_state_name(*self),
    {
        match self {
            RxGuiState::NotOpen => to_owned_string("NotOpen"),
            RxGuiState::Open => to_owned_string("Open"),
            RxGuiState::Locked => to_owned_string("Locked"),
        }
    }

    /// The state with the given name; any other name is refused.
    pub fn from_name(name: &str) -> (r: RxGuiState)
        requires
            gui_state_named(name@) is Some,
        ensures
            gui_state_named(name@) == Some(r),
    {
        if str_eq(name, "NotOpen") {
            RxGuiState::NotOpen
        } else if str_eq(name, "Open") {
            RxGuiState::Open
        } else {
            RxGuiState::Locked
        }
    }
}

/// Reading back the name of a state gives the same state.
pub proof fn lemma_gui_state_name_round_trip(s: RxGuiState)
    ensures
        gui_state_named(gui_state_name(s)) == Some(s),
{
    reveal_strlit("NotOpen");
    reveal_strlit("Open");
    reveal_strlit("Locked");
    assert("NotOpen"@.len() != "Open"@.len() && "Open"@.len() != "Locked"@.len() && "NotOpen"@.len()
        != "Locked"@.len());
}

/// Which view of the database is shown.
#[derive(Debug, Clone, Copy, PartialEq, Eq, Structural)]
pub enum RxViewMode {
    All,
    Templates,
    Totp,
    Tags,
}

impl Default for RxViewMode {
    /// All groups and entries.
    fn default() -> (r: Self)
        ensures
            r == RxViewMode::All,
    {
        RxViewMode::All
    }
}

/// The name of a view mode.
pub open spec fn view_mode_name(m: RxViewMode) -> Seq<char> {
    match m {
        RxViewMode::All => "All"@,
        RxViewMode::Templates => "Templates"@,
        RxViewMode::Totp => "Totp"@,
        RxViewMode::Tags => "Tags"@,
    }
}

/// The view mode with the given name, if any.
pub open spec fn view_mode_named(s: Seq<char>) -> Option<RxViewMode> {
    if s == "All"@ {
        Some(RxViewMode::All)
    } else if s == "Templates"@ {
        Some(RxViewMode::Templates)
    } else if s == "Totp"@ {
        Some(RxViewMode::Totp)
    } else if s == "Tags"@ {
        Some(RxViewMode::Tags)
    } else {
        None
    }
}

impl RxViewMode {
    /// The name of this view mode.
    pub fn to_name(&self) -> (r: String)
        ensures
            r@ == view_mode_name(*self),
    {
        match self {
            RxViewMode::All => to_owned_string("All"),
            RxViewMode::Templates => to_owned_string("Templates"),
            RxViewMode::Totp => to_owned_string("Totp"),
            RxViewMode::Tags => to_owned_string("Tags"),
        }
    }

    /// The view mode with the given name; any other name is refused.
    pub fn from_name(name: &str) -> (r: RxViewMode)
        requires
            view_mode_named(name@) is Some,
        ensures
            view_mode_named(name@) == Some(r),
    {
        if str_eq(name, "All") {
            RxViewMode::All
        } else if str_eq(name, "Templates") {
            RxViewMode::Templates
        } else if str_eq(name, "Totp") {
            RxViewMode::Totp
        } else {
            RxViewMode::Tags
        }
    }
}

/// Reading back the name of a view mode gives the same view mode.
pub proof fn lemma_view_mode_name_round_trip(m: RxViewMode)
    ensures
        view_mode_named(view_mode_name(m)) == Some(m),
{
    reveal_strlit("All");
    reveal_strlit("Templates");
    reveal_strlit("Totp");
    reveal_strlit("Tags");
    assert("All"@.len() == 3 && "Templates"@.len() == 9 && "Totp"@.len() == 4 && "Tags"@.len() == 4);
    assert("Totp"@[1] != "Tags"@[1]);
}

/// A database file is listed when its name ends with `.kdbx` or `.kdb`.
pub open spec fn is_database_file(name: Seq<char>) -> bool {
    ends_with(name, ".kdbx"@) || ends_with(name, ".kdb"@)
}

/// The names among `names` that are database files, in order, with their type.
pub open spec fn database_files(names: Seq<Seq<char>>, t: RxDbType) -> Seq<(Seq<char>, RxDbType)>
    decreases names.len(),
{
    if names.len() == 0 {
        Seq::empty()
    } else {
        let rest = database_files(names.drop_last(), t);
        if is_database_file(names.last()) {
            rest.push((names.last(), t))
        } else {
            rest
        }
    }
}

/// What database files are listed by: their case-folded name.
pub open spec fn listing_key(x: (Seq<char>, RxDbType)) -> KeyView {
    (0, 0, unicase_folded(x.0), 0)
}

/// The listed database files: those in the imported directory, then those in the synced
/// one, sorted by case-folded name, files with the same folded name keeping that order.
pub open spec fn database_listing_of(imported: Seq<Seq<char>>, synced: Seq<Seq<char>>) -> Seq<(Seq<char>, RxDbType)> {
    sort_by_key(
        database_files(imported, RxDbType::Imported) + database_files(synced, RxDbType::Synced),
        |x: (Seq<char>, RxDbType)| listing_key(x),
    )
}

/// One listed database file: its name and type.
pub struct DbListing {
    pub name: String,
    pub db_type: RxDbType,
}

/// The view of a listing.
pub open spec fn listing_view(v: Seq<DbListing>) -> Seq<(Seq<char>, RxDbType)> {
    v.map_values(|d: DbListing| (d.name@, d.db_type))
}

/// Adds the database files among `names` to the listing.
fn add_database_files(out: &mut Vec<DbListing>, names: &Vec<String>, t: RxDbType)
    ensures
        listing_view(final(out)@) == listing_view(old(out)@) + database_files(strings_view(names@), t),
{
    let ghost start = listing_view(out@);
    let ghost ns = strings_view(names@);
    for i in 0..names.len()
        invariant
            ns == strings_view(names@),
            listing_view(out@) == start + database_files(ns.take(i as int), t),
    {
        assert(ns.take(i + 1).drop_last() =~= ns.take(i as int));
        assert(ns.take(i + 1).last() == names@[i as int]@);
        let nc = chars_of(names[i].as_str());
        let is_db = chars_ends_with(nc.as_slice(), chars_of(".kdbx").as_slice()) || chars_ends_with(
            nc.as_slice(),
            chars_of(".kdb").as_slice(),
        );
        if is_db {
            let ghost before = listing_view(out@);
            out.push(DbListing { name: names[i].clone(), db_type: t });
            assert(listing_view(out@) =~= before.push((names@[i as int]@, t)));
            assert(start + database_files(ns.take(i + 1), t) =~= (start + database_files(ns.take(i as int), t)).push(
                (names@[i as int]@, t),
            ));
        }
    }
    assert(ns.take(ns.len() as int) =~= ns);
}

/// Lists the database files of the imported and synced directories, given the names of
/// the files in each (see `database_listing_of`).
pub fn database_listing(imported: &Vec<String>, synced: &Vec<String>) -> (r: Vec<DbListing>)
    ensures
        listing_view(r@) == database_listing_of(strings_view(imported@), strings_view(synced@)),
{
    let mut all: Vec<DbListing> = Vec::new();
    assert(listing_view(all@) =~= Seq::<(Seq<char>, RxDbType)>::empty());
    add_database_files(&mut all, imported, RxDbType::Imported);
    add_database_files(&mut all, synced, RxDbType::Synced);
    assert(listing_view(all@) =~= database_files(strings_view(imported@), RxDbType::Imported) + database_files(
        strings_view(synced@),
        RxDbType::Synced,
    ));
    let mut keys: Vec<SortKey> = Vec::new();
    for i in 0..all.len()
        invariant
            keys@.len() == i,
            forall|k: int| 0 <= k < i ==> (#[trigger] keys@[k]).view_key() == listing_key((all@[k].name@, all@[k].db_type)),
    {
        let folded = fold_case(all[i].name.as_str());
        keys.push(SortKey { class: 0, rank: 0, name: chars_of(folded.as_str()), uuid: 0 });
    }
    let ghost unsorted = all@;
    let sorted = sort_by_keys(all, keys, Ghost(|d: DbListing| listing_key((d.name@, d.db_type))));
    proof {
        lemma_sort_map(unsorted);
    }
    sorted
}

/// Sorting listings and viewing them commute.
proof fn lemma_sort_map(s: Seq<DbListing>)
    ensures
        listing_view(sort_by_key(s, |d: DbListing| listing_key((d.name@, d.db_type)))) == sort_by_key(
            listing_view(s),
            |x: (Seq<char>, RxDbType)| listing_key(x),
        ),
    decreases s.len(),
{
    if s.len() > 0 {
        lemma_sort_map(s.drop_first());
        assert(listing_view(s).drop_first() =~= listing_view(s.drop_first()));
        let rest = sort_by_key(s.drop_first(), |d: DbListing| listing_key((d.name@, d.db_type)));
        let vrest = sort_by_key(listing_view(s.drop_first()), |x: (Seq<char>, RxDbType)| listing_key(x));
        lemma_first_not_before_map(rest, s[0]);
        let p = crate::rx::sort_order::first_not_before(
            rest,
            listing_key((s[0].name@, s[0].db_type)),
            |d: DbListing| listing_key((d.name@, d.db_type)),
        );
        crate::rx::sort_order::lemma_sort_sorted_facts(s.drop_first(), |d: DbListing| listing_key((d.name@, d.db_type)));
        crate::rx::sort_order::lemma_first_not_before_facts(
            rest,
            listing_key((s[0].name@, s[0].db_type)),
            |d: DbListing| listing_key((d.name@, d.db_type)),
        );
        assert(listing_view(rest) == vrest);
        assert(listing_view(s)[0] == (s[0].name@, s[0].db_type));
        assert(listing_view(rest.insert(p, s[0])) =~= vrest.insert(p, (s[0].name@, s[0].db_type)));
    }
}

/// The insertion position does not change under viewing.
proof fn lemma_first_not_before_map(s: Seq<DbListing>, x: DbListing)
    ensures
        crate::rx::sort_order::first_not_before(
            s,
            listing_key((x.name@, x.db_type)),
            |d: DbListing| listing_key((d.name@, d.db_type)),
        ) == crate::rx::sort_order::first_not_before(
            listing_view(s),
            listing_key((x.name@, x.db_type)),
            |y: (Seq<char>, RxDbType)| listing_key(y),
        ),
    decreases s.len(),
{
    if s.len() > 0 {
        lemma_first_not_before_map(s.drop_first(), x);
        assert(listing_view(s).drop_first() =~= listing_view(s.drop_first()));
    }
}

/// Why a database file cannot be imported.
#[derive(Debug, Clone, Copy, PartialEq, Eq, Structural)]
pub enum ImportError {
    /// The chosen path names no file.
    NoFileName,
    /// The file is already the one in the imported directory.
    SameFile,
}

/// Where an imported file is copied: its name and the path under the imported directory;
/// refused when the path has no file name or is the destination itself.
pub open spec fn import_target(source: Seq<char>, imported_dir: Seq<char>) -> Result<(Seq<char>, Seq<char>), ImportError> {
    match file_name_of(source) {
        None => Err(ImportError::NoFileName),
        Some(name) => {
            let dest = path_join(imported_dir, name);
            if path_components(source) == path_components(dest) {
                Err(ImportError::SameFile)
            } else {
                Ok((name, dest))
            }
        },
    }
}

/// Where a chosen database file is copied when it is imported (see `import_target`).
pub fn import_destination(source: &str, imported_dir: &str) -> (r: Result<(String, String), ImportError>)
    ensures
        match r {
            Ok((name, dest)) => import_target(source@, imported_dir@) == Ok::<(Seq<char>, Seq<char>), ImportError>((name@, dest@)),
            Err(e) => import_target(source@, imported_dir@) == Err::<(Seq<char>, Seq<char>), ImportError>(e),
        },
{
    let name = match file_name(source) {
        Some(n) => string_of(n.as_slice()),
        None => return Err(ImportError::NoFileName),
    };
    let dest = join_path(imported_dir, name.as_str());
    let a = components_of(source);
    let b = components_of(dest.as_str());
    let mut same = a.len() == b.len();
    let mut i: usize = 0;
    while same && i < a.len()
        invariant
            i <= a@.len(),
            same ==> a@.len() == b@.len(),
            same ==> forall|k: int| 0 <= k < i ==> a@[k]@ == b@[k]@,
            !same ==> char_vecs_view(a@) != char_vecs_view(b@),
        decreases a@.len() - i,
    {
        if !crate::text::chars_eq(a[i].as_slice(), b[i].as_slice()) {
            same = false;
            assert(char_vecs_view(a@)[i as int] != char_vecs_view(b@)[i as int]);
        }
        i = i + 1;
    }
    if same {
        assert(char_vecs_view(a@) =~= char_vecs_view(b@));
        Err(ImportError::SameFile)
    } else {
        Ok((name, dest))
    }
}

/// The search term of an entry search: none when it is blank.
pub open spec fn search_term_of(term: Seq<char>) -> Option<Seq<char>> {
    if trim(term).len() == 0 {
        None
    } else {
        Some(term)
    }
}

/// The search term to run an entry search with: none for a blank term.
pub fn entries_search_term(term: &str) -> (r: Option<String>)
    ensures
        match r {
            Some(t) => search_term_of(term@) == Some(t@),
            None => search_term_of(term@) is None,
        },
{
    let t = trim_chars(chars_of(term).as_slice());
    if t.len() == 0 {
        None
    } else {
        Some(to_owned_string(term))
    }
}

} // verus!
