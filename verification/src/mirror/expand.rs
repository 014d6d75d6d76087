//! What `#[mirror_from(...)]` produces for a struct: which struct to copy the fields of,
//! where to look for it, and the imports to put before the copy.
use vstd::prelude::*;
use crate::mirror::args::MirrorArgs;
use crate::mirror::opt_text;
use crate::outside::{struct_item, struct_item_of, use_item_error, use_item_error_of};
use crate::text::{push_str, strings_view, to_owned_string};

verus! {

/// The struct the attribute stands on: its name and whether it is a unit struct.
#[derive(Debug)]
pub struct MirrorItem {
    pub name: String,
    pub is_unit: bool,
}

/// Reads the struct item the attribute stands on from its text; `None` when the text is no
/// struct item.
pub fn parse_struct_item(text: &str) -> (r: Option<MirrorItem>)
    ensures
        match r {
            Some(item) => struct_item_of(text@) == Some((item.name@, item.is_unit)),
            None => struct_item_of(text@) is None,
        },
{
    match struct_item(text) {
        Some((name, is_unit)) => Some(MirrorItem { name, is_unit }),
        None => None,
    }
}

/// Why the attribute cannot be expanded.
#[derive(Debug, Clone, Copy, PartialEq, Eq, Structural)]
pub enum ExpandError {
    /// The attribute stands on a struct with fields.
    NotUnitStruct,
    /// The target path has no segment.
    EmptyTarget,
}

impl ExpandError {
    /// The message of this error.
    pub fn to_string(&self) -> (r: String)
        ensures
            *self == ExpandError::NotUnitStruct ==> r@ == "mirror_from expects a unit struct, like `struct EntryMirror;`"@,
            *self == ExpandError::EmptyTarget ==> r@ == "empty target path"@,
    {
        match self {
            ExpandError::NotUnitStruct => to_owned_string("mirror_from expects a unit struct, like `struct EntryMirror;`"),
            ExpandError::EmptyTarget => to_owned_string("empty target path"),
        }
    }
}

/// What an expansion does: the mirror struct it writes, the struct whose fields it copies
/// and its path, the file given for it (none means the source is searched for), and the
/// import statements it puts first.
#[derive(Debug)]
pub struct ExpandPlan {
    pub mirror_name: String,
    pub target_struct: String,
    pub target_segments: Vec<String>,
    pub file: Option<String>,
    pub use_statements: Vec<String>,
}

/// The import statement for an `import` option.
pub open spec fn use_statement(path: Seq<char>) -> Seq<char> {
    "use "@ + path + ";"@
}

/// The expansion of the attribute with the given arguments on the given struct: refused on
/// a struct with fields, or without a target; otherwise the plan copies the fields of the
/// last segment of the target.
pub fn expand(args: &MirrorArgs, item: &MirrorItem) -> (r: Result<ExpandPlan, ExpandError>)
    ensures
        !item.is_unit ==> r == Err::<ExpandPlan, ExpandError>(ExpandError::NotUnitStruct),
        item.is_unit && args.target@.len() == 0 ==> r == Err::<ExpandPlan, ExpandError>(ExpandError::EmptyTarget),
        item.is_unit && args.target@.len() > 0 ==> (r matches Ok(p) && {
            &&& p.mirror_name@ == item.name@
            &&& p.target_struct@ == args.target@.last()@
            &&& strings_view(p.target_segments@) == strings_view(args.target@)
            &&& opt_text(p.file) == opt_text(args.file)
            &&& strings_view(p.use_statements@) == strings_view(args.imports@).map_values(
                |s: Seq<char>| use_statement(s),
            )
        }),
{
    if !item.is_unit {
        return Err(ExpandError::NotUnitStruct);
    }
    let n = args.target.len();
    if n == 0 {
        return Err(ExpandError::EmptyTarget);
    }
    let mut segments: Vec<String> = Vec::new();
    for i in 0..n
        invariant
            n == args.target@.len(),
            strings_view(segments@) == strings_view(args.target@).take(i as int),
    {
        let ghost before = strings_view(segments@);
        segments.push(to_owned_string(args.target[i].as_str()));
        assert(strings_view(segments@) =~= before.push(args.target@[i as int]@));
        assert(strings_view(args.target@).take(i + 1) =~= strings_view(args.target@).take(i as int).push(
            args.target@[i as int]@,
        ));
    }
    assert(strings_view(args.target@).take(n as int) =~= strings_view(args.target@));
    let mut uses: Vec<String> = Vec::new();
    let ghost iv = strings_view(args.imports@);
    for i in 0..args.imports.len()
        invariant
            iv == strings_view(args.imports@),
            strings_view(uses@) == iv.take(i as int).map_values(|s: Seq<char>| use_statement(s)),
    {
        let mut stmt = to_owned_string("use ");
        push_str(&mut stmt, args.imports[i].as_str());
        push_str(&mut stmt, ";");
        assert(stmt@ == use_statement(iv[i as int]));
        let ghost before = strings_view(uses@);
        uses.push(stmt);
        assert(strings_view(uses@) =~= before.push(use_statement(iv[i as int])));
        assert(iv.take(i + 1).map_values(|s: Seq<char>| use_statement(s)) =~= iv.take(i as int).map_values(
            |s: Seq<char>| use_statement(s),
        ).push(use_statement(iv[i as int])));
        assert(strings_view(uses@) =~= iv.take(i + 1).map_values(|s: Seq<char>| use_statement(s)));
    }
    assert(iv.take(iv.len() as int) =~= iv);
    Ok(ExpandPlan {
        mirror_name: to_owned_string(item.name.as_str()),
        target_struct: to_owned_string(args.target[n - 1].as_str()),
        target_segments: segments,
        file: match &args.file {
            Some(f) => Some(to_owned_string(f.as_str())),
            None => None,
        },
        use_statements: uses,
    })
}

/// The message of the first import statement that is no `use` item, if any.
pub open spec fn first_use_error(stmts: Seq<Seq<char>>) -> Option<Seq<char>>
    decreases stmts.len(),
{
    if stmts.len() == 0 {
        None
    } else {
        match use_item_error_of(stmts[0]) {
            Some(m) => Some(m),
            None => first_use_error(stmts.drop_first()),
        }
    }
}

/// Checks the import statements of a plan: the message of the first that is no `use` item
/// (see `first_use_error`).
pub fn use_statements_error(stmts: &Vec<String>) -> (r: Option<String>)
    ensures
        opt_text(r) == first_use_error(strings_view(stmts@)),
{
    let ghost sv = strings_view(stmts@);
    let n = stmts.len();
    let mut i: usize = 0;
    assert(sv.skip(0) =~= sv);
    while i < n
        invariant
            n == stmts@.len(),
            sv == strings_view(stmts@),
            i <= n,
            first_use_error(sv) == first_use_error(sv.skip(i as int)),
        decreases n - i,
    {
        assert(sv.skip(i as int)[0] == stmts@[i as int]@);
        assert(sv.skip(i as int).drop_first() =~= sv.skip(i + 1));
        match use_item_error(stmts[i].as_str()) {
            Some(m) => {
                return Some(m);
            },
            None => {},
        }
        i = i + 1;
    }
    assert(sv.skip(n as int).len() == 0);
    None
}

} // verus!
