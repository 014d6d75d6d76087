//! Which candidate files are looked at, what a file offers, and which hit wins.
use vstd::prelude::*;
use crate::mirror::paths::path_components;
use crate::rx::sort_order::{chars_before, lemma_chars_before_irreflexive, lemma_chars_before_total, lemma_chars_before_transitive};
use crate::text::{char_vecs_view, chars_eq, chars_of, str_eq, strings_view};

verus! {

/// The file names a struct's source may have: its snake-case name with `.rs`, `mod.rs`,
/// `lib.rs`.
pub open spec fn is_candidate_name(name: Seq<char>, snake: Seq<char>) -> bool {
    name == snake + ".rs"@ || name == "mod.rs"@ || name == "lib.rs"@
}

/// Whether a file name is one the struct's source may have.
pub fn is_candidate_file_name(name: &str, snake: &str) -> (r: bool)
    ensures
        r == is_candidate_name(name@, snake@),
{
    let mut wanted = chars_of(snake);
    let rs = chars_of(".rs");
    for i in 0..rs.len()
        invariant
            wanted@ == snake@ + rs@.take(i as int),
    {
        wanted.push(rs[i]);
        assert(wanted@ =~= snake@ + rs@.take(i + 1));
    }
    assert(rs@.take(rs@.len() as int) =~= rs@);
    let nc = chars_of(name);
    chars_eq(nc.as_slice(), wanted.as_slice()) || str_eq(name, "mod.rs") || str_eq(name, "lib.rs")
}

/// An item of a parsed source file, as far as the search for a struct reads it.
pub enum SourceItem {
    /// A struct: its name, when its fields are named their names, and the source text of
    /// each field's declaration.
    Struct { name: String, named_fields: Option<Vec<String>>, field_decls: Vec<String> },
    /// A module: its items when they are written inline.
    Module { items: Option<Vec<SourceItem>> },
    /// Anything else.
    Other,
}

/// The named fields of the struct in `items` (searching inline modules too): the first
/// struct with the name decides, giving its named fields or nothing; a module's search
/// that finds nothing lets the search go on after it.
pub open spec fn struct_fields_in(items: Seq<SourceItem>, target: Seq<char>) -> Option<Seq<Seq<char>>>
    decreases items, 1int,
{
    struct_fields_from(items, target, 0)
}

/// The search of `struct_fields_in` from position `i` on.
pub open spec fn struct_fields_from(items: Seq<SourceItem>, target: Seq<char>, i: int) -> Option<Seq<Seq<char>>>
    decreases items, 0int, items.len() - i,
{
    if i < 0 || i >= items.len() {
        None
    } else {
        match items[i] {
            SourceItem::Struct { name, named_fields, .. } => if name@ == target {
                match named_fields {
                    Some(f) => Some(strings_view(f@)),
                    None => None,
                }
            } else {
                struct_fields_from(items, target, i + 1)
            },
            SourceItem::Module { items: Some(inner) } => match struct_fields_in(inner@, target) {
                Some(f) => Some(f),
                None => struct_fields_from(items, target, i + 1),
            },
            _ => struct_fields_from(items, target, i + 1),
        }
    }
}

/// A copy of a list of strings.
fn copy_names(v: &Vec<String>) -> (r: Vec<String>)
    ensures
        strings_view(r@) == strings_view(v@),
{
    let mut r: Vec<String> = Vec::new();
    for i in 0..v.len()
        invariant
            strings_view(r@) == strings_view(v@.take(i as int)),
    {
        let ghost before = strings_view(r@);
        let x = v[i].clone();
        assert(x@ == v@[i as int]@);
        r.push(x);
        assert(strings_view(r@) =~= before.push(v@[i as int]@));
        assert(strings_view(r@) =~= strings_view(v@.take(i + 1)));
    }
    assert(v@.take(v@.len() as int) =~= v@);
    r
}

/// Finds the named fields of a struct among the items of a file (see `struct_fields_in`).
pub fn find_struct_fields(items: &Vec<SourceItem>, target_struct: &str) -> (r: Option<Vec<String>>)
    ensures
        match r {
            Some(f) => struct_fields_in(items@, target_struct@) == Some(strings_view(f@)),
            None => struct_fields_in(items@, target_struct@) is None,
        },
    decreases items@,
{
    let n = items.len();
    let mut i: usize = 0;
    while i < n
        invariant
            n == items@.len(),
            i <= n,
            struct_fields_in(items@, target_struct@) == struct_fields_from(items@, target_struct@, i as int),
        decreases n - i,
    {
        match &items[i] {
            SourceItem::Struct { name, named_fields, .. } => {
                if str_eq(name.as_str(), target_struct) {
                    return match named_fields {
                        Some(f) => Some(copy_names(f)),
                        None => None,
                    };
                }
            },
            SourceItem::Module { items: Some(inner) } => {
                assert(decreases_to!(items@ => items@[i as int]));
                match find_struct_fields(inner, target_struct) {
                    Some(f) => return Some(f),
                    None => {},
                }
            },
            _ => {},
        }
        i = i + 1;
    }
    None
}

/// The kind of a path component, in the order `Path` compares kinds: the root, `.`, `..`,
/// then names.
pub open spec fn comp_rank(c: Seq<char>) -> int {
    if c == seq!['/'] {
        0
    } else if c == seq!['.'] {
        1
    } else if c == seq!['.', '.'] {
        2
    } else {
        3
    }
}

/// Component `a` comes before component `b`, as `Path` compares them: by kind, then names
/// by their text.
pub open spec fn comp_before(a: Seq<char>, b: Seq<char>) -> bool {
    comp_rank(a) < comp_rank(b) || (comp_rank(a) == comp_rank(b) && chars_before(a, b))
}

/// Component sequence `a` comes before `b`: lexicographic by `comp_before`, a proper prefix
/// first, as `Path` orders paths by their components.
pub open spec fn comps_before(a: Seq<Seq<char>>, b: Seq<Seq<char>>) -> bool
    decreases a.len(),
{
    if b.len() == 0 {
        false
    } else if a.len() == 0 {
        true
    } else if a[0] != b[0] {
        comp_before(a[0], b[0])
    } else {
        comps_before(a.drop_first(), b.drop_first())
    }
}

/// Components are ordered totally.
proof fn lemma_comp_before(a: Seq<char>, b: Seq<char>, c: Seq<char>)
    ensures
        !comp_before(a, a),
        comp_before(a, b) && comp_before(b, c) ==> comp_before(a, c),
        a =~= b || comp_before(a, b) || comp_before(b, a),
{
    lemma_chars_before_irreflexive(a);
    lemma_chars_before_total(a, b);
    if chars_before(a, b) && chars_before(b, c) {
        lemma_chars_before_transitive(a, b, c);
    }
}

/// Component sequences are ordered totally.
pub proof fn lemma_comps_before(a: Seq<Seq<char>>, b: Seq<Seq<char>>, c: Seq<Seq<char>>)
    ensures
        !comps_before(a, a),
        comps_before(a, b) && comps_before(b, c) ==> comps_before(a, c),
        a =~= b || comps_before(a, b) || comps_before(b, a),
    decreases a.len(),
{
    if a.len() > 0 {
        lemma_comps_before(a.drop_first(), a.drop_first(), a.drop_first());
        if b.len() > 0 && c.len() > 0 {
            lemma_comps_before(a.drop_first(), b.drop_first(), c.drop_first());
            lemma_comp_before(a[0], b[0], c[0]);
            if a[0] == b[0] && a.drop_first() =~= b.drop_first() {
                assert(a =~= seq![a[0]] + a.drop_first());
                assert(b =~= seq![b[0]] + b.drop_first());
            }
        } else if b.len() > 0 {
            lemma_comps_before(a.drop_first(), b.drop_first(), b.drop_first());
            lemma_comp_before(a[0], b[0], b[0]);
            if a[0] == b[0] && a.drop_first() =~= b.drop_first() {
                assert(a =~= seq![a[0]] + a.drop_first());
                assert(b =~= seq![b[0]] + b.drop_first());
            }
        }
    }
}

/// Hit `i` ranks above hit `j`: a higher score, or the same score and a path that comes
/// first.
pub open spec fn ranks_above(scores: Seq<i32>, paths: Seq<Seq<char>>, i: int, j: int) -> bool {
    scores[i] > scores[j] || (scores[i] == scores[j] && comps_before(
        path_components(paths[i]),
        path_components(paths[j]),
    ))
}

/// Hit `b` comes first when the hits are sorted by rank, hits of equal rank keeping their
/// order.
pub open spec fn is_first_hit(scores: Seq<i32>, paths: Seq<Seq<char>>, b: int) -> bool {
    &&& 0 <= b < scores.len()
    &&& forall|j: int|
        0 <= j < scores.len() && j != b ==> !ranks_above(scores, paths, j, b) && (j < b ==> ranks_above(
            scores,
            paths,
            b,
            j,
        ))
}

/// Why no source file was chosen.
#[derive(Debug, Clone, Copy, PartialEq, Eq, Structural)]
pub enum HitError {
    /// No candidate file holds the struct.
    NotFound,
    /// Two or more candidates share the best score.
    Ambiguous,
}

/// The kind of a component (see `comp_rank`).
fn comp_rank_exec(c: &[char]) -> (r: u8)
    ensures
        r == comp_rank(c@),
{
    if c.len() == 1 && c[0] == '/' {
        assert(c@ =~= seq!['/']);
        0
    } else if c.len() == 1 && c[0] == '.' {
        assert(c@ =~= seq!['.']);
        1
    } else if c.len() == 2 && c[0] == '.' && c[1] == '.' {
        assert(c@ =~= seq!['.', '.']);
        2
    } else {
        3
    }
}

/// Compares two components (see `comp_before`).
fn comp_before_exec(a: &[char], b: &[char]) -> (r: bool)
    ensures
        r == comp_before(a@, b@),
{
    let ra = comp_rank_exec(a);
    let rb = comp_rank_exec(b);
    ra < rb || (ra == rb && crate::rx::sort_order::chars_before_exec(a, b))
}

/// Compares two sequences of components.
pub(crate) fn comps_before_exec(a: &Vec<Vec<char>>, b: &Vec<Vec<char>>) -> (r: bool)
    ensures
        r == comps_before(char_vecs_view(a@), char_vecs_view(b@)),
{
    let ghost av = char_vecs_view(a@);
    let ghost bv = char_vecs_view(b@);
    let mut i: usize = 0;
    assert(av.skip(0) =~= av);
    assert(bv.skip(0) =~= bv);
    while i < a.len() && i < b.len()
        invariant
            av == char_vecs_view(a@),
            bv == char_vecs_view(b@),
            i <= a@.len(),
            i <= b@.len(),
            comps_before(av, bv) == comps_before(av.skip(i as int), bv.skip(i as int)),
        decreases a@.len() - i,
    {
        assert(av.skip(i as int)[0] == a@[i as int]@);
        assert(bv.skip(i as int)[0] == b@[i as int]@);
        if !chars_eq(a[i].as_slice(), b[i].as_slice()) {
            return comp_before_exec(a[i].as_slice(), b[i].as_slice());
        }
        assert(av.skip(i as int).drop_first() =~= av.skip(i + 1));
        assert(bv.skip(i as int).drop_first() =~= bv.skip(i + 1));
        i = i + 1;
    }
    i == a.len() && i < b.len()
}

/// Chooses the source file among the hits: the one with the best score (the first path on
/// a tie), unless no file was found or two share the best score.
pub fn select_source_hit(paths: &Vec<String>, scores: &Vec<i32>) -> (r: Result<usize, HitError>)
    requires
        paths@.len() == scores@.len(),
    ensures
        match r {
            Ok(b) => is_first_hit(scores@, strings_view(paths@), b as int) && forall|j: int|
                0 <= j < scores@.len() && j != b ==> scores@[j] < scores@[b as int],
            Err(HitError::NotFound) => scores@.len() == 0,
            Err(HitError::Ambiguous) => exists|b: int, j: int|
                is_first_hit(scores@, strings_view(paths@), b) && 0 <= j < scores@.len() && j != b
                    && scores@[j] == scores@[b],
        },
{
    let n = scores.len();
    if n == 0 {
        return Err(HitError::NotFound);
    }
    let ghost ps = strings_view(paths@);
    let mut comps: Vec<Vec<Vec<char>>> = Vec::new();
    for i in 0..n
        invariant
            n == paths@.len(),
            ps == strings_view(paths@),
            comps@.len() == i,
            forall|k: int| 0 <= k < i ==> char_vecs_view(#[trigger] comps@[k]@) == path_components(ps[k]),
    {
        comps.push(crate::mirror::paths::components_of(paths[i].as_str()));
    }
    let mut b: usize = 0;
    for j in 1..n
        invariant
            n == scores@.len(),
            n == paths@.len(),
            ps == strings_view(paths@),
            comps@.len() == n,
            forall|k: int| 0 <= k < n ==> char_vecs_view(#[trigger] comps@[k]@) == path_components(ps[k]),
            b < j,
            forall|k: int|
                0 <= k < j && k != b ==> !ranks_above(scores@, ps, k, b as int) && (k < b ==> ranks_above(
                    scores@,
                    ps,
                    b as int,
                    k,
                )),
    {
        let better = scores[j] > scores[b] || (scores[j] == scores[b] && comps_before_exec(&comps[j], &comps[b]));
        assert(better == ranks_above(scores@, ps, j as int, b as int));
        if better {
            proof {
                assert forall|k: int| 0 <= k < j + 1 && k != j implies !ranks_above(scores@, ps, k, j as int) && (k
                    < j ==> ranks_above(scores@, ps, j as int, k)) by {
                    assert(ranks_above(scores@, ps, j as int, b as int));
                    if k != b {
                        assert(!ranks_above(scores@, ps, k, b as int));
                        if k < b {
                            assert(ranks_above(scores@, ps, b as int, k));
                        }
                    }
                    lemma_comps_before(
                        path_components(ps[k]),
                        path_components(ps[b as int]),
                        path_components(ps[j as int]),
                    );
                    lemma_comps_before(
                        path_components(ps[j as int]),
                        path_components(ps[b as int]),
                        path_components(ps[k]),
                    );
                    lemma_comps_before(
                        path_components(ps[k]),
                        path_components(ps[j as int]),
                        path_components(ps[b as int]),
                    );
                    lemma_comps_before(
                        path_components(ps[b as int]),
                        path_components(ps[k]),
                        path_components(ps[j as int]),
                    );
                    lemma_comps_before(
                        path_components(ps[k]),
                        path_components(ps[j as int]),
                        path_components(ps[k]),
                    );
                    lemma_comps_before(
                        path_components(ps[b as int]),
                        path_components(ps[j as int]),
                        path_components(ps[b as int]),
                    );
                }
            }
            b = j;
        } else {
            proof {
                lemma_comps_before(
                    path_components(ps[j as int]),
                    path_components(ps[b as int]),
                    path_components(ps[j as int]),
                );
            }
        }
    }
    let mut tie: Option<usize> = None;
    for j in 0..n
        invariant
            n == scores@.len(),
            b < n,
            tie matches Some(t) ==> t < n && t != b && scores@[t as int] == scores@[b as int],
            tie is None ==> forall|k: int| 0 <= k < j && k != b ==> scores@[k] != scores@[b as int],
    {
        if j != b && scores[j] == scores[b] {
            tie = Some(j);
        }
    }
    match tie {
        Some(t) => {
            assert(is_first_hit(scores@, ps, b as int));
            Err(HitError::Ambiguous)
        },
        None => {
            assert forall|j: int| 0 <= j < scores@.len() && j != b implies scores@[j] < scores@[b as int] by {
                assert(!ranks_above(scores@, ps, j, b as int));
            }
            Ok(b)
        },
    }
}

} // verus!
