//! The directories searched for the source of a mirrored struct: those given, the crate's
//! own, the usual vendoring directories above it and Cargo's checkouts, ordered as paths
//! and without repeats.
use vstd::prelude::*;
use crate::gui::utils::{join_path, path_join};
use crate::mirror::paths::{components_of, path_components};
use crate::mirror::source_hits::{comps_before, comps_before_exec, lemma_comps_before};
use crate::text::{char_vecs_view, push_char, push_chars, strings_view, to_owned_string};

verus! {

/// Names joined by `/`.
pub open spec fn names_joined(cs: Seq<Seq<char>>) -> Seq<char>
    decreases cs.len(),
{
    if cs.len() == 0 {
        Seq::empty()
    } else if cs.len() == 1 {
        cs[0]
    } else {
        names_joined(cs.drop_last()) + seq!['/'] + cs.last()
    }
}

/// The text of the path with the given components: the root, then the names joined by `/`.
pub open spec fn path_text(cs: Seq<Seq<char>>) -> Seq<char> {
    if cs.len() > 0 && cs[0] == seq!['/'] {
        seq!['/'] + names_joined(cs.drop_first())
    } else {
        names_joined(cs)
    }
}

/// How many ancestors a path has (`Path::ancestors`, the path itself first): an absolute
/// path goes up to its root, a relative one up to the empty path.
pub open spec fn ancestor_count(p: Seq<char>) -> nat {
    let cs = path_components(p);
    if cs.len() > 0 && cs[0] == seq!['/'] {
        cs.len()
    } else {
        cs.len() + 1
    }
}

/// The `k`-th ancestor of a path (the path itself for 0), as the text of its components.
pub open spec fn ancestor(p: Seq<char>, k: int) -> Seq<char> {
    let cs = path_components(p);
    path_text(cs.take(cs.len() - k))
}

/// The ancestors of a path, nearest first.
pub open spec fn ancestors(p: Seq<char>) -> Seq<Seq<char>> {
    Seq::new(ancestor_count(p), |k: int| ancestor(p, k))
}

/// The text of the path made of the first `m` of the given components.
fn path_text_of(cs: &Vec<Vec<char>>, m: usize) -> (r: String)
    requires
        m <= cs@.len(),
    ensures
        r@ == path_text(char_vecs_view(cs@).take(m as int)),
{
    let ghost cv = char_vecs_view(cs@);
    let ghost t = cv.take(m as int);
    let mut r = String::new();
    let abs = m > 0 && cs[0].len() == 1 && cs[0][0] == '/';
    proof {
        if m > 0 {
            assert(t[0] == cs@[0]@);
            if abs {
                assert(cs@[0]@ =~= seq!['/']);
            }
            if t[0] == seq!['/'] {
                assert(cs@[0]@.len() == 1 && cs@[0]@[0] == '/');
            }
        }
    }
    let start: usize = if abs {
        push_char(&mut r, '/');
        1
    } else {
        0
    };
    let ghost names = if abs { t.drop_first() } else { t };
    let ghost head = r@;
    assert(names =~= t.subrange(start as int, m as int));
    assert(names.take(0) =~= Seq::<Seq<char>>::empty());
    let mut i = start;
    while i < m
        invariant
            start <= i <= m <= cs@.len(),
            cv == char_vecs_view(cs@),
            t == cv.take(m as int),
            names == t.subrange(start as int, m as int),
            r@ == head + names_joined(names.take(i - start)),
        decreases m - i,
    {
        let ghost before = names.take(i - start);
        if i > start {
            push_char(&mut r, '/');
        }
        push_chars(&mut r, cs[i].as_slice());
        assert(names[i - start] == cs@[i as int]@);
        assert(names.take(i + 1 - start).drop_last() =~= before);
        assert(names.take(i + 1 - start).last() == cs@[i as int]@);
        proof {
            if i == start {
                assert(before =~= Seq::<Seq<char>>::empty());
                assert(r@ =~= head + names_joined(names.take(i + 1 - start)));
            } else {
                assert(r@ =~= head + (names_joined(before) + seq!['/'] + cs@[i as int]@));
            }
        }
        i = i + 1;
    }
    assert(names.take(m - start) =~= names);
    r
}

/// The ancestors of a path, nearest first (see `ancestors`).
pub fn ancestor_paths(dir: &str) -> (r: Vec<String>)
    ensures
        strings_view(r@) == ancestors(dir@),
{
    let cs = components_of(dir);
    let ghost cv = char_vecs_view(cs@);
    let n = cs.len();
    let abs = n > 0 && cs[0].len() == 1 && cs[0][0] == '/';
    proof {
        if n > 0 {
            if abs {
                assert(cs@[0]@ =~= seq!['/']);
            }
            if cv[0] == seq!['/'] {
                assert(cs@[0]@.len() == 1 && cs@[0]@[0] == '/');
            }
        }
    }
    let mut r: Vec<String> = Vec::new();
    for k in 0..n
        invariant
            cv == char_vecs_view(cs@),
            cv == path_components(dir@),
            n == cs@.len(),
            abs == (n > 0 && cv[0] == seq!['/']),
            strings_view(r@) == ancestors(dir@).take(k as int),
    {
        let a = path_text_of(&cs, n - k);
        let ghost before = strings_view(r@);
        r.push(a);
        assert(strings_view(r@) =~= before.push(ancestor(dir@, k as int)));
        assert(ancestors(dir@).take(k + 1) =~= ancestors(dir@).take(k as int).push(ancestor(dir@, k as int)));
    }
    if !abs {
        let a = path_text_of(&cs, 0);
        let ghost before = strings_view(r@);
        r.push(a);
        assert(strings_view(r@) =~= before.push(ancestor(dir@, n as int)));
        assert(ancestors(dir@).take(n + 1) =~= ancestors(dir@).take(n as int).push(ancestor(dir@, n as int)));
        assert(ancestors(dir@).take(n + 1) =~= ancestors(dir@));
    } else {
        assert(ancestors(dir@).take(n as int) =~= ancestors(dir@));
    }
    r
}

/// The vendoring directories searched in an ancestor directory.
pub open spec fn vendor_dirs(a: Seq<char>) -> Seq<Seq<char>> {
    seq![path_join(a, "vendor"@), path_join(a, "third_party"@), path_join(a, "crates"@), path_join(a, ".cargo"@)]
}

/// The vendoring directories of the first `n` ancestors of a directory, nearest first.
pub open spec fn ancestor_roots(dir: Seq<char>, n: nat) -> Seq<Seq<char>>
    decreases n,
{
    if n == 0 {
        Seq::empty()
    } else {
        ancestor_roots(dir, (n - 1) as nat) + vendor_dirs(ancestor(dir, n - 1))
    }
}

/// How many ancestors are searched.
pub const ANCESTORS_SEARCHED: usize = 8;

/// Cargo's checkouts: under `CARGO_HOME` when it is set, else under `.cargo` in the home
/// directory when that is known.
pub open spec fn cargo_roots(cargo_home: Option<Seq<char>>, home: Option<Seq<char>>) -> Seq<Seq<char>> {
    match cargo_home {
        Some(h) => seq![path_join(path_join(h, "git"@), "checkouts"@), path_join(path_join(h, "registry"@), "src"@)],
        None => match home {
            Some(h) => {
                let c = path_join(h, ".cargo"@);
                seq![path_join(path_join(c, "git"@), "checkouts"@), path_join(path_join(c, "registry"@), "src"@)]
            },
            None => Seq::empty(),
        },
    }
}

/// The directories to search, in the order they are gathered: the roots given (relative
/// ones taken from the crate's directory), the one from the environment, the crate's
/// directory, the vendoring directories of its first eight ancestors, and Cargo's
/// checkouts.
pub open spec fn root_candidates(
    roots: Seq<Seq<char>>,
    env_root: Option<Seq<char>>,
    manifest_dir: Seq<char>,
    cargo_home: Option<Seq<char>>,
    home: Option<Seq<char>>,
) -> Seq<Seq<char>> {
    roots.map_values(|r: Seq<char>| path_join(manifest_dir, r)) + (match env_root {
        Some(e) => seq![e],
        None => Seq::empty(),
    }) + seq![manifest_dir] + ancestor_roots(
        manifest_dir,
        if ancestor_count(manifest_dir) < ANCESTORS_SEARCHED as nat {
            ancestor_count(manifest_dir)
        } else {
            ANCESTORS_SEARCHED as nat
        },
    ) + cargo_roots(cargo_home, home)
}

/// Adds the vendoring directories of an ancestor.
fn push_vendor_dirs(out: &mut Vec<String>, a: &str)
    ensures
        strings_view(final(out)@) == strings_view(old(out)@) + vendor_dirs(a@),
{
    let ghost start = strings_view(out@);
    out.push(join_path(a, "vendor"));
    out.push(join_path(a, "third_party"));
    out.push(join_path(a, "crates"));
    out.push(join_path(a, ".cargo"));
    assert(strings_view(out@) =~= start + vendor_dirs(a@));
}

/// The directories to search, in the order they are gathered (see `root_candidates`).
pub fn search_root_candidates(
    roots: &Vec<String>,
    env_root: Option<&str>,
    manifest_dir: &str,
    cargo_home: Option<&str>,
    home: Option<&str>,
) -> (r: Vec<String>)
    ensures
        strings_view(r@) == root_candidates(
            strings_view(roots@),
            match env_root {
                Some(e) => Some(e@),
                None => None,
            },
            manifest_dir@,
            match cargo_home {
                Some(h) => Some(h@),
                None => None,
            },
            match home {
                Some(h) => Some(h@),
                None => None,
            },
        ),
{
    let ghost rv = strings_view(roots@);
    let mut out: Vec<String> = Vec::new();
    for i in 0..roots.len()
        invariant
            rv == strings_view(roots@),
            strings_view(out@) == rv.take(i as int).map_values(|r: Seq<char>| path_join(manifest_dir@, r)),
    {
        let ghost before = strings_view(out@);
        out.push(join_path(manifest_dir, roots[i].as_str()));
        assert(strings_view(out@) =~= before.push(path_join(manifest_dir@, rv[i as int])));
        assert(rv.take(i + 1).map_values(|r: Seq<char>| path_join(manifest_dir@, r)) =~= rv.take(
            i as int,
        ).map_values(|r: Seq<char>| path_join(manifest_dir@, r)).push(path_join(manifest_dir@, rv[i as int])));
    }
    assert(rv.take(rv.len() as int) =~= rv);
    let ghost s1 = strings_view(out@);
    match env_root {
        Some(e) => out.push(to_owned_string(e)),
        None => {},
    }
    out.push(to_owned_string(manifest_dir));
    let ghost s2 = strings_view(out@);
    assert(s2 =~= s1 + (match env_root {
        Some(e) => seq![e@],
        None => Seq::<Seq<char>>::empty(),
    }) + seq![manifest_dir@]);
    let ups = ancestor_paths(manifest_dir);
    let n = if ups.len() < ANCESTORS_SEARCHED {
        ups.len()
    } else {
        ANCESTORS_SEARCHED
    };
    assert(strings_view(ups@).len() == ancestor_count(manifest_dir@));
    assert(ups@.len() == strings_view(ups@).len());
    for k in 0..n
        invariant
            n <= ups@.len(),
            ups@.len() == ancestor_count(manifest_dir@),
            strings_view(ups@) == ancestors(manifest_dir@),
            strings_view(out@) == s2 + ancestor_roots(manifest_dir@, k as nat),
    {
        assert(strings_view(ups@)[k as int] == ups@[k as int]@);
        assert(k < ancestor_count(manifest_dir@));
        assert(ancestors(manifest_dir@)[k as int] == ancestor(manifest_dir@, k as int));
        assert(ups@[k as int]@ == ancestor(manifest_dir@, k as int));
        push_vendor_dirs(&mut out, ups[k].as_str());
        assert(strings_view(out@) =~= s2 + ancestor_roots(manifest_dir@, (k + 1) as nat));
    }
    let ghost s3 = strings_view(out@);
    match cargo_home {
        Some(h) => {
            let git = join_path(h, "git");
            out.push(join_path(git.as_str(), "checkouts"));
            let registry = join_path(h, "registry");
            out.push(join_path(registry.as_str(), "src"));
        },
        None => match home {
            Some(h) => {
                let c = join_path(h, ".cargo");
                let git = join_path(c.as_str(), "git");
                out.push(join_path(git.as_str(), "checkouts"));
                let registry = join_path(c.as_str(), "registry");
                out.push(join_path(registry.as_str(), "src"));
            },
            None => {},
        },
    }
    assert(strings_view(out@) =~= s3 + cargo_roots(
        match cargo_home {
            Some(h) => Some(h@),
            None => None,
        },
        match home {
            Some(h) => Some(h@),
            None => None,
        },
    ));
    out
}

/// The paths are in increasing order as paths, without two equal paths.
pub open spec fn strictly_ordered(v: Seq<Seq<char>>) -> bool {
    forall|i: int, j: int|
        0 <= i < j < v.len() ==> comps_before(path_components(v[i]), path_components(v[j]))
}

/// `v[i]` is the first of `v` with its components.
pub open spec fn first_of_its_path(v: Seq<Seq<char>>, i: int) -> bool {
    0 <= i < v.len() && forall|j: int| 0 <= j < i ==> path_components(#[trigger] v[j]) != path_components(v[i])
}

/// Some path of `r` has the components `c`.
pub open spec fn has_path(r: Seq<Seq<char>>, c: Seq<Seq<char>>) -> bool {
    exists|i: int| 0 <= i < r.len() && #[trigger] path_components(r[i]) == c
}

/// `p` is the first of `v` with its components.
pub open spec fn is_first_copy(p: Seq<char>, v: Seq<Seq<char>>) -> bool {
    exists|j: int| first_of_its_path(v, j) && #[trigger] v[j] == p
}

/// `r` is `v` sorted as paths with repeats dropped, the first of equal paths kept.
pub open spec fn sorted_distinct_of(r: Seq<Seq<char>>, v: Seq<Seq<char>>) -> bool {
    &&& strictly_ordered(r)
    &&& forall|i: int| 0 <= i < r.len() ==> is_first_copy(#[trigger] r[i], v)
    &&& forall|j: int| 0 <= j < v.len() ==> has_path(r, path_components(#[trigger] v[j]))
}

/// Sorts paths as `Path` orders them and drops repeats, keeping the first of equal paths.
pub fn sorted_distinct_paths(v: &Vec<String>) -> (r: Vec<String>)
    ensures
        sorted_distinct_of(strings_view(r@), strings_view(v@)),
{
    let ghost vv = strings_view(v@);
    let mut r: Vec<String> = Vec::new();
    let mut rc: Vec<Vec<Vec<char>>> = Vec::new();
    for i in 0..v.len()
        invariant
            vv == strings_view(v@),
            vv.len() == v@.len(),
            r@.len() == rc@.len(),
            forall|k: int| 0 <= k < rc@.len() ==> char_vecs_view(#[trigger] rc@[k]@) == path_components(r@[k]@),
            strictly_ordered(strings_view(r@)),
            forall|k: int| 0 <= k < r@.len() ==> is_first_copy(#[trigger] strings_view(r@)[k], vv.take(i as int)),
            forall|j: int| 0 <= j < i ==> has_path(strings_view(r@), path_components(#[trigger] vv[j])),
    {
        let c = components_of(v[i].as_str());
        let ghost cc = path_components(vv[i as int]);
        assert(char_vecs_view(c@) == cc);
        // position of the first kept path not before the new one
        let mut p: usize = 0;
        while p < rc.len() && comps_before_exec(&rc[p], &c)
            invariant
                p <= rc@.len(),
                r@.len() == rc@.len(),
                char_vecs_view(c@) == cc,
                forall|k: int| 0 <= k < rc@.len() ==> char_vecs_view(#[trigger] rc@[k]@) == path_components(r@[k]@),
                forall|k: int| 0 <= k < p ==> comps_before(path_components(#[trigger] r@[k]@), cc),
            decreases rc@.len() - p,
        {
            p = p + 1;
        }
        let ghost rv = strings_view(r@);
        assert(forall|k: int| 0 <= k < r@.len() ==> #[trigger] rv[k] == r@[k]@);
        let same = p < rc.len() && comps_eq(&rc[p], &c);
        if same {
            // the path is kept already
            assert(path_components(rv[p as int]) == cc);
            assert forall|j: int| 0 <= j < i + 1 implies has_path(strings_view(r@), path_components(#[trigger] vv[j])) by {
                if j == i {
                    assert(path_components(strings_view(r@)[p as int]) == path_components(vv[j]));
                }
            }
            assert forall|k: int| 0 <= k < r@.len() implies is_first_copy(#[trigger] strings_view(r@)[k], vv.take(i + 1)) by {
                assert(is_first_copy(strings_view(r@)[k], vv.take(i as int)));
                let j = choose|j: int| first_of_its_path(vv.take(i as int), j) && vv.take(i as int)[j] == strings_view(r@)[k];
                assert(vv.take(i + 1)[j] == vv.take(i as int)[j]);
                assert forall|m: int| 0 <= m < j implies path_components(#[trigger] vv.take(i + 1)[m]) != path_components(
                    vv.take(i + 1)[j],
                ) by {
                    assert(vv.take(i + 1)[m] == vv.take(i as int)[m]);
                }
            }
        } else {
            proof {
                if p < rc@.len() {
                    lemma_comps_before(path_components(rv[p as int]), cc, cc);
                    assert(!comps_before(path_components(rv[p as int]), cc));
                    assert(path_components(rv[p as int]) != cc);
                    assert(comps_before(cc, path_components(rv[p as int])));
                }
            }
            let ghost old_r = rv;
            let ghost old_rc = rc@;
            r.insert(p, to_owned_string(v[i].as_str()));
            rc.insert(p, c);
            assert(strings_view(r@) =~= old_r.insert(p as int, vv[i as int]));
            let ghost nr = strings_view(r@);
            assert forall|k: int| 0 <= k < rc@.len() implies char_vecs_view(#[trigger] rc@[k]@) == path_components(
                r@[k]@,
            ) by {
                if k < p {
                } else if k == p {
                } else {
                    assert(rc@[k] == old_rc[k - 1]);
                }
            }
            assert forall|a: int, b: int| 0 <= a < b < nr.len() implies comps_before(
                path_components(nr[a]),
                path_components(nr[b]),
            ) by {
                if b < p {
                    assert(nr[a] == old_r[a] && nr[b] == old_r[b]);
                } else if b == p {
                    assert(nr[a] == old_r[a]);
                } else if a < p {
                    assert(nr[a] == old_r[a] && nr[b] == old_r[b - 1]);
                    assert(comps_before(path_components(old_r[a]), cc));
                    assert(comps_before(cc, path_components(old_r[p as int])));
                    lemma_comps_before(path_components(old_r[a]), cc, path_components(old_r[p as int]));
                    if b - 1 > p {
                        lemma_comps_before(
                            path_components(old_r[a]),
                            path_components(old_r[p as int]),
                            path_components(old_r[b - 1]),
                        );
                    }
                } else if a == p {
                    assert(nr[b] == old_r[b - 1]);
                    if b - 1 > p {
                        lemma_comps_before(cc, path_components(old_r[p as int]), path_components(old_r[b - 1]));
                    }
                } else {
                    assert(nr[a] == old_r[a - 1] && nr[b] == old_r[b - 1]);
                }
            }
            assert forall|j: int| 0 <= j < i + 1 implies has_path(strings_view(r@), path_components(#[trigger] vv[j])) by {
                if j == i {
                    assert(path_components(strings_view(r@)[p as int]) == path_components(vv[j]));
                } else {
                    assert(has_path(old_r, path_components(vv[j])));
                    let k = choose|k: int| 0 <= k < old_r.len() && path_components(old_r[k]) == path_components(vv[j]);
                    if k < p {
                        assert(nr[k] == old_r[k]);
                    } else {
                        assert(nr[k + 1] == old_r[k]);
                    }
                }
            }
            assert forall|k: int| 0 <= k < r@.len() implies is_first_copy(#[trigger] strings_view(r@)[k], vv.take(i + 1)) by {
                if k == p {
                    assert(nr[k] == vv.take(i + 1)[i as int]);
                    assert forall|m: int| 0 <= m < i implies path_components(#[trigger] vv.take(i + 1)[m]) != path_components(
                        vv.take(i + 1)[i as int],
                    ) by {
                        assert(vv.take(i + 1)[m] == vv[m]);
                        assert(has_path(old_r, path_components(vv[m])));
                        let q = choose|q: int| 0 <= q < old_r.len() && path_components(old_r[q]) == path_components(vv[m]);
                        if path_components(vv[m]) == cc {
                            if q < p {
                                assert(comps_before(path_components(old_r[q]), cc));
                                lemma_comps_before(cc, cc, cc);
                            } else if q == p {
                            } else {
                                lemma_comps_before(cc, path_components(old_r[p as int]), path_components(old_r[q]));
                                lemma_comps_before(cc, cc, cc);
                            }
                        }
                    }
                    assert(first_of_its_path(vv.take(i + 1), i as int));
                } else {
                    let kk = if k < p { k } else { k - 1 };
                    assert(nr[k] == old_r[kk]);
                    assert(is_first_copy(old_r[kk], vv.take(i as int)));
                    let j = choose|j: int| first_of_its_path(vv.take(i as int), j) && vv.take(i as int)[j] == old_r[kk];
                    assert(vv.take(i + 1)[j] == vv.take(i as int)[j]);
                    assert forall|m: int| 0 <= m < j implies path_components(#[trigger] vv.take(i + 1)[m]) != path_components(
                        vv.take(i + 1)[j],
                    ) by {
                        assert(vv.take(i + 1)[m] == vv.take(i as int)[m]);
                    }
                }
            }
        }
    }
    assert(vv.take(vv.len() as int) =~= vv);
    r
}

/// Two sequences of components are equal.
pub(crate) fn comps_eq(a: &Vec<Vec<char>>, b: &Vec<Vec<char>>) -> (r: bool)
    ensures
        r == (char_vecs_view(a@) == char_vecs_view(b@)),
{
    if a.len() != b.len() {
        assert(char_vecs_view(a@).len() != char_vecs_view(b@).len());
        return false;
    }
    for i in 0..a.len()
        invariant
            a@.len() == b@.len(),
            forall|k: int| 0 <= k < i ==> a@[k]@ == b@[k]@,
    {
        if !crate::text::chars_eq(a[i].as_slice(), b[i].as_slice()) {
            assert(char_vecs_view(a@)[i as int] != char_vecs_view(b@)[i as int]);
            return false;
        }
    }
    assert(char_vecs_view(a@) =~= char_vecs_view(b@));
    true
}

/// The directories searched for the source of a mirrored struct: the candidates (see
/// `root_candidates`) ordered as paths, without repeats.
pub fn search_roots(
    roots: &Vec<String>,
    env_root: Option<&str>,
    manifest_dir: &str,
    cargo_home: Option<&str>,
    home: Option<&str>,
) -> (r: Vec<String>)
    ensures
        sorted_distinct_of(
            strings_view(r@),
            root_candidates(
                strings_view(roots@),
                match env_root {
                    Some(e) => Some(e@),
                    None => None,
                },
                manifest_dir@,
                match cargo_home {
                    Some(h) => Some(h@),
                    None => None,
                },
                match home {
                    Some(h) => Some(h@),
                    None => None,
                },
            ),
        ),
{
    let candidates = search_root_candidates(roots, env_root, manifest_dir, cargo_home, home);
    sorted_distinct_paths(&candidates)
}

} // verus!
