//! Choosing the preferred package and the best source file.
use vstd::prelude::*;
use crate::mirror::{opt_text, PackageView, PreferredPackage};
use crate::mirror::cargo_files::{lines_of, lock_scan, manifest_scan, parse_lockfile_package, parse_manifest_dependency};
use crate::mirror::paths::{path_components, path_score};
use crate::rx::sort_order::chars_before;
use crate::text::{chars_of, chars_contains, chars_starts_with, seq_contains, starts_with, strings_view, to_owned_string};

verus! {

/// How precisely a source names where a package comes from: one point for any source, one
/// for a URL, one for a query, two for a fragment (a pinned revision).
pub open spec fn specificity(source: Seq<char>) -> nat {
    (if source.len() > 0 { 1nat } else { 0 }) + (if seq_contains(source, "://"@) { 1nat } else { 0 })
        + (if source.contains('?') { 1nat } else { 0 }) + (if source.contains('#') { 2nat } else { 0 })
}

/// The text of an optional source, empty when there is none.
pub open spec fn or_empty(s: Option<Seq<char>>) -> Seq<char> {
    match s {
        Some(x) => x,
        None => Seq::empty(),
    }
}

/// The kind of a source: `git`, `registry`, `path`, or none.
pub open spec fn kind_of(source: Option<Seq<char>>) -> Seq<char> {
    let s = or_empty(source);
    if starts_with(s, "git+"@) {
        "git"@
    } else if starts_with(s, "registry+"@) {
        "registry"@
    } else if starts_with(s, "path+"@) {
        "path"@
    } else {
        ""@
    }
}

/// How well a lockfile's package agrees with the manifest: its source's specificity, 100
/// more for the same kind of source, 50 more for the same version.
pub open spec fn compatibility(manifest: Option<PackageView>, lock: PackageView) -> nat {
    specificity(or_empty(lock.2)) + match manifest {
        Some(m) => (if kind_of(m.2) == kind_of(lock.2) { 100nat } else { 0 }) + (if m.1 is Some && m.1 == lock.1 {
            50nat
        } else {
            0
        }),
        None => 0,
    }
}

/// Whether `s` holds character `c`.
fn has_char(s: &[char], c: char) -> (r: bool)
    ensures
        r == s@.contains(c),
{
    match crate::text::find_char(s, c, 0) {
        Some(q) => {
            assert(s@[q as int] == c);
            true
        },
        None => false,
    }
}

/// Scores how precisely a source names where a package comes from.
pub fn source_specificity(source: &str) -> (r: usize)
    ensures
        r == specificity(source@),
{
    let sc = chars_of(source);
    let mut score: usize = 0;
    if sc.len() > 0 {
        score += 1;
    }
    let url = chars_of("://");
    if chars_contains(sc.as_slice(), url.as_slice()) {
        score += 1;
    }
    if has_char(sc.as_slice(), '?') {
        score += 1;
    }
    if has_char(sc.as_slice(), '#') {
        score += 2;
    }
    score
}

/// The text of an optional string slice, empty when there is none.
fn or_empty_str(s: Option<&String>) -> (r: &str)
    ensures
        r@ == or_empty(match s {
            Some(x) => Some(x@),
            None => None,
        }),
{
    match s {
        Some(x) => x.as_str(),
        None => {
            proof {
                reveal_strlit("");
            }
            ""
        },
    }
}

/// The kind of a source.
pub fn source_kind(source: Option<&String>) -> (r: &'static str)
    ensures
        r@ == kind_of(match source {
            Some(x) => Some(x@),
            None => None,
        }),
{
    let s = chars_of(or_empty_str(source));
    if chars_starts_with(s.as_slice(), chars_of("git+").as_slice()) {
        "git"
    } else if chars_starts_with(s.as_slice(), chars_of("registry+").as_slice()) {
        "registry"
    } else if chars_starts_with(s.as_slice(), chars_of("path+").as_slice()) {
        "path"
    } else {
        ""
    }
}

/// The candidate source names a package more precisely than the current one.
pub fn preferred_source_is_more_specific(candidate: Option<&String>, current: Option<&String>) -> (r: bool)
    ensures
        r == (specificity(or_empty(match candidate {
            Some(x) => Some(x@),
            None => None,
        })) > specificity(or_empty(match current {
            Some(x) => Some(x@),
            None => None,
        }))),
{
    source_specificity(or_empty_str(candidate)) > source_specificity(or_empty_str(current))
}

/// Whether two optional strings are equal.
fn opt_eq(a: &Option<String>, b: &Option<String>) -> (r: bool)
    ensures
        r == (opt_text(*a) == opt_text(*b)),
{
    match (a, b) {
        (Some(x), Some(y)) => crate::text::str_eq(x.as_str(), y.as_str()),
        (None, None) => true,
        _ => false,
    }
}

/// Scores how well a lockfile's package agrees with the manifest (see `compatibility`).
pub fn lockfile_package_compatibility(manifest_package: Option<&PreferredPackage>, lockfile_package: &PreferredPackage) -> (r: usize)
    ensures
        r == compatibility(
            match manifest_package {
                Some(m) => Some(m.view_package()),
                None => None,
            },
            lockfile_package.view_package(),
        ),
{
    let mut score = source_specificity(or_empty_str(lockfile_package.source.as_ref()));
    if let Some(m) = manifest_package {
        let a = source_kind(m.source.as_ref());
        let b = source_kind(lockfile_package.source.as_ref());
        if crate::text::str_eq(a, b) {
            score += 100;
        }
        if m.version.is_some() && opt_eq(&m.version, &lockfile_package.version) {
            score += 50;
        }
    }
    score
}

/// The lockfile package that agrees best with the manifest among the first `n`; on a tie the
/// later one (as `Iterator::max_by_key` picks).
pub open spec fn best_lock(manifest: Option<PackageView>, locks: Seq<PackageView>, n: int) -> Option<PackageView>
    decreases n,
{
    if n <= 0 {
        None
    } else {
        let x = locks[n - 1];
        match best_lock(manifest, locks, n - 1) {
            None => Some(x),
            Some(y) => if compatibility(manifest, x) >= compatibility(manifest, y) {
                Some(x)
            } else {
                Some(y)
            },
        }
    }
}

/// Only the first `n` packages matter.
proof fn lemma_best_lock_prefix(manifest: Option<PackageView>, s: Seq<PackageView>, x: PackageView, n: int)
    requires
        0 <= n <= s.len(),
    ensures
        best_lock(manifest, s.push(x), n) == best_lock(manifest, s, n),
    decreases n,
{
    if n > 0 {
        lemma_best_lock_prefix(manifest, s, x, n - 1);
        assert(s.push(x)[n - 1] == s[n - 1]);
    }
}

/// The preferred package: the manifest's dependency, completed by the best lockfile
/// package (its version when the manifest gives none, its source when that is more
/// specific); either alone when the other is missing.
pub open spec fn merged(manifest: Option<PackageView>, lock: Option<PackageView>) -> Option<PackageView> {
    match (manifest, lock) {
        (Some(m), Some(l)) => {
            let version = if m.1 is None { l.1 } else { m.1 };
            let source = if specificity(or_empty(l.2)) > specificity(or_empty(m.2)) { l.2 } else { m.2 };
            Some((m.0, version, source))
        },
        (Some(m), None) => Some(m),
        (None, Some(l)) => Some(l),
        (None, None) => None,
    }
}

/// The view of an optional package.
pub open spec fn opt_package_view(p: Option<PreferredPackage>) -> Option<PackageView> {
    match p {
        Some(x) => Some(x.view_package()),
        None => None,
    }
}

/// The lockfile packages found for the crate in the given lockfile texts, in order.
pub open spec fn lock_packages(texts: Seq<Seq<char>>, krate: Seq<char>) -> Seq<PackageView>
    decreases texts.len(),
{
    if texts.len() == 0 {
        Seq::empty()
    } else {
        let rest = lock_packages(texts.drop_last(), krate);
        match lock_scan(lines_of(texts.last()), krate, (false, None, None)) {
            Some(p) => rest.push(p),
            None => rest,
        }
    }
}

/// The package the mirrored struct should come from, from the manifest's text (if there is
/// a manifest) and the texts of the lockfiles found from the manifest's directory upwards.
pub fn resolve_preferred_package(manifest_text: Option<&str>, lockfile_texts: &Vec<String>, crate_name: &str) -> (r: Option<PreferredPackage>)
    ensures
        ({
            let m = match manifest_text {
                Some(t) => manifest_scan(lines_of(t@), crate_name@, false),
                None => None,
            };
            let locks = lock_packages(strings_view(lockfile_texts@), crate_name@);
            match r {
                Some(p) => merged(m, best_lock(m, locks, locks.len() as int)) == Some(p.view_package()),
                None => merged(m, best_lock(m, locks, locks.len() as int)) is None,
            }
        }),
{
    let manifest_package = match manifest_text {
        Some(t) => parse_manifest_dependency(t, crate_name),
        None => None,
    };
    let ghost m = opt_package_view(manifest_package);
    let ghost texts = strings_view(lockfile_texts@);
    let mut best: Option<PreferredPackage> = None;
    let mut best_score: usize = 0;
    let ghost mut locks: Seq<PackageView> = Seq::empty();
    for i in 0..lockfile_texts.len()
        invariant
            texts == strings_view(lockfile_texts@),
            m == opt_package_view(manifest_package),
            locks == lock_packages(texts.take(i as int), crate_name@),
            match best {
                Some(b) => best_lock(m, locks, locks.len() as int) == Some(b.view_package()) && best_score
                    == compatibility(m, b.view_package()),
                None => best_lock(m, locks, locks.len() as int) is None,
            },
    {
        assert(texts.take(i + 1).drop_last() =~= texts.take(i as int));
        assert(texts.take(i + 1).last() == lockfile_texts@[i as int]@);
        match parse_lockfile_package(lockfile_texts[i].as_str(), crate_name) {
            Some(p) => {
                let score = lockfile_package_compatibility(manifest_package.as_ref(), &p);
                proof {
                    lemma_best_lock_prefix(m, locks, p.view_package(), locks.len() as int);
                    locks = locks.push(p.view_package());
                    assert(locks.drop_last() =~= lock_packages(texts.take(i as int), crate_name@));
                }
                let take = match &best {
                    Some(_) => score >= best_score,
                    None => true,
                };
                if take {
                    best = Some(p);
                    best_score = score;
                }
            },
            None => {},
        }
    }
    assert(texts.take(texts.len() as int) =~= texts);
    match (manifest_package, best) {
        (Some(mut manifest), Some(lockfile)) => {
            if manifest.version.is_none() {
                manifest.version = lockfile.version.clone();
            }
            if preferred_source_is_more_specific(lockfile.source.as_ref(), manifest.source.as_ref()) {
                manifest.source = lockfile.source.clone();
            }
            Some(manifest)
        },
        (Some(manifest), None) => Some(manifest),
        (None, Some(lockfile)) => Some(lockfile),
        (None, None) => None,
    }
}

} // verus!
