//! The files found while searching for a mirrored struct's source: each path once, with its
//! score; their ranking; and what the user is told when no single best file exists.
use vstd::prelude::*;
use crate::gui::icons::{decimal, decimal_string_wide};
use crate::mirror::paths::{components_of, path_components};
use crate::mirror::roots::{comps_eq, has_path};
use crate::mirror::source_hits::{comps_before, lemma_comps_before, ranks_above};
use crate::text::{char_vecs_view, push_char, push_str, strings_view, to_owned_string};

verus! {

/// The files found so far: paths, each once as a path, and their scores.
pub struct SourceHits {
    pub paths: Vec<String>,
    pub scores: Vec<i32>,
}

impl SourceHits {
    /// No hit yet.
    pub fn new() -> (r: SourceHits)
        ensures
            r.paths@.len() == 0 && r.scores@.len() == 0,
    {
        SourceHits { paths: Vec::new(), scores: Vec::new() }
    }

    /// Records a hit, unless a hit with the same path (as components) was recorded already;
    /// `true` when it was recorded.
    pub fn record(&mut self, path: &str, score: i32) -> (added: bool)
        requires
            old(self).paths@.len() == old(self).scores@.len(),
        ensures
            final(self).paths@.len() == final(self).scores@.len(),
            added == !has_path(strings_view(old(self).paths@), path_components(path@)),
            added ==> strings_view(final(self).paths@) == strings_view(old(self).paths@).push(path@)
                && final(self).scores@ == old(self).scores@.push(score),
            !added ==> strings_view(final(self).paths@) == strings_view(old(self).paths@)
                && final(self).scores@ == old(self).scores@,
    {
        let c = components_of(path);
        let ghost pv = strings_view(self.paths@);
        for i in 0..self.paths.len()
            invariant
                pv == strings_view(self.paths@),
                self.paths@ == old(self).paths@,
                self.scores@ == old(self).scores@,
                old(self).paths@.len() == old(self).scores@.len(),
                char_vecs_view(c@) == path_components(path@),
                forall|k: int| 0 <= k < i ==> path_components(#[trigger] pv[k]) != path_components(path@),
        {
            let other = components_of(self.paths[i].as_str());
            assert(pv[i as int] == self.paths@[i as int]@);
            if comps_eq(&other, &c) {
                assert(path_components(pv[i as int]) == path_components(path@));
                return false;
            }
        }
        assert(!has_path(pv, path_components(path@)));
        self.paths.push(to_owned_string(path));
        self.scores.push(score);
        assert(strings_view(self.paths@) =~= pv.push(path@));
        true
    }
}

/// `order` lists the hits, each once, best first: no hit ranks above one listed before it.
pub open spec fn is_ranking(scores: Seq<i32>, paths: Seq<Seq<char>>, order: Seq<usize>) -> bool {
    &&& order.len() == scores.len()
    &&& forall|a: int| 0 <= a < order.len() ==> (#[trigger] order[a]) < scores.len()
    &&& forall|a: int, b: int| 0 <= a < b < order.len() ==> order[a] != order[b]
    &&& forall|a: int, b: int|
        0 <= a < b < order.len() ==> !ranks_above(scores, paths, #[trigger] order[b] as int, #[trigger] order[a] as int)
}

/// Ranking is transitive.
proof fn lemma_ranks_transitive(scores: Seq<i32>, paths: Seq<Seq<char>>, x: int, y: int, z: int)
    requires
        ranks_above(scores, paths, x, y),
        ranks_above(scores, paths, y, z),
    ensures
        ranks_above(scores, paths, x, z),
{
    lemma_comps_before(path_components(paths[x]), path_components(paths[y]), path_components(paths[z]));
}

/// Ranks the hits, best first; hits of equal rank keep their order.
pub fn ranked_hits(paths: &Vec<String>, scores: &Vec<i32>) -> (r: Vec<usize>)
    requires
        paths@.len() == scores@.len(),
    ensures
        is_ranking(scores@, strings_view(paths@), r@),
{
    let ghost ps = strings_view(paths@);
    let n = scores.len();
    let mut comps: Vec<Vec<Vec<char>>> = Vec::new();
    for i in 0..n
        invariant
            n == paths@.len(),
            ps == strings_view(paths@),
            comps@.len() == i,
            forall|k: int| 0 <= k < i ==> char_vecs_view(#[trigger] comps@[k]@) == path_components(ps[k]),
    {
        comps.push(components_of(paths[i].as_str()));
    }
    let mut r: Vec<usize> = Vec::new();
    for i in 0..n
        invariant
            n == scores@.len(),
            n == paths@.len(),
            ps == strings_view(paths@),
            comps@.len() == n,
            forall|k: int| 0 <= k < n ==> char_vecs_view(#[trigger] comps@[k]@) == path_components(ps[k]),
            r@.len() == i,
            forall|a: int| 0 <= a < r@.len() ==> (#[trigger] r@[a]) < i,
            forall|a: int, b: int| 0 <= a < b < r@.len() ==> r@[a] != r@[b],
            forall|a: int, b: int|
                0 <= a < b < r@.len() ==> !ranks_above(scores@, ps, #[trigger] r@[b] as int, #[trigger] r@[a] as int),
    {
        let mut p: usize = 0;
        while p < r.len() && !beats(scores, &comps, i, r[p])
            invariant
                n == scores@.len(),
                comps@.len() == n,
                forall|k: int| 0 <= k < n ==> char_vecs_view(#[trigger] comps@[k]@) == path_components(ps[k]),
                i < n,
                p <= r@.len(),
                forall|a: int| 0 <= a < r@.len() ==> (#[trigger] r@[a]) < i,
                forall|q: int| 0 <= q < p ==> !ranks_above(scores@, ps, i as int, #[trigger] r@[q] as int),
            decreases r@.len() - p,
        {
            p = p + 1;
        }
        let ghost old_r = r@;
        r.insert(p, i);
        proof {
            assert forall|a: int| 0 <= a < r@.len() implies (#[trigger] r@[a]) < i + 1 by {
                if a < p {
                    assert(r@[a] == old_r[a]);
                } else if a > p {
                    assert(r@[a] == old_r[a - 1]);
                }
            }
            assert forall|a: int, b: int| 0 <= a < b < r@.len() implies r@[a] != r@[b] by {
                if a < p && b < p {
                    assert(r@[a] == old_r[a] && r@[b] == old_r[b]);
                } else if a < p && b == p {
                    assert(r@[a] == old_r[a]);
                } else if a < p {
                    assert(r@[a] == old_r[a] && r@[b] == old_r[b - 1]);
                } else if a == p {
                    assert(r@[b] == old_r[b - 1]);
                } else {
                    assert(r@[a] == old_r[a - 1] && r@[b] == old_r[b - 1]);
                }
            }
            assert forall|a: int, b: int| 0 <= a < b < r@.len() implies !ranks_above(
                scores@,
                ps,
                #[trigger] r@[b] as int,
                #[trigger] r@[a] as int,
            ) by {
                if a < p && b < p {
                    assert(r@[a] == old_r[a] && r@[b] == old_r[b]);
                } else if a < p && b == p {
                    assert(r@[a] == old_r[a]);
                } else if a < p {
                    assert(r@[a] == old_r[a] && r@[b] == old_r[b - 1]);
                } else if a == p {
                    assert(r@[b] == old_r[b - 1]);
                    assert(ranks_above(scores@, ps, i as int, old_r[p as int] as int));
                    if ranks_above(scores@, ps, old_r[b - 1] as int, i as int) {
                        lemma_ranks_transitive(scores@, ps, old_r[b - 1] as int, i as int, old_r[p as int] as int);
                        if b - 1 > p {
                            assert(!ranks_above(scores@, ps, old_r[b - 1] as int, old_r[p as int] as int));
                        } else {
                            lemma_comps_before(
                                path_components(ps[old_r[p as int] as int]),
                                path_components(ps[old_r[p as int] as int]),
                                path_components(ps[old_r[p as int] as int]),
                            );
                        }
                    }
                } else {
                    assert(r@[a] == old_r[a - 1] && r@[b] == old_r[b - 1]);
                }
            }
        }
    }
    r
}

/// Hit `i` ranks above hit `j` (see `ranks_above`).
fn beats(scores: &Vec<i32>, comps: &Vec<Vec<Vec<char>>>, i: usize, j: usize) -> (r: bool)
    requires
        i < scores@.len(),
        j < scores@.len(),
        comps@.len() == scores@.len(),
    ensures
        r == (scores@[i as int] > scores@[j as int] || (scores@[i as int] == scores@[j as int] && comps_before(
            char_vecs_view(comps@[i as int]@),
            char_vecs_view(comps@[j as int]@),
        ))),
{
    scores[i] > scores[j] || (scores[i] == scores[j] && crate::mirror::source_hits::comps_before_exec(
        &comps[i],
        &comps[j],
    ))
}

/// A number written as `format!("{}")` does.
pub open spec fn signed_decimal(n: int) -> Seq<char> {
    if n < 0 {
        seq!['-'] + decimal((-n) as nat)
    } else {
        decimal(n as nat)
    }
}

/// Text right-aligned in a field of `width` characters (`format!("{:>width$}")`).
pub open spec fn right_aligned(s: Seq<char>, width: nat) -> Seq<char> {
    if s.len() < width {
        Seq::new((width - s.len()) as nat, |i: int| ' ') + s
    } else {
        s
    }
}

/// Writes a score right-aligned in four characters.
fn score_text(score: i32) -> (r: String)
    ensures
        r@ == right_aligned(signed_decimal(score as int), 4),
{
    let digits = if score < 0 {
        let mut s = to_owned_string("-");
        proof {
            reveal_strlit("-");
        }
        let magnitude: u128 = if score == i32::MIN {
            2147483648u128
        } else {
            (-score) as u128
        };
        push_str(&mut s, decimal_string_wide(magnitude).as_str());
        s
    } else {
        decimal_string_wide(score as u128)
    };
    let len = crate::text::chars_of(digits.as_str()).len();
    let mut out = String::new();
    let mut k: usize = len;
    assert(out@ =~= Seq::new((k - len) as nat, |i: int| ' '));
    while k < 4
        invariant
            len <= k,
            k <= 4 || k == len,
            len == digits@.len(),
            out@ == Seq::new((k - len) as nat, |i: int| ' '),
        decreases 4 - k,
    {
        push_char(&mut out, ' ');
        assert(out@ =~= Seq::new((k + 1 - len) as nat, |i: int| ' '));
        k = k + 1;
    }
    push_str(&mut out, digits.as_str());
    proof {
        if len >= 4 {
            assert(out@ =~= digits@);
        }
    }
    out
}

/// The most candidates the message about an ambiguous source lists.
pub const CANDIDATES_LISTED: usize = 8;

/// One line of the candidate list: two spaces, the score right-aligned in four characters,
/// a colon, a space, the path, a newline.
pub open spec fn candidate_line(score: i32, path: Seq<char>) -> Seq<char> {
    "  score "@ + right_aligned(signed_decimal(score as int), 4) + ": "@ + path + "\n"@
}

/// The lines of the first `k` candidates in the given order.
pub open spec fn candidate_lines(scores: Seq<i32>, paths: Seq<Seq<char>>, order: Seq<usize>, k: nat) -> Seq<char>
    decreases k,
{
    if k == 0 {
        Seq::empty()
    } else {
        candidate_lines(scores, paths, order, (k - 1) as nat) + candidate_line(
            scores[order[k - 1] as int],
            paths[order[k - 1] as int],
        )
    }
}

/// The message when two candidates share the best score: the struct's name, a hint, and
/// the first eight candidates, best first.
pub open spec fn ambiguity_text(target_struct: Seq<char>, scores: Seq<i32>, paths: Seq<Seq<char>>, order: Seq<usize>) -> Seq<char> {
    "ambiguous source file for `"@ + target_struct + "`; add `file = \"...\"`. Candidates:\n"@ + candidate_lines(
        scores,
        paths,
        order,
        if order.len() < CANDIDATES_LISTED as nat {
            order.len()
        } else {
            CANDIDATES_LISTED as nat
        },
    )
}

impl SourceHits {
    /// The message when two candidates share the best score (see `ambiguity_text`), listing
    /// them in rank order.
    pub fn ambiguity_message(&self, target_struct: &str) -> (r: String)
        requires
            self.paths@.len() == self.scores@.len(),
        ensures
            exists|order: Seq<usize>|
                is_ranking(self.scores@, strings_view(self.paths@), order) && r@ == #[trigger] ambiguity_text(
                    target_struct@,
                    self.scores@,
                    strings_view(self.paths@),
                    order,
                ),
    {
        let order = ranked_hits(&self.paths, &self.scores);
        let mut m = to_owned_string("ambiguous source file for `");
        push_str(&mut m, target_struct);
        push_str(&mut m, "`; add `file = \"...\"`. Candidates:\n");
        let ghost head = m@;
        let n = if order.len() < CANDIDATES_LISTED {
            order.len()
        } else {
            CANDIDATES_LISTED
        };
        let ghost ps = strings_view(self.paths@);
        for k in 0..n
            invariant
                n <= order@.len(),
                order@.len() == self.scores@.len(),
                self.paths@.len() == self.scores@.len(),
                ps == strings_view(self.paths@),
                forall|a: int| 0 <= a < order@.len() ==> (#[trigger] order@[a]) < self.scores@.len(),
                m@ == head + candidate_lines(self.scores@, ps, order@, k as nat),
        {
            let idx = order[k];
            assert(order@[k as int] < self.scores@.len());
            push_str(&mut m, "  score ");
            push_str(&mut m, score_text(self.scores[idx]).as_str());
            push_str(&mut m, ": ");
            push_str(&mut m, self.paths[idx].as_str());
            push_str(&mut m, "\n");
            assert(ps[idx as int] == self.paths@[idx as int]@);
            assert(m@ =~= head + candidate_lines(self.scores@, ps, order@, (k + 1) as nat));
        }
        assert(m@ =~= ambiguity_text(target_struct@, self.scores@, ps, order@));
        m
    }
}

/// The message when no candidate file holds the struct: its name, and how to name the file
/// or a root instead.
pub open spec fn not_found_text(target_struct: Seq<char>, target_path: Seq<char>) -> Seq<char> {
    "could not find source file for `"@ + target_struct + "`; try `#[mirror_from("@ + target_path
        + ", file = \"path/to/source.rs\")]` or set MIRROR_FROM_ROOT"@
}

/// Segments joined by `::`.
pub open spec fn joined_path(segments: Seq<Seq<char>>) -> Seq<char>
    decreases segments.len(),
{
    if segments.len() == 0 {
        Seq::empty()
    } else if segments.len() == 1 {
        segments[0]
    } else {
        joined_path(segments.drop_last()) + "::"@ + segments.last()
    }
}

/// The message when no candidate file holds the struct (see `not_found_text`).
pub fn not_found_message(target_struct: &str, target_segments: &Vec<String>) -> (r: String)
    ensures
        r@ == not_found_text(target_struct@, joined_path(strings_view(target_segments@))),
{
    let ghost sv = strings_view(target_segments@);
    let mut joined = String::new();
    for i in 0..target_segments.len()
        invariant
            sv == strings_view(target_segments@),
            joined@ == joined_path(sv.take(i as int)),
    {
        let ghost before = sv.take(i as int);
        if i > 0 {
            push_str(&mut joined, "::");
        }
        push_str(&mut joined, target_segments[i].as_str());
        assert(sv.take(i + 1).drop_last() =~= before);
        assert(sv.take(i + 1).last() == target_segments@[i as int]@);
        proof {
            if i == 0 {
                assert(joined@ =~= joined_path(sv.take(1)));
            }
        }
    }
    assert(sv.take(sv.len() as int) =~= sv);
    let mut m = to_owned_string("could not find source file for `");
    push_str(&mut m, target_struct);
    push_str(&mut m, "`; try `#[mirror_from(");
    push_str(&mut m, joined.as_str());
    push_str(&mut m, ", file = \"path/to/source.rs\")]` or set MIRROR_FROM_ROOT");
    m
}

} // verus!
