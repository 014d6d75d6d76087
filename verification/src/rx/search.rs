//! How the children of a container are searched.
use vstd::prelude::*;
use crate::outside::{fold_case, skim_fuzzy_match, skim_fuzzy_matches, unicase_folded};
use crate::rx::rx_container::RxContainedRef;
use crate::rx::rx_db::{value_text_opt, RxDatabase};
use crate::rx::into_container::{entries_in, existing_entries};
use crate::rx::rx_group::RxGroup;
use crate::rx::rx_loader::copy_uuids;
use crate::rx::rx_entry::copy_string;
use crate::outside::{std_to_lowercase, to_lowercase};
use std::rc::Rc;
use crate::rx::rx_entry::{RxEntry, RxValue};
use crate::text::{chars_contains, chars_of, seq_contains, str_eq, to_owned_string};

verus! {

/// The kind of search run on a container's children.
#[derive(Debug, Clone, Copy, PartialEq, Eq, Structural)]
pub enum RxSearchType {
    CaseInsensitive,
    Fuzzy,
}

impl Default for RxSearchType {
    /// Fuzzy search.
    fn default() -> (r: Self)
        ensures
            r == RxSearchType::Fuzzy,
    {
        RxSearchType::Fuzzy
    }
}

/// The name of a search type, as the user interface writes it.
pub open spec fn search_type_name(t: RxSearchType) -> Seq<char> {
    match t {
        RxSearchType::CaseInsensitive => "CaseInsensitive"@,
        RxSearchType::Fuzzy => "Fuzzy"@,
    }
}

/// The search type with the given name, if any.
pub open spec fn search_type_named(s: Seq<char>) -> Option<RxSearchType> {
    if s == "CaseInsensitive"@ {
        Some(RxSearchType::CaseInsensitive)
    } else if s == "Fuzzy"@ {
        Some(RxSearchType::Fuzzy)
    } else {
        None
    }
}

impl RxSearchType {
    /// The name of this search type.
    pub fn to_name(&self) -> (r: String)
        ensures
            r@ == search_type_name(*self),
    {
        match self {
            RxSearchType::CaseInsensitive => to_owned_string("CaseInsensitive"),
            RxSearchType::Fuzzy => to_owned_string("Fuzzy"),
        }
    }

    /// The search type with the given name; any other name is refused.
    pub fn from_name(name: &str) -> (r: RxSearchType)
        requires
            search_type_named(name@) is Some,
        ensures
            search_type_named(name@) == Some(r),
    {
        if str_eq(name, "CaseInsensitive") {
            RxSearchType::CaseInsensitive
        } else {
            RxSearchType::Fuzzy
        }
    }
}

/// Reading back the name of a search type gives the same search type.
pub proof fn lemma_search_type_name_round_trip(t: RxSearchType)
    ensures
        search_type_named(search_type_name(t)) == Some(t),
{
    reveal_strlit("CaseInsensitive");
    reveal_strlit("Fuzzy");
    assert("CaseInsensitive"@.len() != "Fuzzy"@.len());
}


/// The case-folded text holds the (already folded) term; nothing holds it when there is no
/// text.
pub open spec fn folded_contains(text: Option<Seq<char>>, term: Seq<char>) -> bool {
    match text {
        Some(t) => seq_contains(unicase_folded(t), term),
        None => false,
    }
}

/// The case-folded text matches the term fuzzily; nothing matches when there is no text.
pub open spec fn folded_fuzzy(text: Option<Seq<char>>, term: Seq<char>) -> bool {
    match text {
        Some(t) => skim_fuzzy_matches(unicase_folded(t), term),
        None => false,
    }
}

/// What a search of the given type finds in a referenced item, for a case-folded term: an
/// entry by its user name, URL or title (case-folded), a grouping by its name (case-folded
/// for a case-insensitive search, as it is for a fuzzy one); a virtual root always matches.
pub open spec fn ref_matches(r: RxContainedRef, search_type: RxSearchType, term: Seq<char>) -> bool {
    match search_type {
        RxSearchType::CaseInsensitive => match r {
            RxContainedRef::Entry(e) => {
                ||| folded_contains(value_text_opt(e.username), term)
                ||| folded_contains(value_text_opt(e.url), term)
                ||| folded_contains(value_text_opt(e.title), term)
            },
            RxContainedRef::Group(g) => seq_contains(unicase_folded(g.name@), term),
            RxContainedRef::Template(t) => seq_contains(unicase_folded(t.name@), term),
            RxContainedRef::Tag(t) => seq_contains(unicase_folded(t.name@), term),
            RxContainedRef::SavedSearch(x) => seq_contains(unicase_folded(x.name@), term),
            RxContainedRef::VirtualRoot(_) => true,
        },
        RxSearchType::Fuzzy => match r {
            RxContainedRef::Entry(e) => {
                ||| folded_fuzzy(value_text_opt(e.username), term)
                ||| folded_fuzzy(value_text_opt(e.url), term)
                ||| folded_fuzzy(value_text_opt(e.title), term)
            },
            RxContainedRef::Group(g) => skim_fuzzy_matches(g.name@, term),
            RxContainedRef::Template(t) => skim_fuzzy_matches(t.name@, term),
            RxContainedRef::Tag(t) => skim_fuzzy_matches(t.name@, term),
            RxContainedRef::SavedSearch(x) => skim_fuzzy_matches(x.name@, term),
            RxContainedRef::VirtualRoot(_) => true,
        },
    }
}

/// Whether the case-folded text of a value holds the term.
fn value_contains(v: Option<&RxValue>, term: &str) -> (r: bool)
    ensures
        r == folded_contains(
            match v {
                Some(x) => value_text_opt(Some(*x)),
                None => None,
            },
            term@,
        ),
{
    match RxEntry::text_of(v) {
        Some(t) => {
            let folded = fold_case(t.as_str());
            let fc = chars_of(folded.as_str());
            let tc = chars_of(term);
            chars_contains(fc.as_slice(), tc.as_slice())
        },
        None => false,
    }
}

/// Whether the case-folded text of a value matches the term fuzzily.
fn value_fuzzy(v: Option<&RxValue>, term: &str) -> (r: bool)
    ensures
        r == folded_fuzzy(
            match v {
                Some(x) => value_text_opt(Some(*x)),
                None => None,
            },
            term@,
        ),
{
    match RxEntry::text_of(v) {
        Some(t) => {
            let folded = fold_case(t.as_str());
            skim_fuzzy_match(folded.as_str(), term)
        },
        None => false,
    }
}

/// Whether a name, case-folded, holds the term.
fn name_contains(name: &String, term: &str) -> (r: bool)
    ensures
        r == seq_contains(unicase_folded(name@), term@),
{
    let folded = fold_case(name.as_str());
    let fc = chars_of(folded.as_str());
    let tc = chars_of(term);
    chars_contains(fc.as_slice(), tc.as_slice())
}

/// Runs a search of the given type on a referenced item, for a case-folded term.
pub fn search_contained_ref(contained_ref: &RxContainedRef, search_type: RxSearchType, term: &str) -> (r: bool)
    ensures
        r == ref_matches(*contained_ref, search_type, term@),
{
    match search_type {
        RxSearchType::CaseInsensitive => match contained_ref {
            RxContainedRef::Entry(e) => {
                let by_username = value_contains(e.username(), term);
                let by_url = value_contains(e.url(), term);
                let by_title = value_contains(e.title(), term);
                by_username || by_url || by_title
            },
            RxContainedRef::Group(g) => name_contains(&g.name, term),
            RxContainedRef::Template(t) => name_contains(&t.name, term),
            RxContainedRef::Tag(t) => name_contains(&t.name, term),
            RxContainedRef::SavedSearch(x) => name_contains(&x.name, term),
            RxContainedRef::VirtualRoot(_) => true,
        },
        RxSearchType::Fuzzy => match contained_ref {
            RxContainedRef::Entry(e) => {
                let by_username = value_fuzzy(e.username(), term);
                let by_url = value_fuzzy(e.url(), term);
                let by_title = value_fuzzy(e.title(), term);
                by_username || by_url || by_title
            },
            RxContainedRef::Group(g) => skim_fuzzy_match(g.name.as_str(), term),
            RxContainedRef::Template(t) => skim_fuzzy_match(t.name.as_str(), term),
            RxContainedRef::Tag(t) => skim_fuzzy_match(t.name.as_str(), term),
            RxContainedRef::SavedSearch(x) => skim_fuzzy_match(x.name.as_str(), term),
            RxContainedRef::VirtualRoot(_) => true,
        },
    }
}


/// The entries among `es` that a case-insensitive search finds for the term (case-folded
/// first), or all of them without a term, in order.
pub open spec fn entry_hits(es: Seq<Rc<RxEntry>>, term: Option<Seq<char>>) -> Seq<Rc<RxEntry>>
    decreases es.len(),
{
    if es.len() == 0 {
        es
    } else {
        let rest = entry_hits(es.drop_last(), term);
        if term is None || ref_matches(
            RxContainedRef::Entry(es.last()),
            RxSearchType::CaseInsensitive,
            unicase_folded(term->0),
        ) {
            rest.push(es.last())
        } else {
            rest
        }
    }
}

/// The subgroup UUIDs kept by a name filter: without a term all of them; with one, those of
/// groups the database holds whose lower-cased name holds the term as it is.
pub open spec fn kept_subgroups(db: RxDatabase, ids: Seq<u128>, term: Option<Seq<char>>) -> Seq<u128>
    decreases ids.len(),
{
    if ids.len() == 0 {
        ids
    } else {
        let rest = kept_subgroups(db, ids.drop_last(), term);
        let keep = match term {
            None => true,
            Some(t) => match db.group_with(ids.last()) {
                Some(g) => seq_contains(std_to_lowercase(g.name@), t),
                None => false,
            },
        };
        if keep {
            rest.push(ids.last())
        } else {
            rest
        }
    }
}

impl RxDatabase {
    /// The entries of the group with the given UUID that a case-insensitive search finds
    /// (all of them without a term), in the group's order; none when there is no such group.
    pub fn get_entries(&self, group_uuid: u128, search_term: Option<&str>) -> (r: Vec<Rc<RxEntry>>)
        requires
            self.wf(),
        ensures
            r@ == match self.group_with(group_uuid) {
                Some(g) => entry_hits(
                    entries_in(*self, g.entries@),
                    match search_term {
                        Some(t) => Some(t@),
                        None => None,
                    },
                ),
                None => Seq::empty(),
            },
    {
        let ghost raw = match search_term {
            Some(t) => Some(t@),
            None => None,
        };
        let term = match search_term {
            Some(t) => Some(fold_case(t)),
            None => None,
        };
        match self.get_group(group_uuid) {
            Some(group) => {
                let es = existing_entries(self, &group.entries);
                let mut r: Vec<Rc<RxEntry>> = Vec::new();
                for i in 0..es.len()
                    invariant
                        match raw {
                            Some(t) => term matches Some(f) && f@ == unicase_folded(t),
                            None => term is None,
                        },
                        r@ == entry_hits(es@.take(i as int), raw),
                {
                    assert(es@.take(i + 1).drop_last() =~= es@.take(i as int));
                    let keep = match &term {
                        Some(t) => search_contained_ref(
                            &RxContainedRef::Entry(es[i].clone()),
                            RxSearchType::CaseInsensitive,
                            t.as_str(),
                        ),
                        None => true,
                    };
                    if keep {
                        r.push(es[i].clone());
                    }
                }
                assert(es@.take(es@.len() as int) =~= es@);
                r
            },
            None => Vec::new(),
        }
    }

    /// A copy of the group with the given UUID whose subgroups are only those whose
    /// lower-cased name holds the term (all of them without a term).
    pub fn get_group_filter_subgroups(&self, group_uuid: u128, search_term: Option<&str>) -> (r: Option<RxGroup>)
        requires
            self.wf(),
        ensures
            match self.group_with(group_uuid) {
                Some(g) => r matches Some(x) && x.uuid == g.uuid && x.parent == g.parent && x.name@
                    == g.name@ && x.icon@ == g.icon@ && x.entries@ == g.entries@ && x.subgroups@
                    == kept_subgroups(
                    *self,
                    g.subgroups@,
                    match search_term {
                        Some(t) => Some(t@),
                        None => None,
                    },
                ),
                None => r is None,
            },
    {
        let ghost raw = match search_term {
            Some(t) => Some(t@),
            None => None,
        };
        match self.get_group(group_uuid) {
            Some(group) => {
                let mut kept: Vec<u128> = Vec::new();
                for i in 0..group.subgroups.len()
                    invariant
                        self.wf(),
                        raw == match search_term {
                            Some(t) => Some(t@),
                            None => None::<Seq<char>>,
                        },
                        kept@ == kept_subgroups(*self, group.subgroups@.take(i as int), raw),
                {
                    assert(group.subgroups@.take(i + 1).drop_last() =~= group.subgroups@.take(i as int));
                    let keep = match search_term {
                        None => true,
                        Some(t) => match self.get_group(group.subgroups[i]) {
                            Some(sub) => {
                                let lowered = to_lowercase(sub.name.as_str());
                                let lc = chars_of(lowered.as_str());
                                let tc = chars_of(t);
                                chars_contains(lc.as_slice(), tc.as_slice())
                            },
                            None => false,
                        },
                    };
                    if keep {
                        kept.push(group.subgroups[i]);
                    }
                }
                assert(group.subgroups@.take(group.subgroups@.len() as int) =~= group.subgroups@);
                Some(RxGroup {
                    uuid: group.uuid,
                    parent: group.parent,
                    name: copy_string(&group.name),
                    icon: group.icon.duplicate(),
                    subgroups: kept,
                    entries: copy_uuids(&group.entries),
                })
            },
            None => None,
        }
    }
}

} // verus!

verus! {

/// A search finds an entry by its user name, its URL or its title, and by nothing else: a
/// fuzzy search when one of these texts, case-folded, fuzzy-matches the term, and a
/// case-insensitive search when one of them, case-folded, holds the term.
pub proof fn lemma_entry_found_by_username_url_or_title(e: Rc<RxEntry>, term: Seq<char>)
    ensures
        value_text_opt(e.title) matches Some(t) && skim_fuzzy_matches(unicase_folded(t), term) ==> ref_matches(
            RxContainedRef::Entry(e),
            RxSearchType::Fuzzy,
            term,
        ),
        value_text_opt(e.username) matches Some(t) && skim_fuzzy_matches(unicase_folded(t), term) ==> ref_matches(
            RxContainedRef::Entry(e),
            RxSearchType::Fuzzy,
            term,
        ),
        value_text_opt(e.url) matches Some(t) && skim_fuzzy_matches(unicase_folded(t), term) ==> ref_matches(
            RxContainedRef::Entry(e),
            RxSearchType::Fuzzy,
            term,
        ),
        ref_matches(RxContainedRef::Entry(e), RxSearchType::Fuzzy, term) ==> {
            ||| value_text_opt(e.title) matches Some(t) && skim_fuzzy_matches(unicase_folded(t), term)
            ||| value_text_opt(e.username) matches Some(t) && skim_fuzzy_matches(unicase_folded(t), term)
            ||| value_text_opt(e.url) matches Some(t) && skim_fuzzy_matches(unicase_folded(t), term)
        },
        value_text_opt(e.title) matches Some(t) && seq_contains(unicase_folded(t), term) ==> ref_matches(
            RxContainedRef::Entry(e),
            RxSearchType::CaseInsensitive,
            term,
        ),
        value_text_opt(e.username) matches Some(t) && seq_contains(unicase_folded(t), term) ==> ref_matches(
            RxContainedRef::Entry(e),
            RxSearchType::CaseInsensitive,
            term,
        ),
        value_text_opt(e.url) matches Some(t) && seq_contains(unicase_folded(t), term) ==> ref_matches(
            RxContainedRef::Entry(e),
            RxSearchType::CaseInsensitive,
            term,
        ),
        ref_matches(RxContainedRef::Entry(e), RxSearchType::CaseInsensitive, term) ==> {
            ||| value_text_opt(e.title) matches Some(t) && seq_contains(unicase_folded(t), term)
            ||| value_text_opt(e.username) matches Some(t) && seq_contains(unicase_folded(t), term)
            ||| value_text_opt(e.url) matches Some(t) && seq_contains(unicase_folded(t), term)
        },
{
}

/// Searching a list of entries with a term keeps exactly the entries that a
/// case-insensitive search finds for the case-folded term, and nothing from elsewhere.
pub proof fn lemma_entry_hits_are_found_entries(es: Seq<Rc<RxEntry>>, term: Seq<char>)
    ensures
        forall|i: int|
            0 <= i < entry_hits(es, Some(term)).len() ==> es.contains(#[trigger] entry_hits(es, Some(term))[i])
                && ref_matches(
                RxContainedRef::Entry(entry_hits(es, Some(term))[i]),
                RxSearchType::CaseInsensitive,
                unicase_folded(term),
            ),
        forall|j: int|
            0 <= j < es.len() ==> (entry_hits(es, Some(term)).contains(#[trigger] es[j]) <==> ref_matches(
                RxContainedRef::Entry(es[j]),
                RxSearchType::CaseInsensitive,
                unicase_folded(term),
            )),
    decreases es.len(),
{
    let hits = entry_hits(es, Some(term));
    if es.len() > 0 {
        let init = es.drop_last();
        lemma_entry_hits_are_found_entries(init, term);
        let rest = entry_hits(init, Some(term));
        assert forall|i: int| 0 <= i < hits.len() implies es.contains(#[trigger] hits[i]) && ref_matches(
            RxContainedRef::Entry(hits[i]),
            RxSearchType::CaseInsensitive,
            unicase_folded(term),
        ) by {
            if i < rest.len() {
                assert(hits[i] == rest[i]);
                let k = choose|k: int| 0 <= k < init.len() && init[k] == rest[i];
                assert(es[k] == init[k]);
            } else {
                assert(hits[i] == es.last());
                assert(es[es.len() - 1] == es.last());
            }
        }
        assert forall|j: int| 0 <= j < es.len() implies (hits.contains(#[trigger] es[j]) <==> ref_matches(
            RxContainedRef::Entry(es[j]),
            RxSearchType::CaseInsensitive,
            unicase_folded(term),
        )) by {
            let m = ref_matches(RxContainedRef::Entry(es[j]), RxSearchType::CaseInsensitive, unicase_folded(term));
            if hits.contains(es[j]) {
                let i = choose|i: int| 0 <= i < hits.len() && hits[i] == es[j];
                assert(es.contains(hits[i]));
            }
            if m {
                if j < es.len() - 1 {
                    assert(es[j] == init[j]);
                    assert(rest.contains(init[j]));
                    let i = choose|i: int| 0 <= i < rest.len() && rest[i] == init[j];
                    assert(hits[i] == rest[i]);
                } else {
                    assert(es[j] == es.last());
                    assert(hits[hits.len() - 1] == es.last());
                }
            }
        }
    }
}

/// Searching a list of entries is case-insensitive in the term: two terms with the same
/// case folding (such as `Test` and `test`) keep the same entries.
pub proof fn lemma_entry_hits_ignore_term_case(es: Seq<Rc<RxEntry>>, a: Seq<char>, b: Seq<char>)
    requires
        unicase_folded(a) == unicase_folded(b),
    ensures
        entry_hits(es, Some(a)) == entry_hits(es, Some(b)),
    decreases es.len(),
{
    if es.len() > 0 {
        lemma_entry_hits_ignore_term_case(es.drop_last(), a, b);
    }
}

} // verus!

verus! {

/// A search finds a group, template, tag or saved search by its name alone: a
/// case-insensitive search when the case-folded name holds the term, a fuzzy search when the
/// name fuzzy-matches it. A virtual root is always found.
pub proof fn lemma_named_items_found_by_name(r: RxContainedRef, term: Seq<char>)
    ensures
        r matches RxContainedRef::Group(g) ==> (ref_matches(r, RxSearchType::CaseInsensitive, term) <==> seq_contains(
            unicase_folded(g.name@),
            term,
        )) && (ref_matches(r, RxSearchType::Fuzzy, term) <==> skim_fuzzy_matches(g.name@, term)),
        r matches RxContainedRef::Template(x) ==> (ref_matches(r, RxSearchType::CaseInsensitive, term) <==> seq_contains(
            unicase_folded(x.name@),
            term,
        )) && (ref_matches(r, RxSearchType::Fuzzy, term) <==> skim_fuzzy_matches(x.name@, term)),
        r matches RxContainedRef::Tag(x) ==> (ref_matches(r, RxSearchType::CaseInsensitive, term) <==> seq_contains(
            unicase_folded(x.name@),
            term,
        )) && (ref_matches(r, RxSearchType::Fuzzy, term) <==> skim_fuzzy_matches(x.name@, term)),
        r matches RxContainedRef::SavedSearch(x) ==> (ref_matches(r, RxSearchType::CaseInsensitive, term)
            <==> seq_contains(unicase_folded(x.name@), term)) && (ref_matches(r, RxSearchType::Fuzzy, term)
            <==> skim_fuzzy_matches(x.name@, term)),
        r is VirtualRoot ==> ref_matches(r, RxSearchType::CaseInsensitive, term) && ref_matches(
            r,
            RxSearchType::Fuzzy,
            term,
        ),
{
}

/// Filtering subgroups by name keeps, in order, the UUIDs of exactly those subgroups that
/// the database holds and whose lower-cased name holds the term; without a term it keeps
/// them all.
pub proof fn lemma_kept_subgroups_are_matching_groups(db: RxDatabase, ids: Seq<u128>, term: Option<Seq<char>>)
    ensures
        term is None ==> kept_subgroups(db, ids, term) == ids,
        forall|i: int|
            0 <= i < kept_subgroups(db, ids, term).len() ==> ids.contains(#[trigger] kept_subgroups(db, ids, term)[i])
                && (term matches Some(t) ==> db.group_with(kept_subgroups(db, ids, term)[i]) matches Some(g)
                && seq_contains(std_to_lowercase(g.name@), t)),
        term matches Some(t) ==> forall|j: int|
            0 <= j < ids.len() && (db.group_with(#[trigger] ids[j]) matches Some(g) && seq_contains(
                std_to_lowercase(g.name@),
                t,
            )) ==> kept_subgroups(db, ids, term).contains(ids[j]),
    decreases ids.len(),
{
    let r = kept_subgroups(db, ids, term);
    if ids.len() > 0 {
        let init = ids.drop_last();
        lemma_kept_subgroups_are_matching_groups(db, init, term);
        let rest = kept_subgroups(db, init, term);
        if term is None {
            assert(r == rest.push(ids.last()));
            assert(ids == init.push(ids.last()));
        }
        assert forall|i: int| 0 <= i < r.len() implies ids.contains(#[trigger] r[i]) && (term matches Some(t)
            ==> db.group_with(r[i]) matches Some(g) && seq_contains(std_to_lowercase(g.name@), t)) by {
            if i < rest.len() {
                assert(r[i] == rest[i]);
                let k = choose|k: int| 0 <= k < init.len() && init[k] == rest[i];
                assert(ids[k] == init[k]);
            } else {
                assert(ids[ids.len() - 1] == ids.last());
            }
        }
        if term is Some {
            let t = term->0;
            assert forall|j: int|
                0 <= j < ids.len() && (db.group_with(#[trigger] ids[j]) matches Some(g) && seq_contains(
                    std_to_lowercase(g.name@),
                    t,
                )) implies r.contains(ids[j]) by {
                if j < ids.len() - 1 {
                    assert(ids[j] == init[j]);
                    let i = choose|i: int| 0 <= i < rest.len() && rest[i] == init[j];
                    assert(r[i] == rest[i]);
                } else {
                    assert(r[r.len() - 1] == ids.last());
                }
            }
        }
    }
}

} // verus!
