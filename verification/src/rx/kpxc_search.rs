//! The KeePassXC-style variant of the saved-search query language: a negated term asks
//! that some value not contain it, and fields have short aliases.
use vstd::prelude::*;
use std::rc::Rc;
use crate::outside::{regex_ci_compiles, regex_ci_is_match, std_to_lowercase, to_lowercase, CaseInsensitiveRegex};
use crate::rx::keepass_query::{
    group_name_list, normalized, normalized_spec, parse_token_spec, status_list, tokenize,
    tokenize_spec, value_list, TokenSpec,
};
use crate::rx::rx_db::{value_text_opt, RxDatabase};
use crate::rx::rx_entry::{copy_string, RxEntry, RxValue};
use crate::text::{chars_contains, chars_eq, chars_of, seq_contains, strings_view, to_owned_string};
use crate::uuid_text::{uuid_hyphenated, uuid_to_string};

verus! {

/// How a token's term is matched.
pub enum QueryTokenTerm {
    Basic(String),
    Regex(String),
    Negated(String),
}

/// A parsed token: an optional operator (field) and the term.
pub struct QueryToken {
    pub operator: Option<String>,
    pub term: QueryTokenTerm,
}

/// The content of a term.
pub enum TermSpec {
    Basic(Seq<char>),
    Regex(Seq<char>),
    Negated(Seq<char>),
}

/// The content of a parsed token.
pub struct KpxcTokenSpec {
    pub operator: Option<Seq<char>>,
    pub term: TermSpec,
}

impl QueryToken {
    /// The token's content.
    pub open spec fn view(&self) -> KpxcTokenSpec {
        KpxcTokenSpec {
            operator: match self.operator {
                Some(f) => Some(f@),
                None => None,
            },
            term: match self.term {
                QueryTokenTerm::Basic(t) => TermSpec::Basic(t@),
                QueryTokenTerm::Regex(t) => TermSpec::Regex(t@),
                QueryTokenTerm::Negated(t) => TermSpec::Negated(t@),
            },
        }
    }
}

/// A parsed token in this variant: a `*` modifier makes the term a regular expression,
/// otherwise a `-` modifier negates it.
pub open spec fn kpxc_token_spec(t: TokenSpec) -> KpxcTokenSpec {
    KpxcTokenSpec {
        operator: t.field,
        term: if t.is_regex {
            TermSpec::Regex(t.term)
        } else if t.is_negated {
            TermSpec::Negated(t.term)
        } else {
            TermSpec::Basic(t.term)
        },
    }
}

/// Parses one token of a query.
pub fn parse_token(token: &str) -> (r: Option<QueryToken>)
    ensures
        match r {
            Some(q) => parse_token_spec(token@) matches Some(t) && q.view() == kpxc_token_spec(t),
            None => parse_token_spec(token@) is None,
        },
{
    match crate::rx::keepass_query::parse_token(token) {
        Some(t) => {
            let term = if t.is_regex {
                QueryTokenTerm::Regex(t.term)
            } else if t.is_negated {
                QueryTokenTerm::Negated(t.term)
            } else {
                QueryTokenTerm::Basic(t.term)
            };
            Some(QueryToken { operator: t.field, term })
        },
        None => None,
    }
}

/// The values an entry offers for an operator, after Unicode lower-casing it.
pub open spec fn operator_field_spec(db: RxDatabase, e: RxEntry, op: Seq<char>) -> Seq<Seq<char>> {
    let o = std_to_lowercase(op);
    if o == "title"@ || o == "t"@ {
        value_list(e.title)
    } else if o == "user"@ || o == "u"@ {
        value_list(e.username)
    } else if o == "url"@ {
        value_list(e.url)
    } else if o == "notes"@ || o == "n"@ {
        value_list(e.notes)
    } else if o == "password"@ || o == "p"@ || o == "pw"@ {
        value_list(e.password)
    } else if o == "group"@ || o == "g"@ {
        group_name_list(db, e)
    } else if o == "tag"@ || o == "tags"@ {
        strings_view(e.tags@)
    } else if o == "uuid"@ {
        seq![uuid_hyphenated(e.uuid)]
    } else if o == "is"@ {
        status_list(e)
    } else {
        Seq::empty()
    }
}

/// The values an entry offers to a term without an operator: title, user name, URL, notes,
/// group name, then tags.
pub open spec fn default_fields_spec(db: RxDatabase, e: RxEntry) -> Seq<Seq<char>> {
    crate::rx::keepass_query::default_fields_spec(db, e)
}

/// A term matches one value.
pub open spec fn term_matches_spec(t: TermSpec, value: Seq<char>) -> bool {
    match t {
        TermSpec::Regex(r) => regex_ci_compiles(r) && regex_ci_is_match(r, value),
        TermSpec::Negated(n) => !seq_contains(normalized_spec(value), normalized_spec(n)),
        TermSpec::Basic(b) => seq_contains(normalized_spec(value), normalized_spec(b)),
    }
}

/// The values a token looks at in an entry.
pub open spec fn haystack_spec(db: RxDatabase, e: RxEntry, t: KpxcTokenSpec) -> Seq<Seq<char>> {
    match t.operator {
        Some(op) => operator_field_spec(db, e, op),
        None => default_fields_spec(db, e),
    }
}

/// A token accepts an entry when its term matches some value it looks at.
pub open spec fn token_accepts(db: RxDatabase, e: RxEntry, t: KpxcTokenSpec) -> bool {
    exists|i: int|
        0 <= i < haystack_spec(db, e, t).len() && term_matches_spec(
            t.term,
            #[trigger] haystack_spec(db, e, t)[i],
        )
}

/// An entry matches when every token accepts it.
pub open spec fn entry_matches_spec(db: RxDatabase, e: RxEntry, toks: Seq<KpxcTokenSpec>) -> bool {
    forall|i: int| 0 <= i < toks.len() ==> token_accepts(db, e, #[trigger] toks[i])
}

/// The parsed tokens of a query, leaving out those that do not parse.
pub open spec fn parsed_tokens(raw: Seq<Seq<char>>) -> Seq<KpxcTokenSpec>
    decreases raw.len(),
{
    if raw.len() == 0 {
        Seq::empty()
    } else {
        let rest = parsed_tokens(raw.drop_last());
        match parse_token_spec(raw.last()) {
            Some(t) => rest.push(kpxc_token_spec(t)),
            None => rest,
        }
    }
}

/// The UUIDs of the entries among `es` that match the tokens, in order.
pub open spec fn matching_uuids(db: RxDatabase, es: Seq<Rc<RxEntry>>, toks: Seq<KpxcTokenSpec>) -> Seq<u128>
    decreases es.len(),
{
    if es.len() == 0 {
        Seq::empty()
    } else {
        let rest = matching_uuids(db, es.drop_last(), toks);
        if entry_matches_spec(db, *es.last(), toks) {
            rest.push(es.last().uuid)
        } else {
            rest
        }
    }
}

/// The result of a saved search: nothing for a query without tokens, else the UUIDs of the
/// matching entries in database order.
pub open spec fn saved_search_result(db: RxDatabase, query: Seq<char>) -> Seq<u128> {
    let toks = parsed_tokens(tokenize_spec(query));
    if toks.len() == 0 {
        Seq::empty()
    } else {
        matching_uuids(db, db.entries@, toks)
    }
}

/// The content of a list of parsed tokens.
pub open spec fn tokens_view(v: Seq<QueryToken>) -> Seq<KpxcTokenSpec> {
    v.map_values(|t: QueryToken| t.view())
}

fn push_text(out: &mut Vec<String>, v: &Option<RxValue>)
    ensures
        strings_view(final(out)@) == strings_view(old(out)@) + value_list(*v),
{
    let ghost before = out@;
    let r = match v {
        Some(x) => x.value(),
        None => None,
    };
    match r {
        Some(t) => {
            out.push(t);
        },
        None => {},
    }
    assert(strings_view(out@) =~= strings_view(before) + value_list(*v));
}

/// The values an entry offers for an operator.
pub fn operator_field(entry: &RxEntry, op: &str, db: &RxDatabase) -> (r: Vec<String>)
    requires
        db.wf(),
    ensures
        strings_view(r@) == operator_field_spec(*db, *entry, op@),
{
    let lower = to_lowercase(op);
    let o = chars_of(lower.as_str());
    let o = o.as_slice();
    let mut out: Vec<String> = Vec::new();
    assert(strings_view(out@) =~= Seq::<Seq<char>>::empty());
    if chars_eq(o, chars_of("title").as_slice()) || chars_eq(o, chars_of("t").as_slice()) {
        push_text(&mut out, &entry.title);
    } else if chars_eq(o, chars_of("user").as_slice()) || chars_eq(o, chars_of("u").as_slice()) {
        push_text(&mut out, &entry.username);
    } else if chars_eq(o, chars_of("url").as_slice()) {
        push_text(&mut out, &entry.url);
    } else if chars_eq(o, chars_of("notes").as_slice()) || chars_eq(o, chars_of("n").as_slice()) {
        push_text(&mut out, &entry.notes);
    } else if chars_eq(o, chars_of("password").as_slice()) || chars_eq(o, chars_of("p").as_slice())
        || chars_eq(o, chars_of("pw").as_slice()) {
        push_text(&mut out, &entry.password);
    } else if chars_eq(o, chars_of("group").as_slice()) || chars_eq(o, chars_of("g").as_slice()) {
        let ghost before = out@;
        match db.get_group(entry.parent_group) {
            Some(g) => {
                out.push(copy_string(&g.name));
            },
            None => {},
        }
        assert(strings_view(out@) =~= strings_view(before) + group_name_list(*db, *entry));
    } else if chars_eq(o, chars_of("tag").as_slice()) || chars_eq(o, chars_of("tags").as_slice()) {
        out = crate::rx::rx_entry::copy_strings(&entry.tags);
    } else if chars_eq(o, chars_of("uuid").as_slice()) {
        out.push(uuid_to_string(entry.uuid));
        assert(strings_view(out@) =~= seq![uuid_hyphenated(entry.uuid)]);
    } else if chars_eq(o, chars_of("is").as_slice()) {
        if entry.is_expired() {
            out.push(to_owned_string("expired"));
        }
        if entry.is_password_weak() {
            out.push(to_owned_string("weak"));
        }
        assert(strings_view(out@) =~= status_list(*entry));
    }
    out
}

/// Tells whether a term matches one value.
pub fn term_matches(token: &QueryToken, value: &str) -> (b: bool)
    ensures
        b == term_matches_spec(token.view().term, value@),
{
    match &token.term {
        QueryTokenTerm::Regex(r) => match CaseInsensitiveRegex::build(r.as_str()) {
            Some(re) => re.is_match(value),
            None => false,
        },
        QueryTokenTerm::Negated(t) => {
            let v = normalized(value);
            let t = normalized(t.as_str());
            !chars_contains(chars_of(v.as_str()).as_slice(), chars_of(t.as_str()).as_slice())
        },
        QueryTokenTerm::Basic(t) => {
            let v = normalized(value);
            let t = normalized(t.as_str());
            chars_contains(chars_of(v.as_str()).as_slice(), chars_of(t.as_str()).as_slice())
        },
    }
}

/// Tells whether every token accepts the entry.
pub fn entry_matches(db: &RxDatabase, entry: &RxEntry, tokens: &Vec<QueryToken>) -> (b: bool)
    requires
        db.wf(),
    ensures
        b == entry_matches_spec(*db, *entry, tokens_view(tokens@)),
{
    let n = tokens.len();
    for i in 0..n
        invariant
            n == tokens@.len(),
            db.wf(),
            forall|k: int| 0 <= k < i ==> token_accepts(*db, *entry, tokens@[k].view()),
    {
        let token = &tokens[i];
        let haystack = match &token.operator {
            Some(op) => operator_field(entry, op.as_str(), db),
            None => crate::rx::keepass_query::entry_default_fields(entry, db),
        };
        let ghost hs = haystack_spec(*db, *entry, token.view());
        assert(strings_view(haystack@) == hs);
        let m = haystack.len();
        let mut found = false;
        let mut j: usize = 0;
        while j < m
            invariant
                m == haystack@.len(),
                j <= m,
                strings_view(haystack@) == hs,
                found == exists|q: int|
                    0 <= q < j && term_matches_spec(token.view().term, #[trigger] hs[q]),
            decreases m - j,
        {
            if term_matches(token, haystack[j].as_str()) {
                found = true;
            }
            assert(hs[j as int] == haystack@[j as int]@);
            j = j + 1;
        }
        if !found {
            assert(!token_accepts(*db, *entry, tokens_view(tokens@)[i as int]));
            return false;
        }
    }
    assert forall|k: int| 0 <= k < tokens_view(tokens@).len() implies token_accepts(
        *db,
        *entry,
        #[trigger] tokens_view(tokens@)[k],
    ) by {
        assert(tokens_view(tokens@)[k] == tokens@[k].view());
    }
    true
}

/// Runs a saved-search query over all entries of the database and gives the UUIDs of
/// those that match, in database order.
pub fn evaluate_saved_search(db: &RxDatabase, query: &str) -> (r: Vec<u128>)
    requires
        db.wf(),
    ensures
        r@ == saved_search_result(*db, query@),
{
    let raw = tokenize(query);
    let mut tokens: Vec<QueryToken> = Vec::new();
    let n = raw.len();
    assert(tokens_view(tokens@) =~= parsed_tokens(strings_view(raw@).take(0)));
    for i in 0..n
        invariant
            n == raw@.len(),
            tokens_view(tokens@) == parsed_tokens(strings_view(raw@).take(i as int)),
    {
        assert(strings_view(raw@).take(i + 1).drop_last() =~= strings_view(raw@).take(i as int));
        assert(strings_view(raw@).take(i + 1).last() == raw@[i as int]@);
        let ghost before = tokens@;
        match parse_token(raw[i].as_str()) {
            Some(t) => {
                tokens.push(t);
                assert(tokens_view(tokens@) =~= tokens_view(before).push(tokens@.last().view()));
            },
            None => {},
        }
    }
    assert(strings_view(raw@).take(n as int) =~= strings_view(raw@));
    let mut out: Vec<u128> = Vec::new();
    if tokens.len() == 0 {
        return out;
    }
    let entries = db.all_entries();
    let m = entries.len();
    assert(out@ =~= matching_uuids(*db, entries@.take(0), tokens_view(tokens@)));
    for j in 0..m
        invariant
            m == entries@.len(),
            entries == &db.entries,
            db.wf(),
            out@ == matching_uuids(*db, entries@.take(j as int), tokens_view(tokens@)),
    {
        assert(entries@.take(j + 1).drop_last() =~= entries@.take(j as int));
        let e = &entries[j];
        if entry_matches(db, e, &tokens) {
            out.push(e.uuid);
        }
    }
    assert(entries@.take(m as int) =~= entries@);
    out
}

} // verus!

verus! {

/// The operator names that come before `password` differ from one another.
proof fn lemma_operator_names_differ()
    ensures
        "title"@ != "user"@, "title"@ != "u"@, "title"@ != "url"@, "title"@ != "notes"@, "title"@ != "n"@,
        "title"@ != "password"@, "title"@ != "p"@, "title"@ != "pw"@,
        "t"@ != "user"@, "t"@ != "u"@, "t"@ != "url"@, "t"@ != "notes"@, "t"@ != "n"@, "t"@ != "password"@,
        "t"@ != "p"@, "t"@ != "pw"@,
        "user"@ != "url"@, "user"@ != "notes"@, "user"@ != "n"@, "user"@ != "password"@, "user"@ != "p"@,
        "user"@ != "pw"@,
        "u"@ != "url"@, "u"@ != "notes"@, "u"@ != "n"@, "u"@ != "password"@, "u"@ != "p"@, "u"@ != "pw"@,
        "url"@ != "notes"@, "url"@ != "n"@, "url"@ != "password"@, "url"@ != "p"@, "url"@ != "pw"@,
        "notes"@ != "password"@, "notes"@ != "p"@, "notes"@ != "pw"@,
        "n"@ != "password"@, "n"@ != "p"@, "n"@ != "pw"@,
{
    reveal_strlit("title");
    reveal_strlit("t");
    reveal_strlit("user");
    reveal_strlit("u");
    reveal_strlit("url");
    reveal_strlit("notes");
    reveal_strlit("n");
    reveal_strlit("password");
    reveal_strlit("p");
    reveal_strlit("pw");
    assert("title"@.len() == 5 && "t"@.len() == 1 && "user"@.len() == 4 && "u"@.len() == 1);
    assert("url"@.len() == 3 && "notes"@.len() == 5 && "n"@.len() == 1 && "password"@.len() == 8);
    assert("p"@.len() == 1 && "pw"@.len() == 2);
    assert("title"@[0] != "notes"@[0]);
    assert("t"@[0] != "u"@[0] && "t"@[0] != "n"@[0] && "t"@[0] != "p"@[0]);
    assert("u"@[0] != "n"@[0] && "u"@[0] != "p"@[0] && "n"@[0] != "p"@[0]);
}

/// An operator that names one text of an entry (`title` or `t`, `user` or `u`, `url`,
/// `notes` or `n`, `password`, `p` or `pw`, in any case) offers that text and nothing else:
/// a plain term accepts the entry exactly when the entry has that text and the normalized
/// text holds the normalized term, and a negated term exactly when it has the text and the
/// text does not hold it.
pub proof fn lemma_text_operators_offer_their_text(db: RxDatabase, e: RxEntry, op: Seq<char>, x: Seq<char>)
    ensures
        ({
            let o = std_to_lowercase(op);
            let v = if o == "title"@ || o == "t"@ {
                Some(e.title)
            } else if o == "user"@ || o == "u"@ {
                Some(e.username)
            } else if o == "url"@ {
                Some(e.url)
            } else if o == "notes"@ || o == "n"@ {
                Some(e.notes)
            } else if o == "password"@ || o == "p"@ || o == "pw"@ {
                Some(e.password)
            } else {
                None
            };
            v matches Some(field) ==> {
                &&& (token_accepts(db, e, KpxcTokenSpec { operator: Some(op), term: TermSpec::Basic(x) }) <==> (
                value_text_opt(field) matches Some(s) && seq_contains(normalized_spec(s), normalized_spec(x))))
                &&& (token_accepts(db, e, KpxcTokenSpec { operator: Some(op), term: TermSpec::Negated(x) }) <==> (
                value_text_opt(field) matches Some(s) && !seq_contains(normalized_spec(s), normalized_spec(x))))
            }
        }),
{
    lemma_operator_names_differ();
    let b = KpxcTokenSpec { operator: Some(op), term: TermSpec::Basic(x) };
    let n = KpxcTokenSpec { operator: Some(op), term: TermSpec::Negated(x) };
    let v = operator_field_spec(db, e, op);
    assert(haystack_spec(db, e, b) == v);
    assert(haystack_spec(db, e, n) == v);
    if token_accepts(db, e, b) {
        let i = choose|i: int| 0 <= i < v.len() && term_matches_spec(b.term, #[trigger] v[i]);
    }
    if token_accepts(db, e, n) {
        let i = choose|i: int| 0 <= i < v.len() && term_matches_spec(n.term, #[trigger] v[i]);
    }
    if v.len() > 0 {
        assert(term_matches_spec(b.term, haystack_spec(db, e, b)[0]) ==> token_accepts(db, e, b));
        assert(term_matches_spec(n.term, haystack_spec(db, e, n)[0]) ==> token_accepts(db, e, n));
    }
}

/// The operator `url` (in any case) offers exactly the entry's URL text: one value when the
/// entry has a URL with a text, none otherwise.
pub proof fn lemma_url_operator_offers_the_url(db: RxDatabase, e: RxEntry, op: Seq<char>)
    requires
        std_to_lowercase(op) == "url"@,
    ensures
        operator_field_spec(db, e, op).len() <= 1,
        forall|s: Seq<char>| operator_field_spec(db, e, op).contains(s) <==> value_text_opt(e.url) == Some(s),
{
    lemma_operator_names_differ();
    let v = operator_field_spec(db, e, op);
    assert forall|s: Seq<char>| v.contains(s) <==> value_text_opt(e.url) == Some(s) by {
        if value_text_opt(e.url) == Some(s) {
            assert(v[0] == s);
        }
    }
}

} // verus!

verus! {

/// The operator names from `group` on differ from one another and from those before them.
proof fn lemma_later_operator_names_differ()
    ensures
        "group"@ != "title"@, "group"@ != "t"@, "group"@ != "user"@, "group"@ != "u"@, "group"@ != "url"@,
        "group"@ != "notes"@, "group"@ != "n"@, "group"@ != "password"@, "group"@ != "p"@, "group"@ != "pw"@,
        "g"@ != "title"@, "g"@ != "t"@, "g"@ != "user"@, "g"@ != "u"@, "g"@ != "url"@, "g"@ != "notes"@,
        "g"@ != "n"@, "g"@ != "password"@, "g"@ != "p"@, "g"@ != "pw"@, "g"@ != "group"@, "tag"@ != "title"@,
        "tag"@ != "t"@, "tag"@ != "user"@, "tag"@ != "u"@, "tag"@ != "url"@, "tag"@ != "notes"@,
        "tag"@ != "n"@, "tag"@ != "password"@, "tag"@ != "p"@, "tag"@ != "pw"@, "tag"@ != "group"@,
        "tag"@ != "g"@, "tags"@ != "title"@, "tags"@ != "t"@, "tags"@ != "user"@, "tags"@ != "u"@,
        "tags"@ != "url"@, "tags"@ != "notes"@, "tags"@ != "n"@, "tags"@ != "password"@, "tags"@ != "p"@,
        "tags"@ != "pw"@, "tags"@ != "group"@, "tags"@ != "g"@, "tags"@ != "tag"@, "uuid"@ != "title"@,
        "uuid"@ != "t"@, "uuid"@ != "user"@, "uuid"@ != "u"@, "uuid"@ != "url"@, "uuid"@ != "notes"@,
        "uuid"@ != "n"@, "uuid"@ != "password"@, "uuid"@ != "p"@, "uuid"@ != "pw"@, "uuid"@ != "group"@,
        "uuid"@ != "g"@, "uuid"@ != "tag"@, "uuid"@ != "tags"@, "is"@ != "title"@, "is"@ != "t"@,
        "is"@ != "user"@, "is"@ != "u"@, "is"@ != "url"@, "is"@ != "notes"@, "is"@ != "n"@,
        "is"@ != "password"@, "is"@ != "p"@, "is"@ != "pw"@, "is"@ != "group"@, "is"@ != "g"@,
        "is"@ != "tag"@, "is"@ != "tags"@, "is"@ != "uuid"@,
{
    reveal_strlit("title");
    reveal_strlit("t");
    reveal_strlit("user");
    reveal_strlit("u");
    reveal_strlit("url");
    reveal_strlit("notes");
    reveal_strlit("n");
    reveal_strlit("password");
    reveal_strlit("p");
    reveal_strlit("pw");
    reveal_strlit("group");
    reveal_strlit("g");
    reveal_strlit("tag");
    reveal_strlit("tags");
    reveal_strlit("uuid");
    reveal_strlit("is");
    assert("title"@.len() == 5 && "t"@.len() == 1 && "user"@.len() == 4 && "u"@.len() == 1);
    assert("url"@.len() == 3 && "notes"@.len() == 5 && "n"@.len() == 1 && "password"@.len() == 8);
    assert("p"@.len() == 1 && "pw"@.len() == 2 && "group"@.len() == 5 && "g"@.len() == 1);
    assert("tag"@.len() == 3 && "tags"@.len() == 4 && "uuid"@.len() == 4 && "is"@.len() == 2);
    assert("group"@[0] != "title"@[0] && "group"@[0] != "notes"@[0]);
    assert("g"@[0] != "t"@[0] && "g"@[0] != "u"@[0] && "g"@[0] != "n"@[0] && "g"@[0] != "p"@[0]);
    assert("tag"@[0] != "url"@[0]);
    assert("tags"@[0] != "user"@[0] && "uuid"@[1] != "user"@[1] && "tags"@[0] != "uuid"@[0]);
    assert("is"@[0] != "pw"@[0]);
}

/// What the remaining operators offer (in any case): `is` the entry's states, `expired` when
/// it has expired and `weak` when its password is judged weak, and nothing else; `group` or
/// `g` the name of the group the entry is in; `tag` or `tags` each of its tags; `uuid` its
/// hyphenated UUID. An operator the language does not know offers nothing.
pub proof fn lemma_other_operators_offer(db: RxDatabase, e: RxEntry, op: Seq<char>, s: Seq<char>)
    ensures
        std_to_lowercase(op) == "is"@ ==> {
            &&& (operator_field_spec(db, e, op).contains(s) <==> (s == "expired"@ && e.expired) || (s == "weak"@
                && e.weak_password))
            &&& (operator_field_spec(db, e, op).contains("weak"@) <==> e.weak_password)
            &&& (operator_field_spec(db, e, op).contains("expired"@) <==> e.expired)
        },
        std_to_lowercase(op) == "group"@ || std_to_lowercase(op) == "g"@ ==> (operator_field_spec(db, e, op).contains(s)
            <==> (db.group_with(e.parent_group) matches Some(g) && g.name@ == s)),
        std_to_lowercase(op) == "tag"@ || std_to_lowercase(op) == "tags"@ ==> (operator_field_spec(db, e, op).contains(s)
            <==> exists|i: int| 0 <= i < e.tags@.len() && (#[trigger] e.tags@[i])@ == s),
        std_to_lowercase(op) == "uuid"@ ==> (operator_field_spec(db, e, op).contains(s) <==> s == uuid_hyphenated(e.uuid)),
        ({
            let o = std_to_lowercase(op);
            o != "title"@ && o != "t"@ && o != "user"@ && o != "u"@ && o != "url"@ && o != "notes"@ && o != "n"@ && o
                != "password"@ && o != "p"@ && o != "pw"@ && o != "group"@ && o != "g"@ && o != "tag"@ && o != "tags"@ && o
                != "uuid"@ && o != "is"@
        }) ==> operator_field_spec(db, e, op).len() == 0,
{
    lemma_later_operator_names_differ();
    reveal_strlit("expired");
    reveal_strlit("weak");
    assert("expired"@.len() == 7 && "weak"@.len() == 4);
    crate::rx::keepass_query::lemma_group_name_list_has(db, e, s);
    crate::rx::keepass_query::lemma_strings_view_has(e.tags@, s);
    let v = operator_field_spec(db, e, op);
    let o = std_to_lowercase(op);
    if o == "is"@ {
        assert(v == status_list(e));
        if e.weak_password {
            assert(v[v.len() - 1] == "weak"@);
        }
        if e.expired {
            assert(v[0] == "expired"@);
        }
        if v.contains(s) {
            let i = choose|i: int| 0 <= i < v.len() && v[i] == s;
        }
    }
    if o == "uuid"@ {
        if v.contains(s) {
            let i = choose|i: int| 0 <= i < v.len() && v[i] == s;
        }
        if s == uuid_hyphenated(e.uuid) {
            assert(v[0] == s);
        }
    }
}

/// A search lists the UUID of every entry that all tokens accept, and only UUIDs of such
/// entries.
pub proof fn lemma_matching_uuids_are_those_of_matching_entries(db: RxDatabase, es: Seq<Rc<RxEntry>>, toks: Seq<KpxcTokenSpec>)
    ensures
        matching_uuids(db, es, toks).len() <= es.len(),
        forall|i: int|
            0 <= i < matching_uuids(db, es, toks).len() ==> exists|j: int|
                0 <= j < es.len() && es[j].uuid == #[trigger] matching_uuids(db, es, toks)[i] && entry_matches_spec(
                    db,
                    *es[j],
                    toks,
                ),
        forall|j: int|
            0 <= j < es.len() && entry_matches_spec(db, *#[trigger] es[j], toks) ==> matching_uuids(db, es, toks).contains(
                es[j].uuid,
            ),
    decreases es.len(),
{
    let r = matching_uuids(db, es, toks);
    if es.len() > 0 {
        let init = es.drop_last();
        lemma_matching_uuids_are_those_of_matching_entries(db, init, toks);
        let rest = matching_uuids(db, init, toks);
        assert forall|i: int| 0 <= i < r.len() implies exists|j: int|
            0 <= j < es.len() && es[j].uuid == #[trigger] r[i] && entry_matches_spec(db, *es[j], toks) by {
            if i < rest.len() {
                assert(r[i] == rest[i]);
                let j = choose|j: int| 0 <= j < init.len() && init[j].uuid == rest[i] && entry_matches_spec(db, *init[j], toks);
                assert(es[j] == init[j]);
            } else {
                assert(es[es.len() - 1] == es.last());
            }
        }
        assert forall|j: int| 0 <= j < es.len() && entry_matches_spec(db, *#[trigger] es[j], toks) implies r.contains(
            es[j].uuid,
        ) by {
            if j < es.len() - 1 {
                assert(es[j] == init[j]);
                let i = choose|i: int| 0 <= i < rest.len() && rest[i] == init[j].uuid;
                assert(r[i] == rest[i]);
            } else {
                assert(es[j] == es.last());
                assert(r[r.len() - 1] == es.last().uuid);
            }
        }
    }
}

} // verus!
