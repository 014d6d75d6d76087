//! The saved-search query language: tokenizing, parsing and evaluation of
//! queries such as `title:Gmail -user:bob`.
use vstd::prelude::*;
use std::rc::Rc;
use crate::outside::{
    deunicode_tofu, deunicode_with_tofu, fold_case, regex_ci_compiles, regex_ci_is_match,
    unicase_folded, CaseInsensitiveRegex,
};
use crate::rx::rx_db::{value_text_opt, RxDatabase};
use crate::rx::rx_entry::{copy_string, RxEntry, RxValue};
use crate::uuid_text::{uuid_hyphenated, uuid_to_string};
use crate::text::{
    chars_contains, chars_eq, seq_contains, to_owned_string,
    char_is_whitespace, char_vecs_view, chars_of, is_whitespace, strings_of, strings_view, trim,
    trim_chars, slice_chars, find_char, chars_to_ascii_lower, string_of, ascii_lower_seq,
};

verus! {

/// State of the tokenizer after reading a prefix of the query.
pub struct TokState {
    pub out: Seq<Seq<char>>,
    pub curr: Seq<char>,
    pub in_quotes: bool,
    pub escaped: bool,
}

/// The tokens so far, with `curr` added when it is not blank after trimming.
pub open spec fn flush(out: Seq<Seq<char>>, curr: Seq<char>) -> Seq<Seq<char>> {
    if trim(curr).len() > 0 {
        out.push(trim(curr))
    } else {
        out
    }
}

/// The tokenizer before any input.
pub open spec fn tok_init() -> TokState {
    TokState { out: Seq::empty(), curr: Seq::empty(), in_quotes: false, escaped: false }
}

/// One character of tokenizing: backslash escapes `"` and `\` (other escaped characters keep
/// their backslash), double quotes toggle quoting, and whitespace outside quotes ends a token.
pub open spec fn tok_step(st: TokState, ch: char) -> TokState {
    if st.escaped {
        TokState {
            curr: if ch == '"' || ch == '\\' {
                st.curr.push(ch)
            } else {
                st.curr.push('\\').push(ch)
            },
            escaped: false,
            ..st
        }
    } else if ch == '\\' {
        TokState { escaped: true, ..st }
    } else if ch == '"' {
        TokState { in_quotes: !st.in_quotes, ..st }
    } else if is_whitespace(ch) && !st.in_quotes {
        TokState { out: flush(st.out, st.curr), curr: Seq::empty(), ..st }
    } else {
        TokState { curr: st.curr.push(ch), ..st }
    }
}

/// The tokenizer state after reading all of `input`.
pub open spec fn tok_run(input: Seq<char>) -> TokState
    decreases input.len(),
{
    if input.len() == 0 {
        tok_init()
    } else {
        tok_step(tok_run(input.drop_last()), input.last())
    }
}

/// The tokens of a query: a dangling backslash is kept, and the last token is flushed.
pub open spec fn tokenize_spec(input: Seq<char>) -> Seq<Seq<char>> {
    let st = tok_run(input);
    let curr = if st.escaped {
        st.curr.push('\\')
    } else {
        st.curr
    };
    flush(st.out, curr)
}

fn flush_into(out: &mut Vec<Vec<char>>, curr: &Vec<char>)
    ensures
        char_vecs_view(final(out)@) == flush(char_vecs_view(old(out)@), curr@),
{
    let t = trim_chars(curr.as_slice());
    if t.len() > 0 {
        let ghost before = char_vecs_view(out@);
        out.push(t);
        assert(char_vecs_view(out@) == before.push(trim(curr@)));
    }
}

/// Splits a query into tokens, as the query language defines them.
pub fn tokenize(input: &str) -> (r: Vec<String>)
    ensures
        strings_view(r@) == tokenize_spec(input@),
{
    let chars = chars_of(input);
    let mut out: Vec<Vec<char>> = Vec::new();
    let mut curr: Vec<char> = Vec::new();
    let mut in_quotes = false;
    let mut escaped = false;
    let n = chars.len();
    assert(chars@.take(0) =~= Seq::<char>::empty());
    assert(char_vecs_view(out@) =~= Seq::<Seq<char>>::empty());
    for i in 0..n
        invariant
            n == chars@.len(),
            chars@ == input@,
            tok_run(chars@.take(i as int)) == (TokState {
                out: char_vecs_view(out@),
                curr: curr@,
                in_quotes,
                escaped,
            }),
    {
        let ch = chars[i];
        assert(chars@.take(i + 1).drop_last() == chars@.take(i as int));
        if escaped {
            if ch == '"' || ch == '\\' {
                curr.push(ch);
            } else {
                curr.push('\\');
                curr.push(ch);
            }
            escaped = false;
        } else if ch == '\\' {
            escaped = true;
        } else if ch == '"' {
            in_quotes = !in_quotes;
        } else if char_is_whitespace(ch) && !in_quotes {
            flush_into(&mut out, &curr);
            curr = Vec::new();
        } else {
            curr.push(ch);
        }
    }
    assert(chars@.take(n as int) == chars@);
    if escaped {
        curr.push('\\');
    }
    flush_into(&mut out, &curr);
    strings_of(&out)
}


/// A parsed query token: an optional field to look in, the term, and its modifiers.
pub struct QueryToken {
    pub field: Option<String>,
    pub term: String,
    pub is_regex: bool,
    pub is_negated: bool,
}

/// The mathematical content of a parsed token.
pub struct TokenSpec {
    pub field: Option<Seq<char>>,
    pub term: Seq<char>,
    pub is_regex: bool,
    pub is_negated: bool,
}

impl QueryToken {
    /// The token's content as sequences of characters.
    pub open spec fn view(&self) -> TokenSpec {
        TokenSpec {
            field: match self.field {
                Some(f) => Some(f@),
                None => None,
            },
            term: self.term@,
            is_regex: self.is_regex,
            is_negated: self.is_negated,
        }
    }
}

/// `c` is one of the modifier characters `+`, `-` and `*`.
pub open spec fn is_modifier(c: char) -> bool {
    c == '+' || c == '-' || c == '*'
}

/// Number of modifier characters at the start of a token.
pub open spec fn modifier_len(t: Seq<char>) -> nat
    decreases t.len(),
{
    if t.len() > 0 && is_modifier(t[0]) {
        1 + modifier_len(t.drop_first())
    } else {
        0
    }
}

/// Position of the first colon in `s`, if there is one.
pub open spec fn first_colon(s: Seq<char>) -> Option<int> {
    if exists|i: int| 0 <= i < s.len() && s[i] == ':' {
        Some(choose|i: int| 0 <= i < s.len() && s[i] == ':' && forall|k: int| 0 <= k < i ==> s[k] != ':')
    } else {
        None
    }
}

/// Parse of one token: leading `+`, `-`, `*` modifiers (`-` negates, `*` makes the term a
/// regular expression), then `field:term` when a non-empty field precedes the first colon
/// (the field is lower-cased in ASCII), otherwise the whole rest is the term. Tokens with an
/// empty rest or an empty term give nothing.
pub open spec fn parse_token_spec(t: Seq<char>) -> Option<TokenSpec> {
    let m = modifier_len(t) as int;
    let is_negated = exists|k: int| 0 <= k < m && t[k] == '-';
    let is_regex = exists|k: int| 0 <= k < m && t[k] == '*';
    let rest = t.skip(m);
    if rest.len() == 0 {
        None
    } else {
        let (field, term) = match first_colon(rest) {
            Some(c) => if c > 0 {
                (Some(ascii_lower_seq(rest.take(c))), rest.skip(c + 1))
            } else {
                (None, rest)
            },
            None => (None, rest),
        };
        if term.len() == 0 {
            None
        } else {
            Some(TokenSpec { field, term, is_regex, is_negated })
        }
    }
}

proof fn lemma_modifier_len_bounded(t: Seq<char>)
    ensures
        modifier_len(t) <= t.len(),
        forall|k: int| 0 <= k < modifier_len(t) ==> is_modifier(#[trigger] t[k]),
        modifier_len(t) < t.len() ==> !is_modifier(t[modifier_len(t) as int]),
    decreases t.len(),
{
    if t.len() > 0 && is_modifier(t[0]) {
        lemma_modifier_len_bounded(t.drop_first());
        assert forall|k: int| 0 <= k < modifier_len(t) implies is_modifier(#[trigger] t[k]) by {
            if k > 0 {
                assert(t[k] == t.drop_first()[k - 1]);
            }
        }
    }
}

proof fn lemma_first_colon(s: Seq<char>, i: int)
    requires
        0 <= i < s.len(),
        s[i] == ':',
        forall|k: int| 0 <= k < i ==> s[k] != ':',
    ensures
        first_colon(s) == Some(i),
{
    let j = choose|j: int| 0 <= j < s.len() && s[j] == ':' && forall|k: int| 0 <= k < j ==> s[k] != ':';
    if j < i {
        assert(s[j] != ':');
    }
    if i < j {
        assert(s[i] != ':');
    }
}

/// Parses one token of a query.
pub fn parse_token(token: &str) -> (r: Option<QueryToken>)
    ensures
        match r {
            Some(q) => parse_token_spec(token@) == Some(q.view()),
            None => parse_token_spec(token@) is None,
        },
{
    let t = chars_of(token);
    let mut is_regex = false;
    let mut is_negated = false;
    let mut idx: usize = 0;
    proof {
        lemma_modifier_len_bounded(t@);
        assert(t@.skip(0) == t@);
    }
    while idx < t.len() && (t[idx] == '+' || t[idx] == '-' || t[idx] == '*')
        invariant
            idx <= t@.len(),
            t@ == token@,
            modifier_len(t@) == idx + modifier_len(t@.skip(idx as int)),
            is_negated == exists|k: int| 0 <= k < idx && t@[k] == '-',
            is_regex == exists|k: int| 0 <= k < idx && t@[k] == '*',
        decreases t@.len() - idx,
    {
        assert(t@.skip(idx as int).drop_first() == t@.skip(idx + 1));
        if t[idx] == '-' {
            is_negated = true;
        }
        if t[idx] == '*' {
            is_regex = true;
        }
        idx = idx + 1;
    }
    proof {
        if idx < t@.len() {
            assert(t@.skip(idx as int)[0] == t@[idx as int]);
        }
        assert(modifier_len(t@) == idx);
    }
    let rest = slice_chars(t.as_slice(), idx, t.len());
    assert(rest@ == t@.skip(idx as int));
    if rest.len() == 0 {
        return None;
    }
    let colon = find_char(rest.as_slice(), ':', 0);
    let (field, term) = match colon {
        Some(c) => {
            proof {
                lemma_first_colon(rest@, c as int);
            }
            if c > 0 {
                let f = slice_chars(rest.as_slice(), 0, c);
                let f = chars_to_ascii_lower(f.as_slice());
                assert(f@ == ascii_lower_seq(rest@.take(c as int)));
                let term = slice_chars(rest.as_slice(), c + 1, rest.len());
                assert(term@ == rest@.skip(c + 1));
                (Some(string_of(f.as_slice())), term)
            } else {
                (None, rest)
            }
        },
        None => {
            assert(!exists|i: int| 0 <= i < rest@.len() && rest@[i] == ':');
            (None, rest)
        },
    };
    if term.len() == 0 {
        return None;
    }
    let q = QueryToken { field, term: string_of(term.as_slice()), is_regex, is_negated };
    Some(q)
}


/// The text of an entry's optional value as a list of zero or one strings.
pub open spec fn value_list(v: Option<RxValue>) -> Seq<Seq<char>> {
    match value_text_opt(v) {
        Some(t) => seq![t],
        None => Seq::empty(),
    }
}

/// The name of the entry's group as a list of zero or one strings.
pub open spec fn group_name_list(db: RxDatabase, e: RxEntry) -> Seq<Seq<char>> {
    match db.group_with(e.parent_group) {
        Some(g) => seq![g.name@],
        None => Seq::empty(),
    }
}

/// The entry's states that `is:` can ask for.
pub open spec fn status_list(e: RxEntry) -> Seq<Seq<char>> {
    let a = if e.expired {
        seq!["expired"@]
    } else {
        Seq::empty()
    };
    if e.weak_password {
        a.push("weak"@)
    } else {
        a
    }
}

/// The values an entry offers for a named field of a query.
pub open spec fn entry_field_spec(db: RxDatabase, e: RxEntry, field: Seq<char>) -> Seq<Seq<char>> {
    if field == "title"@ {
        value_list(e.title)
    } else if field == "user"@ || field == "username"@ {
        value_list(e.username)
    } else if field == "url"@ {
        value_list(e.url)
    } else if field == "notes"@ {
        value_list(e.notes)
    } else if field == "group"@ {
        group_name_list(db, e)
    } else if field == "tag"@ || field == "tags"@ {
        strings_view(e.tags@)
    } else if field == "uuid"@ {
        seq![uuid_hyphenated(e.uuid)]
    } else if field == "is"@ {
        status_list(e)
    } else {
        Seq::empty()
    }
}

/// The values an entry offers to a query term without a field: title, user name, URL,
/// notes, group name, then tags.
pub open spec fn default_fields_spec(db: RxDatabase, e: RxEntry) -> Seq<Seq<char>> {
    value_list(e.title) + value_list(e.username) + value_list(e.url) + value_list(e.notes)
        + group_name_list(db, e) + strings_view(e.tags@)
}

/// Text normalized for matching: transliterated to ASCII, then case-folded.
pub open spec fn normalized_spec(s: Seq<char>) -> Seq<char> {
    unicase_folded(deunicode_with_tofu(s, "u{FFFD}"@))
}

/// A term matches a value: as a case-insensitive regular expression (never when it does not
/// compile), or as a normalized substring.
pub open spec fn term_matches_spec(t: TokenSpec, value: Seq<char>) -> bool {
    if t.is_regex {
        regex_ci_compiles(t.term) && regex_ci_is_match(t.term, value)
    } else {
        seq_contains(normalized_spec(value), normalized_spec(t.term))
    }
}

/// The values a token looks at in an entry.
pub open spec fn haystack_spec(db: RxDatabase, e: RxEntry, t: TokenSpec) -> Seq<Seq<char>> {
    match t.field {
        Some(f) => entry_field_spec(db, e, f),
        None => default_fields_spec(db, e),
    }
}

/// A token accepts an entry: some value matches (for a negated token: none does).
pub open spec fn token_accepts(db: RxDatabase, e: RxEntry, t: TokenSpec) -> bool {
    let m = exists|i: int|
        0 <= i < haystack_spec(db, e, t).len() && term_matches_spec(
            t,
            #[trigger] haystack_spec(db, e, t)[i],
        );
    if t.is_negated {
        !m
    } else {
        m
    }
}

/// An entry matches a query when every token accepts it.
pub open spec fn entry_matches_spec(db: RxDatabase, e: RxEntry, toks: Seq<TokenSpec>) -> bool {
    forall|i: int| 0 <= i < toks.len() ==> token_accepts(db, e, #[trigger] toks[i])
}

/// The parsed tokens of a query, leaving out those that do not parse.
pub open spec fn parsed_tokens(raw: Seq<Seq<char>>) -> Seq<TokenSpec>
    decreases raw.len(),
{
    if raw.len() == 0 {
        Seq::empty()
    } else {
        let rest = parsed_tokens(raw.drop_last());
        match parse_token_spec(raw.last()) {
            Some(t) => rest.push(t),
            None => rest,
        }
    }
}

/// The UUIDs of the entries among `es` that match the tokens, in order.
pub open spec fn matching_uuids(db: RxDatabase, es: Seq<Rc<RxEntry>>, toks: Seq<TokenSpec>) -> Seq<u128>
    decreases es.len(),
{
    if es.len() == 0 {
        Seq::empty()
    } else {
        let rest = matching_uuids(db, es.drop_last(), toks);
        if entry_matches_spec(db, *es.last(), toks) {
            rest.push(es.last().uuid)
        } else {
            rest
        }
    }
}

/// The result of a saved search: nothing for a query without tokens, else the UUIDs of the
/// matching entries in database order.
pub open spec fn saved_search_result(db: RxDatabase, query: Seq<char>) -> Seq<u128> {
    let toks = parsed_tokens(tokenize_spec(query));
    if toks.len() == 0 {
        Seq::empty()
    } else {
        matching_uuids(db, db.entries@, toks)
    }
}

/// The content of a list of parsed tokens.
pub open spec fn tokens_view(v: Seq<QueryToken>) -> Seq<TokenSpec> {
    v.map_values(|t: QueryToken| t.view())
}

fn push_value(out: &mut Vec<String>, v: Option<&RxValue>)
    ensures
        strings_view(final(out)@) == strings_view(old(out)@) + value_list(opt_ref_to_opt(v)),
{
    let ghost before = out@;
    match RxEntry::text_of(v) {
        Some(t) => {
            out.push(t);
            assert(strings_view(out@) =~= strings_view(before) + value_list(opt_ref_to_opt(v)));
        },
        None => {
            assert(strings_view(out@) =~= strings_view(before) + value_list(opt_ref_to_opt(v)));
        },
    }
}

/// The optional value behind an optional reference.
pub open spec fn opt_ref_to_opt(v: Option<&RxValue>) -> Option<RxValue> {
    match v {
        Some(x) => Some(*x),
        None => None,
    }
}

fn push_group_name(out: &mut Vec<String>, db: &RxDatabase, e: &RxEntry)
    requires
        db.wf(),
    ensures
        strings_view(final(out)@) == strings_view(old(out)@) + group_name_list(*db, *e),
{
    let ghost before = out@;
    match db.get_group(e.parent_group) {
        Some(g) => {
            out.push(copy_string(&g.name));
        },
        None => {},
    }
    assert(strings_view(out@) =~= strings_view(before) + group_name_list(*db, *e));
}

fn push_strings(out: &mut Vec<String>, v: &Vec<String>)
    ensures
        strings_view(final(out)@) == strings_view(old(out)@) + strings_view(v@),
{
    let ghost before = out@;
    let n = v.len();
    for i in 0..n
        invariant
            n == v@.len(),
            strings_view(out@) == strings_view(before) + strings_view(v@).take(i as int),
    {
        let ghost b2 = out@;
        out.push(copy_string(&v[i]));
        assert(strings_view(out@) =~= strings_view(b2).push(v@[i as int]@));
        assert(strings_view(v@).take(i + 1) =~= strings_view(v@).take(i as int).push(v@[i as int]@));
    }
    assert(strings_view(v@).take(n as int) =~= strings_view(v@));
}

/// The values an entry offers for a named field of a query.
pub fn entry_field(entry: &RxEntry, field: &str, db: &RxDatabase) -> (r: Vec<String>)
    requires
        db.wf(),
    ensures
        strings_view(r@) == entry_field_spec(*db, *entry, field@),
{
    let f = chars_of(field);
    let f = f.as_slice();
    let mut out: Vec<String> = Vec::new();
    assert(strings_view(out@) =~= Seq::<Seq<char>>::empty());
    if chars_eq(f, chars_of("title").as_slice()) {
        push_value(&mut out, entry.title());
    } else if chars_eq(f, chars_of("user").as_slice()) || chars_eq(
        f,
        chars_of("username").as_slice(),
    ) {
        push_value(&mut out, entry.username());
    } else if chars_eq(f, chars_of("url").as_slice()) {
        push_value(&mut out, entry.url());
    } else if chars_eq(f, chars_of("notes").as_slice()) {
        push_value(&mut out, entry.notes());
    } else if chars_eq(f, chars_of("group").as_slice()) {
        push_group_name(&mut out, db, entry);
    } else if chars_eq(f, chars_of("tag").as_slice()) || chars_eq(f, chars_of("tags").as_slice()) {
        push_strings(&mut out, &entry.tags);
    } else if chars_eq(f, chars_of("uuid").as_slice()) {
        out.push(uuid_to_string(entry.uuid));
        assert(strings_view(out@) =~= seq![uuid_hyphenated(entry.uuid)]);
    } else if chars_eq(f, chars_of("is").as_slice()) {
        if entry.is_expired() {
            out.push(to_owned_string("expired"));
        }
        if entry.is_password_weak() {
            out.push(to_owned_string("weak"));
        }
        assert(strings_view(out@) =~= status_list(*entry));
    }
    out
}

/// The values an entry offers to a query term without a field.
pub fn entry_default_fields(entry: &RxEntry, db: &RxDatabase) -> (r: Vec<String>)
    requires
        db.wf(),
    ensures
        strings_view(r@) == default_fields_spec(*db, *entry),
{
    let mut out: Vec<String> = Vec::new();
    assert(strings_view(out@) =~= Seq::<Seq<char>>::empty());
    push_value(&mut out, entry.title());
    push_value(&mut out, entry.username());
    push_value(&mut out, entry.url());
    push_value(&mut out, entry.notes());
    push_group_name(&mut out, db, entry);
    push_strings(&mut out, &entry.tags);
    assert(strings_view(out@) =~= default_fields_spec(*db, *entry));
    out
}

/// Text normalized for matching.
pub fn normalized(value: &str) -> (r: String)
    ensures
        r@ == normalized_spec(value@),
{
    let t = deunicode_tofu(value, "u{FFFD}");
    fold_case(t.as_str())
}

/// Tells whether a token's term matches a value.
pub fn term_matches(token: &QueryToken, value: &str) -> (b: bool)
    ensures
        b == term_matches_spec(token.view(), value@),
{
    if token.is_regex {
        match CaseInsensitiveRegex::build(token.term.as_str()) {
            Some(re) => re.is_match(value),
            None => false,
        }
    } else {
        let v = normalized(value);
        let t = normalized(token.term.as_str());
        chars_contains(chars_of(v.as_str()).as_slice(), chars_of(t.as_str()).as_slice())
    }
}

/// Tells whether every token accepts the entry.
pub fn entry_matches(db: &RxDatabase, entry: &RxEntry, tokens: &Vec<QueryToken>) -> (b: bool)
    requires
        db.wf(),
    ensures
        b == entry_matches_spec(*db, *entry, tokens_view(tokens@)),
{
    let n = tokens.len();
    for i in 0..n
        invariant
            n == tokens@.len(),
            db.wf(),
            forall|k: int| 0 <= k < i ==> token_accepts(*db, *entry, tokens@[k].view()),
    {
        let token = &tokens[i];
        let haystack = match &token.field {
            Some(field) => entry_field(entry, field.as_str(), db),
            None => entry_default_fields(entry, db),
        };
        let ghost hs = haystack_spec(*db, *entry, token.view());
        assert(strings_view(haystack@) == hs);
        let m = haystack.len();
        let mut found = false;
        let mut j: usize = 0;
        while j < m
            invariant
                m == haystack@.len(),
                j <= m,
                strings_view(haystack@) == hs,
                found == exists|q: int| 0 <= q < j && term_matches_spec(token.view(), #[trigger] hs[q]),
            decreases m - j,
        {
            if term_matches(token, haystack[j].as_str()) {
                found = true;
            }
            assert(hs[j as int] == haystack@[j as int]@);
            j = j + 1;
        }
        let accepts = if token.is_negated { !found } else { found };
        if !accepts {
            assert(!token_accepts(*db, *entry, tokens_view(tokens@)[i as int]));
            return false;
        }
    }
    assert forall|k: int| 0 <= k < tokens_view(tokens@).len() implies token_accepts(
        *db,
        *entry,
        #[trigger] tokens_view(tokens@)[k],
    ) by {
        assert(tokens_view(tokens@)[k] == tokens@[k].view());
    }
    true
}

/// Runs a saved-search query over all entries of the database and gives the UUIDs of
/// those that match, in database order.
pub fn evaluate_saved_search(db: &RxDatabase, query: &str) -> (r: Vec<u128>)
    requires
        db.wf(),
    ensures
        r@ == saved_search_result(*db, query@),
{
    let raw = tokenize(query);
    let mut tokens: Vec<QueryToken> = Vec::new();
    let n = raw.len();
    assert(tokens_view(tokens@) =~= parsed_tokens(strings_view(raw@).take(0)));
    for i in 0..n
        invariant
            n == raw@.len(),
            tokens_view(tokens@) == parsed_tokens(strings_view(raw@).take(i as int)),
    {
        assert(strings_view(raw@).take(i + 1).drop_last() =~= strings_view(raw@).take(i as int));
        assert(strings_view(raw@).take(i + 1).last() == raw@[i as int]@);
        let ghost before = tokens@;
        match parse_token(raw[i].as_str()) {
            Some(t) => {
                tokens.push(t);
                assert(tokens_view(tokens@) =~= tokens_view(before).push(tokens@.last().view()));
            },
            None => {},
        }
    }
    assert(strings_view(raw@).take(n as int) =~= strings_view(raw@));
    let mut out: Vec<u128> = Vec::new();
    if tokens.len() == 0 {
        return out;
    }
    let entries = db.all_entries();
    let m = entries.len();
    assert(out@ =~= matching_uuids(*db, entries@.take(0), tokens_view(tokens@)));
    for j in 0..m
        invariant
            m == entries@.len(),
            entries == &db.entries,
            db.wf(),
            out@ == matching_uuids(*db, entries@.take(j as int), tokens_view(tokens@)),
    {
        assert(entries@.take(j + 1).drop_last() =~= entries@.take(j as int));
        let e = &entries[j];
        if entry_matches(db, e, &tokens) {
            out.push(e.uuid);
        }
    }
    assert(entries@.take(m as int) =~= entries@);
    out
}

} // verus!

verus! {

/// The field names a query knows differ from one another.
proof fn lemma_field_names_differ()
    ensures
        "title"@ != "user"@, "title"@ != "username"@, "title"@ != "url"@, "title"@ != "notes"@,
        "title"@ != "group"@, "title"@ != "tag"@, "title"@ != "tags"@, "title"@ != "uuid"@, "title"@ != "is"@,
        "user"@ != "username"@, "user"@ != "url"@, "user"@ != "notes"@, "user"@ != "group"@,
        "user"@ != "tag"@, "user"@ != "tags"@, "user"@ != "uuid"@, "user"@ != "is"@,
        "username"@ != "url"@, "username"@ != "notes"@, "username"@ != "group"@, "username"@ != "tag"@,
        "username"@ != "tags"@, "username"@ != "uuid"@, "username"@ != "is"@,
        "url"@ != "notes"@, "url"@ != "group"@, "url"@ != "tag"@, "url"@ != "tags"@, "url"@ != "uuid"@,
        "url"@ != "is"@,
        "notes"@ != "group"@, "notes"@ != "tag"@, "notes"@ != "tags"@, "notes"@ != "uuid"@, "notes"@ != "is"@,
        "group"@ != "tag"@, "group"@ != "tags"@, "group"@ != "uuid"@, "group"@ != "is"@,
        "tag"@ != "tags"@, "tag"@ != "uuid"@, "tag"@ != "is"@,
        "tags"@ != "uuid"@, "tags"@ != "is"@, "uuid"@ != "is"@,
        "expired"@ != "weak"@,
{
    reveal_strlit("title");
    reveal_strlit("user");
    reveal_strlit("username");
    reveal_strlit("url");
    reveal_strlit("notes");
    reveal_strlit("group");
    reveal_strlit("tag");
    reveal_strlit("tags");
    reveal_strlit("uuid");
    reveal_strlit("is");
    reveal_strlit("expired");
    reveal_strlit("weak");
    assert("title"@.len() == 5 && "user"@.len() == 4 && "username"@.len() == 8 && "url"@.len() == 3);
    assert("notes"@.len() == 5 && "group"@.len() == 5 && "tag"@.len() == 3 && "tags"@.len() == 4);
    assert("uuid"@.len() == 4 && "is"@.len() == 2 && "expired"@.len() == 7 && "weak"@.len() == 4);
    assert("title"@[0] != "notes"@[0]);
    assert("title"@[0] != "group"@[0]);
    assert("notes"@[0] != "group"@[0]);
    assert("user"@[0] != "tags"@[0]);
    assert("user"@[1] != "uuid"@[1]);
    assert("tags"@[0] != "uuid"@[0]);
    assert("user"@[0] != "url"@[0] || "user"@.len() != "url"@.len());
    assert("url"@[0] != "tag"@[0]);
}

/// The field `is` offers an entry's states and nothing else: `expired` exactly when the
/// entry has expired and `weak` exactly when its password is judged weak. A plain `is:` term
/// therefore accepts an entry exactly when the entry is in a state whose word holds the term.
pub proof fn lemma_is_field_offers_states(db: RxDatabase, e: RxEntry, t: TokenSpec)
    requires
        t.field == Some("is"@),
        !t.is_regex,
        !t.is_negated,
    ensures
        entry_field_spec(db, e, "is"@).contains("weak"@) <==> e.weak_password,
        entry_field_spec(db, e, "is"@).contains("expired"@) <==> e.expired,
        forall|i: int|
            0 <= i < entry_field_spec(db, e, "is"@).len() ==> #[trigger] entry_field_spec(db, e, "is"@)[i]
                == "expired"@ || entry_field_spec(db, e, "is"@)[i] == "weak"@,
        token_accepts(db, e, t) <==> (e.weak_password && seq_contains(normalized_spec("weak"@), normalized_spec(t.term)))
            || (e.expired && seq_contains(normalized_spec("expired"@), normalized_spec(t.term))),
{
    lemma_field_names_differ();
    let v = entry_field_spec(db, e, "is"@);
    assert(v == status_list(e));
    if e.weak_password {
        assert(v[v.len() - 1] == "weak"@);
    }
    if e.expired {
        assert(v[0] == "expired"@);
    }
    if token_accepts(db, e, t) {
        let i = choose|i: int| 0 <= i < v.len() && term_matches_spec(t, #[trigger] v[i]);
    }
}

/// A plain term on the field `title`, `user` (or `username`), `url` or `notes` looks at that
/// text of the entry alone: it accepts the entry exactly when the entry has that text and the
/// normalized text holds the normalized term.
pub proof fn lemma_text_fields_offer_their_text(db: RxDatabase, e: RxEntry, t: TokenSpec)
    requires
        !t.is_regex,
        !t.is_negated,
    ensures
        t.field == Some("title"@) ==> (token_accepts(db, e, t) <==> (value_text_opt(e.title) matches Some(x)
            && seq_contains(normalized_spec(x), normalized_spec(t.term)))),
        t.field == Some("user"@) || t.field == Some("username"@) ==> (token_accepts(db, e, t) <==> (value_text_opt(
            e.username,
        ) matches Some(x) && seq_contains(normalized_spec(x), normalized_spec(t.term)))),
        t.field == Some("url"@) ==> (token_accepts(db, e, t) <==> (value_text_opt(e.url) matches Some(x)
            && seq_contains(normalized_spec(x), normalized_spec(t.term)))),
        t.field == Some("notes"@) ==> (token_accepts(db, e, t) <==> (value_text_opt(e.notes) matches Some(x)
            && seq_contains(normalized_spec(x), normalized_spec(t.term)))),
{
    lemma_field_names_differ();
    let v = haystack_spec(db, e, t);
    if token_accepts(db, e, t) {
        let i = choose|i: int| 0 <= i < v.len() && term_matches_spec(t, #[trigger] v[i]);
    }
    if t.field is Some {
        let ghost f = t.field->0;
        if f == "title"@ || f == "user"@ || f == "username"@ || f == "url"@ || f == "notes"@ {
            if v.len() > 0 {
                assert(term_matches_spec(t, v[0]) ==> token_accepts(db, e, t));
            }
        }
    }
}

} // verus!

verus! {

/// A list of the text of a value holds exactly that text.
proof fn lemma_value_list_has(v: Option<RxValue>, s: Seq<char>)
    ensures
        value_list(v).contains(s) <==> value_text_opt(v) == Some(s),
        value_list(v).len() <= 1,
{
    if value_text_opt(v) == Some(s) {
        assert(value_list(v)[0] == s);
    }
}

/// The list of the entry's group name holds exactly the name of the group the entry is in.
pub(crate) proof fn lemma_group_name_list_has(db: RxDatabase, e: RxEntry, s: Seq<char>)
    ensures
        group_name_list(db, e).contains(s) <==> (db.group_with(e.parent_group) matches Some(g) && g.name@ == s),
{
    if db.group_with(e.parent_group) is Some {
        assert(group_name_list(db, e)[0] == db.group_with(e.parent_group)->0.name@);
    }
}

/// The texts of a list of strings are those of its members.
pub(crate) proof fn lemma_strings_view_has(v: Seq<String>, s: Seq<char>)
    ensures
        strings_view(v).contains(s) <==> exists|i: int| 0 <= i < v.len() && (#[trigger] v[i])@ == s,
{
    if exists|i: int| 0 <= i < v.len() && (#[trigger] v[i])@ == s {
        let i = choose|i: int| 0 <= i < v.len() && (#[trigger] v[i])@ == s;
        assert(strings_view(v)[i] == s);
    }
    if strings_view(v).contains(s) {
        let i = choose|i: int| 0 <= i < strings_view(v).len() && strings_view(v)[i] == s;
        assert(v[i]@ == s);
    }
}

/// Membership in a concatenation.
pub(crate) proof fn lemma_concat_has(a: Seq<Seq<char>>, b: Seq<Seq<char>>, x: Seq<char>)
    ensures
        (a + b).contains(x) <==> a.contains(x) || b.contains(x),
{
    if a.contains(x) {
        let i = choose|i: int| 0 <= i < a.len() && a[i] == x;
        assert((a + b)[i] == x);
    }
    if b.contains(x) {
        let i = choose|i: int| 0 <= i < b.len() && b[i] == x;
        assert((a + b)[a.len() + i] == x);
    }
    if (a + b).contains(x) {
        let i = choose|i: int| 0 <= i < (a + b).len() && (a + b)[i] == x;
        if i < a.len() {
            assert(a[i] == x);
        } else {
            assert(b[i - a.len()] == x);
        }
    }
}

/// What each field offers beyond the texts and states: `group` the name of the group the
/// entry is in, `tag` and `tags` each of the entry's tags, `uuid` the entry's hyphenated
/// UUID, and a field the language does not know nothing. A term without a field looks at the
/// title, user name, URL, notes, group name and tags.
pub proof fn lemma_fields_offer(db: RxDatabase, e: RxEntry, field: Seq<char>, s: Seq<char>)
    ensures
        entry_field_spec(db, e, "group"@).contains(s) <==> (db.group_with(e.parent_group) matches Some(g) && g.name@
            == s),
        entry_field_spec(db, e, "tag"@).contains(s) <==> exists|i: int| 0 <= i < e.tags@.len() && (#[trigger] e.tags@[i])@ == s,
        entry_field_spec(db, e, "tags"@).contains(s) <==> exists|i: int| 0 <= i < e.tags@.len() && (#[trigger] e.tags@[i])@ == s,
        entry_field_spec(db, e, "uuid"@).contains(s) <==> s == uuid_hyphenated(e.uuid),
        field != "title"@ && field != "user"@ && field != "username"@ && field != "url"@ && field != "notes"@ && field
            != "group"@ && field != "tag"@ && field != "tags"@ && field != "uuid"@ && field != "is"@ ==> entry_field_spec(
            db,
            e,
            field,
        ).len() == 0,
        default_fields_spec(db, e).contains(s) <==> {
            ||| value_text_opt(e.title) == Some(s)
            ||| value_text_opt(e.username) == Some(s)
            ||| value_text_opt(e.url) == Some(s)
            ||| value_text_opt(e.notes) == Some(s)
            ||| (db.group_with(e.parent_group) matches Some(g) && g.name@ == s)
            ||| exists|i: int| 0 <= i < e.tags@.len() && (#[trigger] e.tags@[i])@ == s
        },
{
    lemma_field_names_differ();
    lemma_group_name_list_has(db, e, s);
    lemma_strings_view_has(e.tags@, s);
    if entry_field_spec(db, e, "uuid"@).contains(s) {
        let i = choose|i: int| 0 <= i < entry_field_spec(db, e, "uuid"@).len() && entry_field_spec(db, e, "uuid"@)[i] == s;
    }
    if s == uuid_hyphenated(e.uuid) {
        assert(entry_field_spec(db, e, "uuid"@)[0] == s);
    }
    let (title, user, url, notes) = (e.title, e.username, e.url, e.notes);
    lemma_value_list_has(title, s);
    lemma_value_list_has(user, s);
    lemma_value_list_has(url, s);
    lemma_value_list_has(notes, s);
    let l1 = value_list(title);
    let l2 = l1 + value_list(user);
    let l3 = l2 + value_list(url);
    let l4 = l3 + value_list(notes);
    let l5 = l4 + group_name_list(db, e);
    lemma_concat_has(l1, value_list(user), s);
    lemma_concat_has(l2, value_list(url), s);
    lemma_concat_has(l3, value_list(notes), s);
    lemma_concat_has(l4, group_name_list(db, e), s);
    lemma_concat_has(l5, strings_view(e.tags@), s);
    assert(default_fields_spec(db, e) == l5 + strings_view(e.tags@));
}

/// A negated token accepts an entry exactly when the same token without the negation does
/// not.
pub proof fn lemma_negated_token_is_complement(db: RxDatabase, e: RxEntry, field: Option<Seq<char>>, term: Seq<char>, is_regex: bool)
    ensures
        token_accepts(db, e, TokenSpec { field, term, is_regex, is_negated: true }) == !token_accepts(
            db,
            e,
            TokenSpec { field, term, is_regex, is_negated: false },
        ),
{
    let p = TokenSpec { field, term, is_regex, is_negated: false };
    let n = TokenSpec { field, term, is_regex, is_negated: true };
    assert(haystack_spec(db, e, p) == haystack_spec(db, e, n));
    assert forall|v: Seq<char>| term_matches_spec(p, v) == term_matches_spec(n, v) by {}
    if token_accepts(db, e, p) {
        let i = choose|i: int| 0 <= i < haystack_spec(db, e, p).len() && term_matches_spec(p, #[trigger] haystack_spec(db, e, p)[i]);
        assert(term_matches_spec(n, haystack_spec(db, e, n)[i]));
    }
    if !token_accepts(db, e, n) {
        let i = choose|i: int| 0 <= i < haystack_spec(db, e, n).len() && term_matches_spec(n, #[trigger] haystack_spec(db, e, n)[i]);
        assert(term_matches_spec(p, haystack_spec(db, e, p)[i]));
    }
}

} // verus!

verus! {

/// A search lists the UUID of every entry that matches all tokens, and only UUIDs of such
/// entries.
pub proof fn lemma_matching_uuids_are_those_of_matching_entries(db: RxDatabase, es: Seq<Rc<RxEntry>>, toks: Seq<TokenSpec>)
    ensures
        matching_uuids(db, es, toks).len() <= es.len(),
        forall|i: int|
            0 <= i < matching_uuids(db, es, toks).len() ==> exists|j: int|
                0 <= j < es.len() && es[j].uuid == #[trigger] matching_uuids(db, es, toks)[i] && entry_matches_spec(
                    db,
                    *es[j],
                    toks,
                ),
        forall|j: int|
            0 <= j < es.len() && entry_matches_spec(db, *#[trigger] es[j], toks) ==> matching_uuids(db, es, toks).contains(
                es[j].uuid,
            ),
    decreases es.len(),
{
    let r = matching_uuids(db, es, toks);
    if es.len() > 0 {
        let init = es.drop_last();
        lemma_matching_uuids_are_those_of_matching_entries(db, init, toks);
        let rest = matching_uuids(db, init, toks);
        assert forall|i: int| 0 <= i < r.len() implies exists|j: int|
            0 <= j < es.len() && es[j].uuid == #[trigger] r[i] && entry_matches_spec(db, *es[j], toks) by {
            if i < rest.len() {
                assert(r[i] == rest[i]);
                let j = choose|j: int| 0 <= j < init.len() && init[j].uuid == rest[i] && entry_matches_spec(db, *init[j], toks);
                assert(es[j] == init[j]);
            } else {
                assert(es[es.len() - 1] == es.last());
            }
        }
        assert forall|j: int| 0 <= j < es.len() && entry_matches_spec(db, *#[trigger] es[j], toks) implies r.contains(
            es[j].uuid,
        ) by {
            if j < es.len() - 1 {
                assert(es[j] == init[j]);
                let i = choose|i: int| 0 <= i < rest.len() && rest[i] == init[j].uuid;
                assert(r[i] == rest[i]);
            } else {
                assert(es[j] == es.last());
                assert(r[r.len() - 1] == es.last().uuid);
            }
        }
    }
}

} // verus!
