//! Reading what `Cargo.toml` and `Cargo.lock` say of a package.
use vstd::prelude::*;
use crate::mirror::{opt_text, PackageView, PreferredPackage};
use crate::text::{
    char_vecs_view, chars_eq, chars_of, chars_starts_with, find_char, is_ascii_digit, is_whitespace,
    leading_ws, occurs_at, slice_chars, split_chars, split_pieces, starts_with, string_of, trim,
    trim_chars, count_leading_ws, lemma_ws_counts_bounded, to_owned_string,
};

verus! {

/// A line without the `\r` of a `\r\n` ending.
pub open spec fn strip_cr(l: Seq<char>) -> Seq<char> {
    if l.len() > 0 && l.last() == '\r' {
        l.drop_last()
    } else {
        l
    }
}

/// The lines of a text (`str::lines`): split at `\n`, a `\r` before the `\n` dropped, and
/// no empty last line after a final `\n`.
pub open spec fn lines_of(s: Seq<char>) -> Seq<Seq<char>> {
    let ps = split_pieces(s, '\n');
    ps.drop_last().map_values(|l: Seq<char>| strip_cr(l)) + if ps.last().len() > 0 {
        seq![ps.last()]
    } else {
        Seq::empty()
    }
}

/// Splits a text into lines.
pub fn text_lines(s: &str) -> (r: Vec<Vec<char>>)
    ensures
        char_vecs_view(r@) == lines_of(s@),
{
    let cs = chars_of(s);
    let mut pieces = split_chars(cs.as_slice(), '\n');
    proof {
        crate::text::lemma_split_pieces_nonempty(s@, '\n');
    }
    let ghost ps = char_vecs_view(pieces@);
    let last = pieces.pop().unwrap();
    assert(last@ == ps.last());
    let mut r: Vec<Vec<char>> = Vec::new();
    for i in 0..pieces.len()
        invariant
            char_vecs_view(pieces@) == ps.drop_last(),
            char_vecs_view(r@) == ps.drop_last().take(i as int).map_values(|l: Seq<char>| strip_cr(l)),
    {
        let p = &pieces[i];
        assert(ps.drop_last()[i as int] == p@);
        let line = if p.len() > 0 && p[p.len() - 1] == '\r' {
            slice_chars(p.as_slice(), 0, p.len() - 1)
        } else {
            slice_chars(p.as_slice(), 0, p.len())
        };
        assert(line@ == strip_cr(p@));
        let ghost before = char_vecs_view(r@);
        r.push(line);
        assert(char_vecs_view(r@) =~= before.push(line@));
        assert(char_vecs_view(r@) =~= ps.drop_last().take(i + 1).map_values(|l: Seq<char>| strip_cr(l)));
    }
    assert(ps.drop_last().take(ps.drop_last().len() as int) =~= ps.drop_last());
    let ghost before = char_vecs_view(r@);
    if last.len() > 0 {
        r.push(last);
        assert(char_vecs_view(r@) =~= before.push(ps.last()));
    }
    assert(char_vecs_view(r@) =~= lines_of(s@));
    r
}

/// `s` without its first `n` characters, when it begins with `prefix` (`strip_prefix`).
pub open spec fn strip_prefix(s: Seq<char>, prefix: Seq<char>) -> Option<Seq<char>> {
    if starts_with(s, prefix) {
        Some(s.skip(prefix.len() as int))
    } else {
        None
    }
}

/// `s` without a final `c` (`strip_suffix` of one character).
pub open spec fn strip_last(s: Seq<char>, c: char) -> Option<Seq<char>> {
    if s.len() > 0 && s.last() == c {
        Some(s.drop_last())
    } else {
        None
    }
}

/// The value of a line `key = "value"`.
pub open spec fn toml_string_value(line: Seq<char>, key: Seq<char>) -> Option<Seq<char>> {
    match strip_prefix(line, key + " = \""@) {
        Some(rest) => strip_last(rest, '"'),
        None => None,
    }
}

/// The text inside double quotes.
pub open spec fn quoted(value: Seq<char>) -> Option<Seq<char>> {
    if value.len() > 0 && value[0] == '"' {
        strip_last(value.drop_first(), '"')
    } else {
        None
    }
}

/// The text inside double quotes, if the value is quoted.
pub fn parse_toml_quoted_string(value: &[char]) -> (r: Option<Vec<char>>)
    ensures
        match r {
            Some(v) => quoted(value@) == Some(v@),
            None => quoted(value@) is None,
        },
{
    if value.len() >= 2 && value[0] == '"' && value[value.len() - 1] == '"' {
        let v = slice_chars(value, 1, value.len() - 1);
        assert(v@ =~= value@.drop_first().drop_last());
        Some(v)
    } else {
        proof {
            if value@.len() == 1 && value@[0] == '"' {
                assert(value@.drop_first().len() == 0);
            }
        }
        None
    }
}

/// The value of a line `key = "value"`, if the line is one.
pub fn parse_toml_string_value(line: &[char], key: &str) -> (r: Option<Vec<char>>)
    ensures
        match r {
            Some(v) => toml_string_value(line@, key@) == Some(v@),
            None => toml_string_value(line@, key@) is None,
        },
{
    let mut prefix = chars_of(key);
    let tail = chars_of(" = \"");
    for i in 0..tail.len()
        invariant
            prefix@ == key@ + tail@.take(i as int),
    {
        prefix.push(tail[i]);
        assert(prefix@ =~= key@ + tail@.take(i + 1));
    }
    assert(tail@.take(tail@.len() as int) =~= tail@);
    if !chars_starts_with(line, prefix.as_slice()) {
        return None;
    }
    let rest = slice_chars(line, prefix.len(), line.len());
    assert(rest@ == line@.skip(prefix@.len() as int));
    if rest.len() > 0 && rest[rest.len() - 1] == '"' {
        let v = slice_chars(rest.as_slice(), 0, rest.len() - 1);
        assert(v@ =~= rest@.drop_last());
        Some(v)
    } else {
        None
    }
}

/// First position where `needle` occurs in `hay`, or -1.
pub open spec fn first_occurrence(hay: Seq<char>, needle: Seq<char>) -> int {
    if exists|i: int| occurs_at(hay, needle, i) {
        choose|i: int| occurs_at(hay, needle, i) && forall|j: int| 0 <= j < i ==> !occurs_at(hay, needle, j)
    } else {
        -1
    }
}

/// The second piece of `s` split at `needle` (`s.split(needle).nth(1)`).
pub open spec fn second_piece(s: Seq<char>, needle: Seq<char>) -> Option<Seq<char>> {
    let k = first_occurrence(s, needle);
    if k < 0 {
        None
    } else {
        let rest = s.skip(k + needle.len());
        let k2 = first_occurrence(rest, needle);
        Some(if k2 < 0 { rest } else { rest.take(k2) })
    }
}

/// Position of the first `c` in `s`, or -1.
pub open spec fn first_pos(s: Seq<char>, c: char) -> int
    decreases s.len(),
{
    if s.len() == 0 {
        -1
    } else if s[0] == c {
        0
    } else {
        let r = first_pos(s.drop_first(), c);
        if r < 0 {
            -1
        } else {
            r + 1
        }
    }
}

/// The part before the first `c`, or all of `s`.
pub open spec fn before_char(s: Seq<char>, c: char) -> Seq<char> {
    let k = first_pos(s, c);
    if k < 0 {
        s
    } else {
        s.take(k)
    }
}

/// The first position of a character, as a scan finds it.
pub proof fn lemma_first_pos(s: Seq<char>, c: char, p: int)
    requires
        (0 <= p < s.len() && s[p] == c && forall|k: int| 0 <= k < p ==> s[k] != c) || (p == -1
            && forall|k: int| 0 <= k < s.len() ==> s[k] != c),
    ensures
        first_pos(s, c) == p,
    decreases s.len(),
{
    if s.len() > 0 && s[0] != c {
        let t = s.drop_first();
        if p == -1 {
            assert forall|k: int| 0 <= k < t.len() implies t[k] != c by {
                assert(t[k] == s[k + 1]);
            }
            lemma_first_pos(t, c, -1);
        } else {
            assert forall|k: int| 0 <= k < p - 1 implies t[k] != c by {
                assert(t[k] == s[k + 1]);
            }
            assert(t[p - 1] == s[p]);
            lemma_first_pos(t, c, p - 1);
        }
    }
}

/// The quoted value of `key = "..."` in an inline table, as the original reads it: the text
/// after the first `key = `, up to a comma, trimmed, unquoted.
pub open spec fn inline_table_value(value: Seq<char>, key: Seq<char>) -> Option<Seq<char>> {
    match second_piece(value, key + " = "@) {
        Some(tail) => {
            let t = tail.skip(leading_ws(tail) as int);
            quoted(trim(before_char(t, ',')))
        },
        None => None,
    }
}

/// First position at or after `from` where `needle` occurs, if any.
pub(crate) fn find_text(hay: &[char], needle: &[char], from: usize) -> (r: Option<usize>)
    requires
        needle@.len() > 0,
        from <= hay@.len(),
    ensures
        match r {
            Some(i) => from <= i && occurs_at(hay@, needle@, i as int) && forall|j: int|
                from <= j < i ==> !occurs_at(hay@, needle@, j),
            None => forall|j: int| from <= j ==> !occurs_at(hay@, needle@, j),
        },
{
    if needle.len() > hay.len() {
        return None;
    }
    let hlen = hay.len();
    let last = hay.len() - needle.len();
    if from > last {
        assert forall|j: int| from <= j implies !occurs_at(hay@, needle@, j) by {}
        return None;
    }
    let mut i = from;
    while i <= last
        invariant
            from <= i,
            i <= last + 1,
            last < hlen,
            hlen == hay@.len(),
            last + needle@.len() == hay@.len(),
            forall|j: int| from <= j < i ==> !occurs_at(hay@, needle@, j),
        decreases last + 1 - i,
    {
        if crate::text::chars_occur_at(hay, needle, i) {
            return Some(i);
        }
        i = i + 1;
    }
    None
}

pub(crate) proof fn lemma_first_occurrence(hay: Seq<char>, needle: Seq<char>, i: int)
    requires
        occurs_at(hay, needle, i),
        forall|j: int| 0 <= j < i ==> !occurs_at(hay, needle, j),
    ensures
        first_occurrence(hay, needle) == i,
{
    let k = choose|k: int| occurs_at(hay, needle, k) && forall|j: int| 0 <= j < k ==> !occurs_at(hay, needle, j);
    assert(occurs_at(hay, needle, i) && forall|j: int| 0 <= j < i ==> !occurs_at(hay, needle, j));
    if k < i {
        assert(!occurs_at(hay, needle, k));
    }
    if i < k {
        assert(!occurs_at(hay, needle, i));
    }
}

/// Reads the quoted value of a key in an inline table (see `inline_table_value`).
pub fn extract_key_from_inline_table(value: &[char], key: &str) -> (r: Option<Vec<char>>)
    ensures
        match r {
            Some(v) => inline_table_value(value@, key@) == Some(v@),
            None => inline_table_value(value@, key@) is None,
        },
{
    let mut needle = chars_of(key);
    let tail = chars_of(" = ");
    for i in 0..tail.len()
        invariant
            needle@ == key@ + tail@.take(i as int),
    {
        needle.push(tail[i]);
        assert(needle@ =~= key@ + tail@.take(i + 1));
    }
    assert(tail@.take(tail@.len() as int) =~= tail@);
    proof {
        reveal_strlit(" = ");
    }
    let k = match find_text(value, needle.as_slice(), 0) {
        Some(k) => k,
        None => {
            proof {
                if exists|i: int| occurs_at(value@, needle@, i) {
                    let i = choose|i: int| occurs_at(value@, needle@, i);
                    assert(0 <= i);
                }
            }
            return None;
        },
    };
    proof {
        lemma_first_occurrence(value@, needle@, k as int);
        assert(k + needle@.len() <= value@.len());
    }
    let vlen = value.len();
    assert(k + needle.len() <= vlen);
    let rest = slice_chars(value, k + needle.len(), vlen);
    assert(rest@ =~= value@.skip(k + needle@.len()));
    let piece = match find_text(rest.as_slice(), needle.as_slice(), 0) {
        Some(k2) => {
            proof {
                lemma_first_occurrence(rest@, needle@, k2 as int);
            }
            slice_chars(rest.as_slice(), 0, k2)
        },
        None => {
            proof {
                if exists|i: int| occurs_at(rest@, needle@, i) {
                    let i = choose|i: int| occurs_at(rest@, needle@, i);
                    assert(0 <= i);
                }
            }
            assert(rest@.subrange(0, rest@.len() as int) =~= rest@);
            slice_chars(rest.as_slice(), 0, rest.len())
        },
    };
    assert(second_piece(value@, key@ + " = "@) == Some(piece@));
    let lead = count_leading_ws(piece.as_slice());
    proof {
        lemma_ws_counts_bounded(piece@);
    }
    let t = slice_chars(piece.as_slice(), lead, piece.len());
    assert(t@ =~= piece@.skip(lead as int));
    let field = match find_char(t.as_slice(), ',', 0) {
        Some(c) => {
            proof {
                lemma_first_pos(t@, ',', c as int);
            }
            slice_chars(t.as_slice(), 0, c)
        },
        None => {
            proof {
                lemma_first_pos(t@, ',', -1);
            }
            assert(t@.subrange(0, t@.len() as int) =~= t@);
            slice_chars(t.as_slice(), 0, t.len())
        },
    };
    assert(field@ == before_char(t@, ','));
    let trimmed = trim_chars(field.as_slice());
    parse_toml_quoted_string(trimmed.as_slice())
}


/// End of the run of digits and dots that starts at `i`.
pub open spec fn run_end(s: Seq<char>, i: int) -> int
    decreases s.len() - i,
{
    if 0 <= i < s.len() && (is_ascii_digit(s[i]) || s[i] == '.') {
        run_end(s, i + 1)
    } else {
        i
    }
}

/// The first run of digits and dots, from position `i` on, that starts with a digit and
/// holds a dot.
pub open spec fn semver_from(s: Seq<char>, i: int) -> Option<Seq<char>>
    decreases s.len() - i,
{
    if i < 0 || i >= s.len() {
        None
    } else if is_ascii_digit(s[i]) && s.subrange(i, run_end(s, i)).contains('.') {
        Some(s.subrange(i, run_end(s, i)))
    } else {
        semver_from(s, i + 1)
    }
}

proof fn lemma_run_end_bounds(s: Seq<char>, i: int)
    requires
        0 <= i <= s.len(),
    ensures
        i <= run_end(s, i) <= s.len(),
    decreases s.len() - i,
{
    if i < s.len() && (is_ascii_digit(s[i]) || s[i] == '.') {
        lemma_run_end_bounds(s, i + 1);
    }
}

/// Finds something that looks like a version (`1.2`, `0.12.4`) in a text.
pub fn extract_semverish_version(input: &[char]) -> (r: Option<String>)
    ensures
        match r {
            Some(v) => semver_from(input@, 0) == Some(v@),
            None => semver_from(input@, 0) is None,
        },
{
    let n = input.len();
    for start in 0..n
        invariant
            n == input@.len(),
            semver_from(input@, 0) == semver_from(input@, start as int),
    {
        if '0' <= input[start] && input[start] <= '9' {
            let mut end = start;
            while end < n && (('0' <= input[end] && input[end] <= '9') || input[end] == '.')
                invariant
                    start <= end <= n,
                    n == input@.len(),
                    run_end(input@, start as int) == run_end(input@, end as int),
                decreases n - end,
            {
                end = end + 1;
            }
            let candidate = slice_chars(input, start, end);
            let has_dot = match find_char(candidate.as_slice(), '.', 0) {
                Some(q) => {
                    assert(candidate@[q as int] == '.');
                    true
                },
                None => false,
            };
            if has_dot {
                return Some(string_of(candidate.as_slice()));
            }
        }
    }
    None
}

/// Splits at the first `=`.
pub open spec fn split_once_eq(t: Seq<char>) -> Option<(Seq<char>, Seq<char>)> {
    let k = first_pos(t, '=');
    if k < 0 {
        None
    } else {
        Some((t.take(k), t.skip(k + 1)))
    }
}

/// The package a dependency line's (trimmed) value describes: a quoted version requirement
/// means the registry; an inline table gives its version and, by its keys, a git, path or
/// registry source; anything else describes nothing.
pub open spec fn dependency_entry(krate: Seq<char>, value: Seq<char>) -> Option<PackageView> {
    match quoted(value) {
        Some(v) => Some((krate, semver_from(v, 0), Some("registry+"@))),
        None => if value.len() > 0 && value[0] == '{' {
            let version = match inline_table_value(value, "version"@) {
                Some(v) => semver_from(v, 0),
                None => None,
            };
            let source = if inline_table_value(value, "git"@) is Some {
                "git+"@
            } else if inline_table_value(value, "path"@) is Some {
                "path+"@
            } else {
                "registry+"@
            };
            Some((krate, version, Some(source)))
        } else {
            None
        },
    }
}

/// A line opens a dependency table.
pub open spec fn is_dependency_header(t: Seq<char>) -> bool {
    t == "[dependencies]"@ || t == "[build-dependencies]"@ || t == "[dev-dependencies]"@
}

/// What the manifest lines from here on say of the crate, given whether a dependency table
/// is open: the first dependency line for the crate that describes a package.
pub open spec fn manifest_scan(lines: Seq<Seq<char>>, krate: Seq<char>, in_deps: bool) -> Option<PackageView>
    decreases lines.len(),
{
    if lines.len() == 0 {
        None
    } else {
        let t = trim(lines[0]);
        let rest = lines.drop_first();
        if t.len() > 0 && t[0] == '[' {
            manifest_scan(rest, krate, is_dependency_header(t))
        } else if !in_deps || (t.len() > 0 && t[0] == '#') || t.len() == 0 {
            manifest_scan(rest, krate, in_deps)
        } else {
            match split_once_eq(t) {
                None => manifest_scan(rest, krate, in_deps),
                Some(p) => if trim(p.0) != krate {
                    manifest_scan(rest, krate, in_deps)
                } else {
                    match dependency_entry(krate, trim(p.1)) {
                        Some(x) => Some(x),
                        None => manifest_scan(rest, krate, in_deps),
                    }
                },
            }
        }
    }
}

/// The package view of an optional character vector.
pub open spec fn opt_chars(v: Option<Vec<char>>) -> Option<Seq<char>> {
    match v {
        Some(x) => Some(x@),
        None => None,
    }
}

/// Whether `t` equals a string.
fn is_text(t: &[char], s: &str) -> (r: bool)
    ensures
        r == (t@ == s@),
{
    let sc = chars_of(s);
    chars_eq(t, sc.as_slice())
}

/// Reads the package a manifest line's trimmed value describes (see `dependency_entry`).
fn dependency_from_value(crate_name: &str, value: &[char]) -> (r: Option<PreferredPackage>)
    ensures
        match r {
            Some(p) => dependency_entry(crate_name@, value@) == Some(p.view_package()),
            None => dependency_entry(crate_name@, value@) is None,
        },
{
    if let Some(v) = parse_toml_quoted_string(value) {
        return Some(PreferredPackage {
            name: to_owned_string(crate_name),
            version: extract_semverish_version(v.as_slice()),
            source: Some(to_owned_string("registry+")),
        });
    }
    if !(value.len() > 0 && value[0] == '{') {
        return None;
    }
    let version = match extract_key_from_inline_table(value, "version") {
        Some(v) => extract_semverish_version(v.as_slice()),
        None => None,
    };
    let source = if extract_key_from_inline_table(value, "git").is_some() {
        to_owned_string("git+")
    } else if extract_key_from_inline_table(value, "path").is_some() {
        to_owned_string("path+")
    } else {
        to_owned_string("registry+")
    };
    Some(PreferredPackage { name: to_owned_string(crate_name), version, source: Some(source) })
}

/// What a manifest's text says of a dependency on the crate (see `manifest_scan`).
pub fn parse_manifest_dependency(src: &str, crate_name: &str) -> (r: Option<PreferredPackage>)
    ensures
        match r {
            Some(p) => manifest_scan(lines_of(src@), crate_name@, false) == Some(p.view_package()),
            None => manifest_scan(lines_of(src@), crate_name@, false) is None,
        },
{
    let lines = text_lines(src);
    let ghost ls = char_vecs_view(lines@);
    let mut in_dependencies = false;
    let kc = chars_of(crate_name);
    assert(ls.skip(0) =~= ls);
    let mut i: usize = 0;
    while i < lines.len()
        invariant
            i <= lines@.len(),
            ls == char_vecs_view(lines@),
            ls == lines_of(src@),
            kc@ == crate_name@,
            manifest_scan(ls, crate_name@, false) == manifest_scan(ls.skip(i as int), crate_name@, in_dependencies),
        decreases lines@.len() - i,
    {
        assert(ls.skip(i as int)[0] == lines@[i as int]@);
        assert(ls.skip(i as int).drop_first() =~= ls.skip(i + 1));
        let trimmed = trim_chars(lines[i].as_slice());
        i = i + 1;
        if trimmed.len() > 0 && trimmed[0] == '[' {
            in_dependencies = is_text(trimmed.as_slice(), "[dependencies]") || is_text(
                trimmed.as_slice(),
                "[build-dependencies]",
            ) || is_text(trimmed.as_slice(), "[dev-dependencies]");
            continue;
        }
        if !in_dependencies || (trimmed.len() > 0 && trimmed[0] == '#') || trimmed.len() == 0 {
            continue;
        }
        let eq = match find_char(trimmed.as_slice(), '=', 0) {
            Some(k) => k,
            None => {
                proof {
                    lemma_first_pos(trimmed@, '=', -1);
                }
                continue;
            },
        };
        proof {
            lemma_first_pos(trimmed@, '=', eq as int);
        }
        let name = slice_chars(trimmed.as_slice(), 0, eq);
        let value = slice_chars(trimmed.as_slice(), eq + 1, trimmed.len());
        assert(name@ =~= trimmed@.take(eq as int));
        assert(value@ =~= trimmed@.skip(eq + 1));
        let tn = trim_chars(name.as_slice());
        if !chars_eq(tn.as_slice(), kc.as_slice()) {
            continue;
        }
        let tv = trim_chars(value.as_slice());
        match dependency_from_value(crate_name, tv.as_slice()) {
            Some(p) => return Some(p),
            None => {},
        }
    }
    assert(ls.skip(ls.len() as int) =~= Seq::<Seq<char>>::empty());
    None
}

/// The state of a lockfile scan: inside the crate's package entry, and the version and
/// source read there so far.
pub type LockState = (bool, Option<Seq<char>>, Option<Seq<char>>);

/// What the lockfile lines from here on say of the crate: the version and source of its
/// first package entry, read until the next entry or name line.
pub open spec fn lock_scan(lines: Seq<Seq<char>>, krate: Seq<char>, st: LockState) -> Option<PackageView>
    decreases lines.len(),
{
    let finish = if st.0 {
        Some((krate, st.1, st.2))
    } else {
        None
    };
    if lines.len() == 0 {
        finish
    } else {
        let t = trim(lines[0]);
        let rest = lines.drop_first();
        if t == "[[package]]"@ {
            if st.0 {
                finish
            } else {
                lock_scan(rest, krate, (false, None, None))
            }
        } else {
            match toml_string_value(t, "name"@) {
                Some(n) => if st.0 {
                    finish
                } else {
                    lock_scan(rest, krate, (n == krate, st.1, st.2))
                },
                None => if !st.0 {
                    lock_scan(rest, krate, st)
                } else {
                    match toml_string_value(t, "version"@) {
                        Some(v) => lock_scan(rest, krate, (true, Some(v), st.2)),
                        None => match toml_string_value(t, "source"@) {
                            Some(s) => lock_scan(rest, krate, (true, st.1, Some(s))),
                            None => lock_scan(rest, krate, st),
                        },
                    }
                },
            }
        }
    }
}

/// What a lockfile's text says of the crate's package (see `lock_scan`).
pub fn parse_lockfile_package(src: &str, crate_name: &str) -> (r: Option<PreferredPackage>)
    ensures
        match r {
            Some(p) => lock_scan(lines_of(src@), crate_name@, (false, None, None)) == Some(p.view_package()),
            None => lock_scan(lines_of(src@), crate_name@, (false, None, None)) is None,
        },
{
    let lines = text_lines(src);
    let ghost ls = char_vecs_view(lines@);
    let kc = chars_of(crate_name);
    let mut in_matching_package = false;
    let mut version: Option<Vec<char>> = None;
    let mut source: Option<Vec<char>> = None;
    assert(ls.skip(0) =~= ls);
    let mut i: usize = 0;
    while i < lines.len()
        invariant_except_break
            lock_scan(ls, crate_name@, (false, None, None)) == lock_scan(
                ls.skip(i as int),
                crate_name@,
                (in_matching_package, opt_chars(version), opt_chars(source)),
            ),
        invariant
            i <= lines@.len(),
            ls == char_vecs_view(lines@),
            ls == lines_of(src@),
            kc@ == crate_name@,
        ensures
            lock_scan(ls, crate_name@, (false, None, None)) == if in_matching_package {
                Some((crate_name@, opt_chars(version), opt_chars(source)))
            } else {
                None
            },
        decreases lines@.len() - i,
    {
        assert(ls.skip(i as int)[0] == lines@[i as int]@);
        assert(ls.skip(i as int).drop_first() =~= ls.skip(i + 1));
        let trimmed = trim_chars(lines[i].as_slice());
        i = i + 1;
        if is_text(trimmed.as_slice(), "[[package]]") {
            if in_matching_package {
                break;
            }
            in_matching_package = false;
            version = None;
            source = None;
            continue;
        }
        if let Some(name) = parse_toml_string_value(trimmed.as_slice(), "name") {
            if in_matching_package {
                break;
            }
            in_matching_package = chars_eq(name.as_slice(), kc.as_slice());
            continue;
        }
        if !in_matching_package {
            continue;
        }
        if let Some(value) = parse_toml_string_value(trimmed.as_slice(), "version") {
            version = Some(value);
            continue;
        }
        if let Some(value) = parse_toml_string_value(trimmed.as_slice(), "source") {
            source = Some(value);
        }
    }
    if in_matching_package {
        Some(PreferredPackage {
            name: to_owned_string(crate_name),
            version: match version {
                Some(v) => Some(string_of(v.as_slice())),
                None => None,
            },
            source: match source {
                Some(s) => Some(string_of(s.as_slice())),
                None => None,
            },
        })
    } else {
        None
    }
}

} // verus!
