//! The arguments of `#[mirror_from(...)]`: a target path, then `key = value` options.
use vstd::prelude::*;
use crate::outside::{lex_tokens, lexed, lit_str_value, lit_str_value_of, lit_usize, lit_usize_of};
use crate::text::{str_eq, strings_view};

verus! {

/// A token of the argument list, as the Rust lexer splits it.
#[derive(Debug)]
pub enum MirrorToken {
    /// An identifier or keyword, as written (a raw identifier keeps its `r#`).
    Ident(String),
    /// A punctuation character, and whether the next character is glued to it.
    Punct(char, bool),
    /// A literal, as written.
    Literal(String),
    /// A delimited group, and whether its delimiters are parentheses.
    Group(bool),
}

/// A token as mathematical values.
pub enum TokenView {
    Ident(Seq<char>),
    Punct(char, bool),
    Literal(Seq<char>),
    Group(bool),
}

impl View for MirrorToken {
    type V = TokenView;

    open spec fn view(&self) -> TokenView {
        match self {
            MirrorToken::Ident(s) => TokenView::Ident(s@),
            MirrorToken::Punct(c, j) => TokenView::Punct(*c, *j),
            MirrorToken::Literal(s) => TokenView::Literal(s@),
            MirrorToken::Group(p) => TokenView::Group(*p),
        }
    }
}

/// The views of tokens.
pub open spec fn tokens_view(v: Seq<MirrorToken>) -> Seq<TokenView> {
    v.map_values(|t: MirrorToken| t@)
}

/// The words that are not identifiers (`_` and the Rust keywords, strict and reserved).
pub open spec fn is_keyword(s: Seq<char>) -> bool {
    ||| s == "_"@ ||| s == "abstract"@ ||| s == "as"@ ||| s == "async"@ ||| s == "await"@
    ||| s == "become"@ ||| s == "box"@ ||| s == "break"@ ||| s == "const"@ ||| s == "continue"@
    ||| s == "crate"@ ||| s == "do"@ ||| s == "dyn"@ ||| s == "else"@ ||| s == "enum"@
    ||| s == "extern"@ ||| s == "false"@ ||| s == "final"@ ||| s == "fn"@ ||| s == "for"@
    ||| s == "if"@ ||| s == "impl"@ ||| s == "in"@ ||| s == "let"@ ||| s == "loop"@
    ||| s == "macro"@ ||| s == "match"@ ||| s == "mod"@ ||| s == "move"@ ||| s == "mut"@
    ||| s == "override"@ ||| s == "priv"@ ||| s == "pub"@ ||| s == "ref"@ ||| s == "return"@
    ||| s == "Self"@ ||| s == "self"@ ||| s == "static"@ ||| s == "struct"@ ||| s == "super"@
    ||| s == "trait"@ ||| s == "true"@ ||| s == "try"@ ||| s == "type"@ ||| s == "typeof"@
    ||| s == "unsafe"@ ||| s == "unsized"@ ||| s == "use"@ ||| s == "virtual"@ ||| s == "where"@
    ||| s == "while"@ ||| s == "yield"@
}

/// The keywords that may stand as a path segment on their own, taking no arguments.
pub open spec fn is_plain_segment_keyword(s: Seq<char>) -> bool {
    s == "super"@ || s == "self"@ || s == "crate"@ || s == "try"@
}

/// The name of the path segment at `j`: an identifier, `Self`, or a segment keyword.
pub open spec fn segment_at(ts: Seq<TokenView>, j: int) -> Option<Seq<char>> {
    if 0 <= j < ts.len() {
        match ts[j] {
            TokenView::Ident(name) => if !is_keyword(name) || is_plain_segment_keyword(name) || name == "Self"@ {
                Some(name)
            } else {
                None
            },
            _ => None,
        }
    } else {
        None
    }
}

/// The token at `i` is the punctuation character `c`.
pub open spec fn punct_at(ts: Seq<TokenView>, i: int, c: char) -> bool {
    0 <= i < ts.len() && (ts[i] matches TokenView::Punct(p, _) && p == c)
}

/// The token at `i` is the punctuation character `c`, glued to the next one.
pub open spec fn joint_punct_at(ts: Seq<TokenView>, i: int, c: char) -> bool {
    0 <= i < ts.len() && ts[i] == TokenView::Punct(c, true)
}

/// A `::` starts at `i`.
pub open spec fn path_sep_at(ts: Seq<TokenView>, i: int) -> bool {
    joint_punct_at(ts, i, ':') && punct_at(ts, i + 1, ':')
}

/// Generic arguments follow a segment ending before `i`: a `<` that does not start `<=` or
/// `<<=`, or a `::` followed by `<`.
pub open spec fn generics_at(ts: Seq<TokenView>, i: int) -> bool {
    ||| punct_at(ts, i, '<') && !(joint_punct_at(ts, i, '<') && punct_at(ts, i + 1, '=')) && !(joint_punct_at(
        ts,
        i,
        '<',
    ) && joint_punct_at(ts, i + 1, '<') && punct_at(ts, i + 2, '='))
    ||| path_sep_at(ts, i) && punct_at(ts, i + 2, '<')
}

/// Why the arguments cannot be read.
#[derive(Debug)]
pub enum MirrorArgsError {
    /// The text is no sequence of Rust tokens.
    Lex,
    /// A path segment was expected.
    ExpectedPath,
    /// A path segment carries generic arguments, which a mirror target cannot have.
    GenericArguments,
    /// An option name was expected.
    ExpectedIdent,
    /// `=` was expected after an option name.
    ExpectedEq,
    /// The value of an option is not a literal of its type, or does not fit.
    BadValue,
    /// An option of that name does not exist.
    UnknownOption(String),
    /// Tokens are left after the arguments.
    Unexpected,
}

/// The error of reading arguments as mathematical values.
pub enum ArgsErrorView {
    Lex,
    ExpectedPath,
    GenericArguments,
    ExpectedIdent,
    ExpectedEq,
    BadValue,
    UnknownOption(Seq<char>),
    Unexpected,
}

impl MirrorArgsError {
    /// This error as mathematical values.
    pub open spec fn view_error(&self) -> ArgsErrorView {
        match self {
            MirrorArgsError::Lex => ArgsErrorView::Lex,
            MirrorArgsError::ExpectedPath => ArgsErrorView::ExpectedPath,
            MirrorArgsError::GenericArguments => ArgsErrorView::GenericArguments,
            MirrorArgsError::ExpectedIdent => ArgsErrorView::ExpectedIdent,
            MirrorArgsError::ExpectedEq => ArgsErrorView::ExpectedEq,
            MirrorArgsError::BadValue => ArgsErrorView::BadValue,
            MirrorArgsError::UnknownOption(k) => ArgsErrorView::UnknownOption(k@),
            MirrorArgsError::Unexpected => ArgsErrorView::Unexpected,
        }
    }

    /// The message of this error.
    pub fn to_string(&self) -> (r: String)
        ensures
            self matches MirrorArgsError::UnknownOption(k) ==> r@ == "unknown mirror_from option `"@ + k@
                + "`"@,
    {
        match self {
            MirrorArgsError::Lex => crate::text::to_owned_string("could not split the arguments into tokens"),
            MirrorArgsError::ExpectedPath => crate::text::to_owned_string("expected a path segment"),
            MirrorArgsError::GenericArguments => crate::text::to_owned_string("a mirror_from target takes no generic arguments"),
            MirrorArgsError::ExpectedIdent => crate::text::to_owned_string("expected identifier"),
            MirrorArgsError::ExpectedEq => crate::text::to_owned_string("expected `=`"),
            MirrorArgsError::BadValue => crate::text::to_owned_string("expected a literal of the option's type"),
            MirrorArgsError::UnknownOption(k) => {
                let mut m = crate::text::to_owned_string("unknown mirror_from option `");
                crate::text::push_str(&mut m, k.as_str());
                crate::text::push_str(&mut m, "`");
                m
            },
            MirrorArgsError::Unexpected => crate::text::to_owned_string("unexpected token"),
        }
    }
}

/// The arguments of `#[mirror_from(...)]`.
#[derive(Debug)]
pub struct MirrorArgs {
    /// The segments of the target path.
    pub target: Vec<String>,
    pub file: Option<String>,
    pub roots: Vec<String>,
    pub imports: Vec<String>,
    pub max_depth: usize,
}

/// Arguments as mathematical values: target segments, file, roots, imports, depth.
pub type ArgsView = (Seq<Seq<char>>, Option<Seq<char>>, Seq<Seq<char>>, Seq<Seq<char>>, usize);

impl MirrorArgs {
    /// These arguments as mathematical values.
    pub open spec fn view_args(&self) -> ArgsView {
        (
            strings_view(self.target@),
            crate::mirror::opt_text(self.file),
            strings_view(self.roots@),
            strings_view(self.imports@),
            self.max_depth,
        )
    }
}

/// The default depth of the directory walk.
pub const DEFAULT_MAX_DEPTH: usize = 12;

/// The segments of a path starting at `j`, after the segments `acc`, and where the path
/// ends. Segments are joined by `::`; a `::` followed by a parenthesised group ends the path.
pub open spec fn path_rest(ts: Seq<TokenView>, j: int, acc: Seq<Seq<char>>) -> Result<(Seq<Seq<char>>, int), ArgsErrorView>
    decreases ts.len() - j,
{
    match segment_at(ts, j) {
        None => Err(ArgsErrorView::ExpectedPath),
        Some(name) => {
            let segs = acc.push(name);
            if !is_plain_segment_keyword(name) && generics_at(ts, j + 1) {
                Err(ArgsErrorView::GenericArguments)
            } else if path_sep_at(ts, j + 1) && !(0 <= j + 3 < ts.len() && ts[j + 3] == TokenView::Group(true)) {
                path_rest(ts, j + 3, segs)
            } else {
                Ok((segs, j + 1))
            }
        },
    }
}

/// The target path at the start of the tokens, with an optional leading `::`.
pub open spec fn path_of(ts: Seq<TokenView>) -> Result<(Seq<Seq<char>>, int), ArgsErrorView> {
    path_rest(ts, if path_sep_at(ts, 0) { 2 } else { 0 }, Seq::empty())
}

/// The string value of the literal at `i`, if it is a string literal.
pub open spec fn str_lit_at(ts: Seq<TokenView>, i: int) -> Option<Seq<char>> {
    if 0 <= i < ts.len() {
        match ts[i] {
            TokenView::Literal(text) => lit_str_value_of(text),
            _ => None,
        }
    } else {
        None
    }
}

/// The value of the literal at `i`, if it is an integer literal that fits a `usize`.
pub open spec fn usize_lit_at(ts: Seq<TokenView>, i: int) -> Option<usize> {
    if 0 <= i < ts.len() {
        match ts[i] {
            TokenView::Literal(text) => lit_usize_of(text),
            _ => None,
        }
    } else {
        None
    }
}

/// The options from `i` on, each `, key = value`, applied to the arguments read so far: `file`
/// and `max_depth` take the last value given, `root` and `import` collect theirs. A trailing
/// comma is allowed; anything else after the options is refused.
pub open spec fn options_from(ts: Seq<TokenView>, i: int, a: ArgsView) -> Result<ArgsView, ArgsErrorView>
    decreases ts.len() - i,
{
    if i < 0 || i > ts.len() {
        Err(ArgsErrorView::Unexpected)
    } else if !punct_at(ts, i, ',') {
        if i == ts.len() {
            Ok(a)
        } else {
            Err(ArgsErrorView::Unexpected)
        }
    } else if i + 1 == ts.len() {
        Ok(a)
    } else {
        match ts[i + 1] {
            TokenView::Ident(key) => if is_keyword(key) {
                Err(ArgsErrorView::ExpectedIdent)
            } else if !punct_at(ts, i + 2, '=') {
                Err(ArgsErrorView::ExpectedEq)
            } else if key == "file"@ {
                match str_lit_at(ts, i + 3) {
                    Some(v) => options_from(ts, i + 4, (a.0, Some(v), a.2, a.3, a.4)),
                    None => Err(ArgsErrorView::BadValue),
                }
            } else if key == "root"@ {
                match str_lit_at(ts, i + 3) {
                    Some(v) => options_from(ts, i + 4, (a.0, a.1, a.2.push(v), a.3, a.4)),
                    None => Err(ArgsErrorView::BadValue),
                }
            } else if key == "import"@ {
                match str_lit_at(ts, i + 3) {
                    Some(v) => options_from(ts, i + 4, (a.0, a.1, a.2, a.3.push(v), a.4)),
                    None => Err(ArgsErrorView::BadValue),
                }
            } else if key == "max_depth"@ {
                match usize_lit_at(ts, i + 3) {
                    Some(n) => options_from(ts, i + 4, (a.0, a.1, a.2, a.3, n)),
                    None => Err(ArgsErrorView::BadValue),
                }
            } else {
                Err(ArgsErrorView::UnknownOption(key))
            },
            _ => Err(ArgsErrorView::ExpectedIdent),
        }
    }
}

/// The arguments the tokens spell: the target path, then the options, on top of no file,
/// no roots, no imports and the default depth.
pub open spec fn args_of(ts: Seq<TokenView>) -> Result<ArgsView, ArgsErrorView> {
    match path_of(ts) {
        Err(e) => Err(e),
        Ok((target, next)) => options_from(
            ts,
            next,
            (target, None, Seq::empty(), Seq::empty(), DEFAULT_MAX_DEPTH),
        ),
    }
}

/// The result of reading arguments as mathematical values.
pub open spec fn args_result_view(r: Result<MirrorArgs, MirrorArgsError>) -> Result<ArgsView, ArgsErrorView> {
    match r {
        Ok(a) => Ok(a.view_args()),
        Err(e) => Err(e.view_error()),
    }
}

/// The word is a keyword (see `is_keyword`).
fn keyword(s: &str) -> (r: bool)
    ensures
        r == is_keyword(s@),
{
    str_eq(s, "_") || str_eq(s, "abstract") || str_eq(s, "as") || str_eq(s, "async") || str_eq(s, "await")
        || str_eq(s, "become") || str_eq(s, "box") || str_eq(s, "break") || str_eq(s, "const") || str_eq(
        s,
        "continue",
    ) || str_eq(s, "crate") || str_eq(s, "do") || str_eq(s, "dyn") || str_eq(s, "else") || str_eq(s, "enum")
        || str_eq(s, "extern") || str_eq(s, "false") || str_eq(s, "final") || str_eq(s, "fn") || str_eq(
        s,
        "for",
    ) || str_eq(s, "if") || str_eq(s, "impl") || str_eq(s, "in") || str_eq(s, "let") || str_eq(s, "loop")
        || str_eq(s, "macro") || str_eq(s, "match") || str_eq(s, "mod") || str_eq(s, "move") || str_eq(
        s,
        "mut",
    ) || str_eq(s, "override") || str_eq(s, "priv") || str_eq(s, "pub") || str_eq(s, "ref") || str_eq(
        s,
        "return",
    ) || str_eq(s, "Self") || str_eq(s, "self") || str_eq(s, "static") || str_eq(s, "struct") || str_eq(
        s,
        "super",
    ) || str_eq(s, "trait") || str_eq(s, "true") || str_eq(s, "try") || str_eq(s, "type") || str_eq(
        s,
        "typeof",
    ) || str_eq(s, "unsafe") || str_eq(s, "unsized") || str_eq(s, "use") || str_eq(s, "virtual") || str_eq(
        s,
        "where",
    ) || str_eq(s, "while") || str_eq(s, "yield")
}

/// The token at `i` is the punctuation character `c`.
fn is_punct(ts: &[MirrorToken], i: usize, c: char) -> (r: bool)
    ensures
        r == punct_at(tokens_view(ts@), i as int, c),
{
    if i < ts.len() {
        match &ts[i] {
            MirrorToken::Punct(p, _) => *p == c,
            _ => false,
        }
    } else {
        false
    }
}

/// The token at `i` is the punctuation character `c`, glued to the next one.
fn is_joint_punct(ts: &[MirrorToken], i: usize, c: char) -> (r: bool)
    ensures
        r == joint_punct_at(tokens_view(ts@), i as int, c),
{
    if i < ts.len() {
        match &ts[i] {
            MirrorToken::Punct(p, j) => *p == c && *j,
            _ => false,
        }
    } else {
        false
    }
}

/// A `::` starts at `i`.
fn is_path_sep(ts: &[MirrorToken], i: usize) -> (r: bool)
    requires
        ts@.len() < usize::MAX,
    ensures
        r == path_sep_at(tokens_view(ts@), i as int),
{
    is_joint_punct(ts, i, ':') && i < ts.len() && is_punct(ts, i + 1, ':')
}

/// Generic arguments follow at `i` (see `generics_at`).
fn has_generics(ts: &[MirrorToken], i: usize) -> (r: bool)
    requires
        ts@.len() < usize::MAX - 2,
    ensures
        r == generics_at(tokens_view(ts@), i as int),
{
    if i >= ts.len() {
        return false;
    }
    let lt = is_punct(ts, i, '<');
    let le = is_joint_punct(ts, i, '<') && is_punct(ts, i + 1, '=');
    let shl_eq = is_joint_punct(ts, i, '<') && is_joint_punct(ts, i + 1, '<') && is_punct(ts, i + 2, '=');
    (lt && !le && !shl_eq) || (is_path_sep(ts, i) && is_punct(ts, i + 2, '<'))
}

/// Reads the target path (see `path_of`).
fn parse_path(ts: &[MirrorToken]) -> (r: Result<(Vec<String>, usize), MirrorArgsError>)
    requires
        ts@.len() < usize::MAX - 4,
    ensures
        match r {
            Ok((segs, next)) => path_of(tokens_view(ts@)) == Ok::<(Seq<Seq<char>>, int), ArgsErrorView>(
                (strings_view(segs@), next as int),
            ),
            Err(e) => path_of(tokens_view(ts@)) == Err::<(Seq<Seq<char>>, int), ArgsErrorView>(e.view_error()),
        },
{
    let ghost tv = tokens_view(ts@);
    let mut j: usize = if is_path_sep(ts, 0) {
        2
    } else {
        0
    };
    let mut segs: Vec<String> = Vec::new();
    assert(strings_view(segs@) =~= Seq::<Seq<char>>::empty());
    loop
        invariant
            tv == tokens_view(ts@),
            ts@.len() < usize::MAX - 4,
            j <= ts@.len() + 3,
            path_rest(tv, j as int, strings_view(segs@)) == path_of(tv),
        decreases ts@.len() + 3 - j,
    {
        if j >= ts.len() {
            return Err(MirrorArgsError::ExpectedPath);
        }
        let name = match &ts[j] {
            MirrorToken::Ident(n) => n,
            _ => {
                return Err(MirrorArgsError::ExpectedPath);
            },
        };
        let plain = str_eq(name.as_str(), "super") || str_eq(name.as_str(), "self") || str_eq(name.as_str(), "crate")
            || str_eq(name.as_str(), "try");
        if keyword(name.as_str()) && !plain && !str_eq(name.as_str(), "Self") {
            return Err(MirrorArgsError::ExpectedPath);
        }
        assert(segment_at(tv, j as int) == Some(name@));
        let ghost before = strings_view(segs@);
        segs.push(name.clone());
        assert(strings_view(segs@) =~= before.push(name@));
        if !plain && has_generics(ts, j + 1) {
            return Err(MirrorArgsError::GenericArguments);
        }
        let paren_next = j + 3 < ts.len() && match &ts[j + 3] {
            MirrorToken::Group(p) => *p,
            _ => false,
        };
        if is_path_sep(ts, j + 1) && !paren_next {
            j = j + 3;
        } else {
            return Ok((segs, j + 1));
        }
    }
}

/// Reads the arguments from their tokens (see `args_of`).
pub fn parse_mirror_args(ts: &[MirrorToken]) -> (r: Result<MirrorArgs, MirrorArgsError>)
    requires
        ts@.len() < usize::MAX - 4,
    ensures
        args_result_view(r) == args_of(tokens_view(ts@)),
{
    let ghost tv = tokens_view(ts@);
    let (target, start) = match parse_path(ts) {
        Ok(p) => p,
        Err(e) => {
            return Err(e);
        },
    };
    let mut args = MirrorArgs {
        target,
        file: None,
        roots: Vec::new(),
        imports: Vec::new(),
        max_depth: DEFAULT_MAX_DEPTH,
    };
    assert(args.view_args() == (strings_view(args.target@), None::<Seq<char>>, Seq::<Seq<char>>::empty(), Seq::<
        Seq<char>,
    >::empty(), DEFAULT_MAX_DEPTH));
    let mut i: usize = start;
    proof {
        assert(path_of(tv) matches Ok((_, n)) && n <= tv.len()) by {
            lemma_path_rest_end(tv, if path_sep_at(tv, 0) { 2 } else { 0 }, Seq::empty());
        }
    }
    loop
        invariant
            tv == tokens_view(ts@),
            ts@.len() < usize::MAX - 4,
            i <= ts@.len(),
            options_from(tv, i as int, args.view_args()) == args_of(tv),
        decreases ts@.len() - i,
    {
        if !is_punct(ts, i, ',') {
            if i == ts.len() {
                return Ok(args);
            } else {
                return Err(MirrorArgsError::Unexpected);
            }
        }
        if i + 1 == ts.len() {
            return Ok(args);
        }
        let key = match &ts[i + 1] {
            MirrorToken::Ident(k) => k,
            _ => {
                return Err(MirrorArgsError::ExpectedIdent);
            },
        };
        if keyword(key.as_str()) {
            return Err(MirrorArgsError::ExpectedIdent);
        }
        if !is_punct(ts, i + 2, '=') {
            return Err(MirrorArgsError::ExpectedEq);
        }
        let ghost a = args.view_args();
        if str_eq(key.as_str(), "file") || str_eq(key.as_str(), "root") || str_eq(key.as_str(), "import") {
            let value = match literal_text(ts, i + 3) {
                Some(text) => lit_str_value(text),
                None => None,
            };
            let v = match value {
                Some(v) => v,
                None => {
                    return Err(MirrorArgsError::BadValue);
                },
            };
            assert(str_lit_at(tv, i + 3) == Some(v@));
            if str_eq(key.as_str(), "file") {
                args.file = Some(v);
            } else if str_eq(key.as_str(), "root") {
                args.roots.push(v);
                assert(strings_view(args.roots@) =~= a.2.push(v@));
            } else {
                args.imports.push(v);
                assert(strings_view(args.imports@) =~= a.3.push(v@));
            }
        } else if str_eq(key.as_str(), "max_depth") {
            let n = match literal_text(ts, i + 3) {
                Some(text) => lit_usize(text),
                None => None,
            };
            match n {
                Some(n) => {
                    assert(usize_lit_at(tv, i + 3) == Some(n));
                    args.max_depth = n;
                },
                None => {
                    return Err(MirrorArgsError::BadValue);
                },
            }
        } else {
            return Err(MirrorArgsError::UnknownOption(key.clone()));
        }
        if i + 4 > ts.len() {
            return Err(MirrorArgsError::Unexpected);
        }
        i = i + 4;
    }
}

/// The text of the literal at `i`, if the token there is one.
fn literal_text(ts: &[MirrorToken], i: usize) -> (r: Option<&str>)
    ensures
        match r {
            Some(t) => 0 <= i < ts@.len() && tokens_view(ts@)[i as int] == TokenView::Literal(t@),
            None => !(0 <= i < ts@.len() && tokens_view(ts@)[i as int] is Literal),
        },
{
    if i < ts.len() {
        match &ts[i] {
            MirrorToken::Literal(t) => Some(t.as_str()),
            _ => None,
        }
    } else {
        None
    }
}

/// A path that parses ends within the tokens.
proof fn lemma_path_rest_end(ts: Seq<TokenView>, j: int, acc: Seq<Seq<char>>)
    ensures
        path_rest(ts, j, acc) matches Ok((_, n)) ==> n <= ts.len(),
    decreases ts.len() - j,
{
    match segment_at(ts, j) {
        Some(name) => {
            if !(!is_plain_segment_keyword(name) && generics_at(ts, j + 1)) && path_sep_at(ts, j + 1) && !(0
                <= j + 3 < ts.len() && ts[j + 3] == TokenView::Group(true)) {
                lemma_path_rest_end(ts, j + 3, acc.push(name));
            }
        },
        None => {},
    }
}

/// Reads the arguments of `#[mirror_from(...)]` from their text: the text is split into
/// tokens by the Rust lexer, then read (see `args_of`).
pub fn parse_mirror_args_str(text: &str) -> (r: Result<MirrorArgs, MirrorArgsError>)
    ensures
        match lexed(text@) {
            None => r == Err::<MirrorArgs, MirrorArgsError>(MirrorArgsError::Lex),
            Some(ts) => ts.len() < usize::MAX - 4 ==> args_result_view(r) == args_of(ts),
        },
{
    match lex_tokens(text) {
        None => Err(MirrorArgsError::Lex),
        Some(ts) => {
            if ts.len() >= usize::MAX - 4 {
                return Err(MirrorArgsError::Unexpected);
            }
            parse_mirror_args(ts.as_slice())
        },
    }
}

} // verus!
