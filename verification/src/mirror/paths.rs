//! Paths of candidate source files, and how well each fits the target.
use vstd::prelude::*;
use vstd::string::StringSliceAdditionalSpecFns;
use vstd::utf8::{decode_utf8, encode_utf8, valid_utf8};
use crate::mirror::{opt_text, PackageView, PreferredPackage};
use crate::outside::utf8_str;
use crate::text::{strings_view, 
    ascii_lower, char_vecs_view, chars_contains, chars_eq, chars_of, chars_starts_with, is_ascii_upper,
    push_char, push_chars, seq_contains, split_chars, split_pieces, starts_with, string_of, to_ascii_lower,
};

verus! {

/// One character as paths are compared: ASCII lower-case, `\` as `/`, `_` as `-`.
pub open spec fn norm_char(c: char) -> char {
    if is_ascii_upper(c) {
        ascii_lower(c)
    } else if c == '\\' {
        '/'
    } else if c == '_' {
        '-'
    } else {
        c
    }
}

/// A string as paths are compared.
pub open spec fn normalized(s: Seq<char>) -> Seq<char> {
    s.map_values(|c: char| norm_char(c))
}

/// Normalizes a string for comparison.
pub fn normalize(s: &str) -> (r: String)
    ensures
        r@ == normalized(s@),
{
    let cs = chars_of(s);
    let mut out: Vec<char> = Vec::new();
    for i in 0..cs.len()
        invariant
            out@ == normalized(cs@.take(i as int)),
    {
        let c = cs[i];
        let d = if 'A' <= c && c <= 'Z' {
            to_ascii_lower(c)
        } else if c == '\\' {
            '/'
        } else if c == '_' {
            '-'
        } else {
            c
        };
        out.push(d);
        assert(out@ =~= normalized(cs@.take(i + 1)));
    }
    assert(cs@.take(cs@.len() as int) =~= cs@);
    string_of(out.as_slice())
}

/// `CamelCase` to `snake_case`: each ASCII capital letter is lower-cased, with an underscore
/// before it unless it is the first character.
pub open spec fn snake_of(s: Seq<char>) -> Seq<char>
    decreases s.len(),
{
    if s.len() == 0 {
        s
    } else {
        let r = snake_of(s.drop_last());
        let c = s.last();
        if is_ascii_upper(c) {
            if s.len() > 1 {
                r + seq!['_', ascii_lower(c)]
            } else {
                r.push(ascii_lower(c))
            }
        } else {
            r.push(c)
        }
    }
}

/// Converts a type name to the snake-case file name it is usually defined in.
pub fn to_snake_case(s: &str) -> (r: String)
    ensures
        r@ == snake_of(s@),
{
    let cs = chars_of(s);
    let mut out = String::new();
    for i in 0..cs.len()
        invariant
            out@ == snake_of(cs@.take(i as int)),
    {
        assert(cs@.take(i + 1).drop_last() =~= cs@.take(i as int));
        let c = cs[i];
        if 'A' <= c && c <= 'Z' {
            if i != 0 {
                push_char(&mut out, '_');
            }
            push_char(&mut out, to_ascii_lower(c));
        } else {
            push_char(&mut out, c);
        }
    }
    assert(cs@.take(cs@.len() as int) =~= cs@);
    out
}

/// A path is absolute when it begins with `/`.
pub open spec fn is_absolute(p: Seq<char>) -> bool {
    p.len() > 0 && p[0] == '/'
}

/// Whether the piece at position `i` between slashes is a component: empty pieces never
/// are, nor is `.` except as the first piece of a relative path.
pub open spec fn keep_piece(piece: Seq<char>, i: int, abs: bool) -> bool {
    piece.len() > 0 && (piece != seq!['.'] || (i == 0 && !abs))
}

/// The pieces that are components, in order.
pub open spec fn kept_pieces(ps: Seq<Seq<char>>, abs: bool) -> Seq<Seq<char>>
    decreases ps.len(),
{
    if ps.len() == 0 {
        ps
    } else {
        let r = kept_pieces(ps.drop_last(), abs);
        if keep_piece(ps.last(), ps.len() - 1, abs) {
            r.push(ps.last())
        } else {
            r
        }
    }
}

/// The components of a Unix path (`Path::components`), each as its text: the root `/` first
/// for an absolute path, then the names between slashes, without empty ones and without `.`
/// except at the start of a relative path.
pub open spec fn path_components(p: Seq<char>) -> Seq<Seq<char>> {
    let abs = is_absolute(p);
    (if abs {
        seq![seq!['/']]
    } else {
        Seq::empty()
    }) + kept_pieces(split_pieces(p, '/'), abs)
}

/// The file name of a path: its last component, unless that is the root, `.` or `..`.
pub open spec fn file_name_of(p: Seq<char>) -> Option<Seq<char>> {
    let cs = path_components(p);
    if cs.len() > 0 && cs.last() != seq!['/'] && cs.last() != seq!['.'] && cs.last() != seq!['.', '.'] {
        Some(cs.last())
    } else {
        None
    }
}

/// Position of the last `.` in a name, or -1.
pub open spec fn last_dot(name: Seq<char>) -> int
    decreases name.len(),
{
    if name.len() == 0 {
        -1
    } else if name.last() == '.' {
        name.len() - 1
    } else {
        last_dot(name.drop_last())
    }
}

/// The stem of a file name (`Path::file_stem`): the part before the last `.`, or the whole
/// name when it has no `.` but a leading one.
pub open spec fn stem_of(name: Seq<char>) -> Seq<char> {
    let k = last_dot(name);
    if k <= 0 {
        name
    } else {
        name.take(k)
    }
}

/// The components of a path.
pub fn components_of(path: &str) -> (r: Vec<Vec<char>>)
    ensures
        char_vecs_view(r@) == path_components(path@),
{
    let cs = chars_of(path);
    let abs = cs.len() > 0 && cs[0] == '/';
    let pieces = split_chars(cs.as_slice(), '/');
    let ghost ps = char_vecs_view(pieces@);
    let mut r: Vec<Vec<char>> = Vec::new();
    if abs {
        let mut root: Vec<char> = Vec::new();
        root.push('/');
        r.push(root);
    }
    let ghost prefix = if abs {
        seq![seq!['/']]
    } else {
        Seq::<Seq<char>>::empty()
    };
    assert(char_vecs_view(r@) =~= prefix + kept_pieces(ps.take(0), abs));
    for i in 0..pieces.len()
        invariant
            ps == char_vecs_view(pieces@),
            abs == is_absolute(path@),
            cs@ == path@,
            char_vecs_view(r@) == prefix + kept_pieces(ps.take(i as int), abs),
    {
        assert(ps.take(i + 1).drop_last() =~= ps.take(i as int));
        assert(ps.take(i + 1).last() == pieces@[i as int]@);
        let piece = &pieces[i];
        let is_dot = piece.len() == 1 && piece[0] == '.';
        assert(is_dot == (piece@ == seq!['.'])) by {
            if piece@.len() == 1 && piece@[0] == '.' {
                assert(piece@ =~= seq!['.']);
            }
        }
        let ghost before = char_vecs_view(r@);
        if piece.len() > 0 && (!is_dot || (i == 0 && !abs)) {
            let mut copy: Vec<char> = Vec::new();
            for k in 0..piece.len()
                invariant
                    copy@ == piece@.take(k as int),
            {
                copy.push(piece[k]);
                assert(copy@ =~= piece@.take(k + 1));
            }
            assert(piece@.take(piece@.len() as int) =~= piece@);
            r.push(copy);
            assert(char_vecs_view(r@) =~= before.push(piece@));
        }
    }
    assert(ps.take(ps.len() as int) =~= ps);
    r
}

/// The file name of a path, if it has one.
pub fn file_name(path: &str) -> (r: Option<Vec<char>>)
    ensures
        match r {
            Some(n) => file_name_of(path@) == Some(n@),
            None => file_name_of(path@) is None,
        },
{
    let mut cs = components_of(path);
    let n = cs.len();
    if n == 0 {
        return None;
    }
    let ghost v = char_vecs_view(cs@);
    let last = cs.pop().unwrap();
    assert(last@ == v.last());
    let is_root = last.len() == 1 && last[0] == '/';
    let is_dot = last.len() == 1 && last[0] == '.';
    let is_dotdot = last.len() == 2 && last[0] == '.' && last[1] == '.';
    proof {
        if last@.len() == 1 && last@[0] == '/' {
            assert(last@ =~= seq!['/']);
        }
        if last@.len() == 1 && last@[0] == '.' {
            assert(last@ =~= seq!['.']);
        }
        if last@.len() == 2 && last@[0] == '.' && last@[1] == '.' {
            assert(last@ =~= seq!['.', '.']);
        }
    }
    if is_root || is_dot || is_dotdot {
        None
    } else {
        Some(last)
    }
}

/// The stem of a file name.
pub fn file_stem(name: &[char]) -> (r: Vec<char>)
    ensures
        r@ == stem_of(name@),
{
    let mut k: usize = name.len();
    assert(name@.take(k as int) =~= name@);
    while k > 0 && name[k - 1] != '.'
        invariant
            k <= name@.len(),
            last_dot(name@) == last_dot(name@.take(k as int)),
        decreases k,
    {
        assert(name@.take(k as int).drop_last() =~= name@.take(k - 1));
        k = k - 1;
    }
    if k == 0 {
        assert(last_dot(name@.take(0)) == -1);
    } else {
        assert(name@.take(k as int).last() == '.');
    }
    if k <= 1 {
        let mut r: Vec<char> = Vec::new();
        for i in 0..name.len()
            invariant
                r@ == name@.take(i as int),
        {
            r.push(name[i]);
            assert(r@ =~= name@.take(i + 1));
        }
        assert(name@.take(name@.len() as int) =~= name@);
        r
    } else {
        let mut r: Vec<char> = Vec::new();
        let end = k - 1;
        for i in 0..end
            invariant
                end < name@.len(),
                r@ == name@.take(i as int),
        {
            r.push(name[i]);
            assert(r@ =~= name@.take(i + 1));
        }
        r
    }
}


/// The components of a path as normalized text.
pub open spec fn ncs(p: Seq<char>) -> Seq<Seq<char>> {
    path_components(p).map_values(|c: Seq<char>| normalized(c))
}

/// A path component names the crate: it is the crate's (normalized) name, that name with
/// `.rs`, or that name followed by `-`; or, when the preferred package has a version, it is
/// the directory `name-version` of that version.
pub open spec fn crate_dir_match(cs: Seq<Seq<char>>, krate: Seq<char>, pp: Option<PackageView>) -> bool {
    ||| (pp matches Some(x) && x.1 matches Some(v) && cs.contains(krate + seq!['-'] + normalized(v)))
    ||| exists|i: int|
        0 <= i < cs.len() && (cs[i] == krate || cs[i] == krate + ".rs"@ || starts_with(
            #[trigger] cs[i],
            krate + seq!['-'],
        ))
}

/// The first position at or after `start` where `cs` holds `x`, or -1.
pub open spec fn find_from(cs: Seq<Seq<char>>, x: Seq<char>, start: int) -> int
    decreases cs.len() - start,
{
    if start < 0 || start >= cs.len() {
        -1
    } else if cs[start] == x {
        start
    } else {
        find_from(cs, x, start + 1)
    }
}

/// `req` occurs in `cs` in order from `start` on, each found at its first occurrence after
/// the previous one.
pub open spec fn ordered_from(cs: Seq<Seq<char>>, req: Seq<Seq<char>>, start: int) -> bool
    decreases req.len(),
{
    if req.len() == 0 {
        true
    } else {
        let f = find_from(cs, req[0], start);
        f >= 0 && ordered_from(cs, req.drop_first(), f + 1)
    }
}

/// A path may hold the target: a component names the target's crate, and the target's
/// module path (the segments between crate and struct) appears among the components, in order.
pub open spec fn namespace_match(p: Seq<char>, segs: Seq<Seq<char>>, pp: Option<PackageView>) -> bool {
    &&& segs.len() > 0
    &&& crate_dir_match(ncs(p), normalized(segs[0]), pp)
    &&& (segs.len() <= 2 || ordered_from(
        ncs(p),
        segs.subrange(1, segs.len() - 1).map_values(|s: Seq<char>| normalized(s)),
        0,
    ))
}

/// Whether `cs` holds `x`.
fn components_contain(cs: &Vec<Vec<char>>, x: &[char]) -> (r: bool)
    ensures
        r == char_vecs_view(cs@).contains(x@),
{
    for i in 0..cs.len()
        invariant
            forall|k: int| 0 <= k < i ==> cs@[k]@ != x@,
    {
        if chars_eq(cs[i].as_slice(), x) {
            assert(char_vecs_view(cs@)[i as int] == x@);
            return true;
        }
    }
    proof {
        if char_vecs_view(cs@).contains(x@) {
            let k = choose|k: int| 0 <= k < char_vecs_view(cs@).len() && char_vecs_view(cs@)[k] == x@;
            assert(cs@[k]@ == x@);
        }
    }
    false
}

/// Whether some component of `cs` begins with `prefix`.
fn some_component_starts_with(cs: &Vec<Vec<char>>, prefix: &[char]) -> (r: bool)
    ensures
        r == exists|i: int| 0 <= i < cs@.len() && starts_with(#[trigger] char_vecs_view(cs@)[i], prefix@),
{
    for i in 0..cs.len()
        invariant
            forall|k: int| 0 <= k < i ==> !starts_with(#[trigger] char_vecs_view(cs@)[k], prefix@),
    {
        if chars_starts_with(cs[i].as_slice(), prefix) {
            assert(starts_with(char_vecs_view(cs@)[i as int], prefix@));
            return true;
        }
    }
    false
}

/// The normalized components of a path.
pub fn normalized_components_of(path: &str) -> (r: Vec<Vec<char>>)
    ensures
        char_vecs_view(r@) == ncs(path@),
{
    let cs = components_of(path);
    let mut r: Vec<Vec<char>> = Vec::new();
    for i in 0..cs.len()
        invariant
            char_vecs_view(cs@) == path_components(path@),
            char_vecs_view(r@) == ncs(path@).take(i as int),
    {
        let t = string_of(cs[i].as_slice());
        let n = normalize(t.as_str());
        let ghost before = char_vecs_view(r@);
        let nc = chars_of(n.as_str());
        assert(char_vecs_view(cs@)[i as int] == cs@[i as int]@);
        assert(nc@ == ncs(path@)[i as int]);
        r.push(nc);
        assert(char_vecs_view(r@) =~= before.push(nc@));
        assert(char_vecs_view(r@) =~= ncs(path@).take(i + 1));
    }
    assert(ncs(path@).take(ncs(path@).len() as int) =~= ncs(path@));
    r
}

/// Concatenation of characters into a new vector.
fn concat(a: &[char], b: &[char]) -> (r: Vec<char>)
    ensures
        r@ == a@ + b@,
{
    let mut r: Vec<char> = Vec::new();
    for i in 0..a.len()
        invariant
            r@ == a@.take(i as int),
    {
        r.push(a[i]);
        assert(r@ =~= a@.take(i + 1));
    }
    assert(a@.take(a@.len() as int) =~= a@);
    for i in 0..b.len()
        invariant
            r@ == a@ + b@.take(i as int),
    {
        r.push(b[i]);
        assert(r@ =~= a@ + b@.take(i + 1));
    }
    assert(b@.take(b@.len() as int) =~= b@);
    r
}

/// Whether a component names the crate (see `crate_dir_match`).
pub fn path_matches_crate_name(components: &Vec<Vec<char>>, crate_name: &[char], preferred_package: Option<&PreferredPackage>) -> (r: bool)
    ensures
        r == crate_dir_match(
            char_vecs_view(components@),
            crate_name@,
            match preferred_package {
                Some(p) => Some(p.view_package()),
                None => None,
            },
        ),
{
    let mut dash: Vec<char> = Vec::new();
    dash.push('-');
    let with_dash = concat(crate_name, dash.as_slice());
    if let Some(pp) = preferred_package {
        if let Some(version) = &pp.version {
            let v = normalize(version.as_str());
            let vc = chars_of(v.as_str());
            let dir = concat(with_dash.as_slice(), vc.as_slice());
            if components_contain(components, dir.as_slice()) {
                return true;
            }
        }
    }
    let rs = chars_of(".rs");
    let with_rs = concat(crate_name, rs.as_slice());
    let ghost cv = char_vecs_view(components@);
    for i in 0..components.len()
        invariant
            cv == char_vecs_view(components@),
            with_rs@ == crate_name@ + ".rs"@,
            with_dash@ == crate_name@ + seq!['-'],
            forall|k: int|
                0 <= k < i ==> !(cv[k] == crate_name@ || cv[k] == crate_name@ + ".rs"@ || starts_with(
                    #[trigger] cv[k],
                    crate_name@ + seq!['-'],
                )),
    {
        let c = components[i].as_slice();
        if chars_eq(c, crate_name) || chars_eq(c, with_rs.as_slice()) || chars_starts_with(c, with_dash.as_slice()) {
            assert(cv[i as int] == components@[i as int]@);
            return true;
        }
    }
    proof {
        if exists|i: int|
            0 <= i < cv.len() && (cv[i] == crate_name@ || cv[i] == crate_name@ + ".rs"@ || starts_with(
                #[trigger] cv[i],
                crate_name@ + seq!['-'],
            )) {
            let i = choose|i: int|
                0 <= i < cv.len() && (cv[i] == crate_name@ || cv[i] == crate_name@ + ".rs"@ || starts_with(
                    #[trigger] cv[i],
                    crate_name@ + seq!['-'],
                ));
        }
    }
    false
}

/// Whether `required` occurs among the components in order (see `ordered_from`).
pub fn path_contains_ordered_components(components: &Vec<Vec<char>>, required: &Vec<Vec<char>>) -> (r: bool)
    ensures
        r == ordered_from(char_vecs_view(components@), char_vecs_view(required@), 0),
{
    let ghost cv = char_vecs_view(components@);
    let ghost rv = char_vecs_view(required@);
    let mut start: usize = 0;
    assert(rv.skip(0) =~= rv);
    for j in 0..required.len()
        invariant
            cv == char_vecs_view(components@),
            rv == char_vecs_view(required@),
            start <= cv.len(),
            ordered_from(cv, rv, 0) == ordered_from(cv, rv.skip(j as int), start as int),
    {
        let mut k: usize = start;
        while k < components.len() && !chars_eq(components[k].as_slice(), required[j].as_slice())
            invariant
                start <= k <= cv.len(),
                cv == char_vecs_view(components@),
                rv == char_vecs_view(required@),
                j < required@.len(),
                find_from(cv, rv[j as int], start as int) == find_from(cv, rv[j as int], k as int),
            decreases cv.len() - k,
        {
            k = k + 1;
        }
        assert(rv.skip(j as int)[0] == rv[j as int]);
        assert(rv.skip(j as int).drop_first() =~= rv.skip(j + 1));
        if k == components.len() {
            return false;
        }
        assert(cv[k as int] == rv[j as int]);
        start = k + 1;
    }
    assert(rv.skip(required@.len() as int) =~= Seq::<Seq<char>>::empty());
    true
}


/// The view of an optional preferred package.
pub open spec fn opt_package(pp: Option<&PreferredPackage>) -> Option<PackageView> {
    match pp {
        Some(p) => Some(p.view_package()),
        None => None,
    }
}

/// Whether a path may hold the target (see `namespace_match`).
pub fn path_matches_target_namespace(path: &str, target_segments: &Vec<String>, preferred_package: Option<&PreferredPackage>) -> (r: bool)
    ensures
        r == namespace_match(path@, strings_view(target_segments@), opt_package(preferred_package)),
{
    let components = normalized_components_of(path);
    if target_segments.len() == 0 {
        return false;
    }
    let krate = normalize(target_segments[0].as_str());
    let kc = chars_of(krate.as_str());
    if !path_matches_crate_name(&components, kc.as_slice(), preferred_package) {
        return false;
    }
    if target_segments.len() <= 2 {
        return true;
    }
    let ghost segs = strings_view(target_segments@);
    let mut module_segments: Vec<Vec<char>> = Vec::new();
    let n = target_segments.len() - 1;
    for i in 1..n
        invariant
            n == target_segments@.len() - 1,
            segs == strings_view(target_segments@),
            char_vecs_view(module_segments@) == segs.subrange(1, i as int).map_values(|s: Seq<char>| normalized(s)),
    {
        let m = normalize(target_segments[i].as_str());
        let ghost before = char_vecs_view(module_segments@);
        let mc = chars_of(m.as_str());
        module_segments.push(mc);
        assert(char_vecs_view(module_segments@) =~= before.push(mc@));
        assert(char_vecs_view(module_segments@) =~= segs.subrange(1, i + 1).map_values(
            |s: Seq<char>| normalized(s),
        ));
    }
    path_contains_ordered_components(&components, &module_segments)
}

/// The first seven bytes of a revision, as text.
pub open spec fn rev_prefix(rev: Seq<char>) -> Seq<char> {
    let b = encode_utf8(rev);
    decode_utf8(b.take(if b.len() < 7 { b.len() as int } else { 7 }))
}

/// The revision of a git source: the text after its first `#`, up to any next one.
pub open spec fn git_rev(source: Seq<char>) -> Option<Seq<char>> {
    let ps = split_pieces(source, '#');
    if ps.len() >= 2 {
        Some(ps[1])
    } else {
        None
    }
}

/// Cutting a git source's revision after seven bytes falls between two characters.
pub open spec fn rev_cut_ok(pp: PackageView) -> bool {
    match pp.2 {
        Some(src) => match git_rev(src) {
            Some(rev) => starts_with(src, "git+"@) ==> {
                let b = encode_utf8(rev);
                valid_utf8(b.take(if b.len() < 7 { b.len() as int } else { 7 }))
            },
            None => true,
        },
        None => true,
    }
}

/// Points for a whole word occurring in the path.
pub open spec fn has(np: Seq<char>, word: Seq<char>) -> bool {
    seq_contains(np, word)
}

/// How well a normalized path fits the preferred package: the package's directory, its
/// version's directory, the kind of checkout its source comes from, and a git source's
/// revision directory.
pub open spec fn package_points(np: Seq<char>, pp: PackageView) -> int {
    let name = normalized(pp.0);
    let dir = seq!['/'] + name + seq!['-'];
    let by_name: int = if has(np, dir) { 10 } else { 0 };
    let by_version: int = match pp.1 {
        Some(v) => if has(np, dir + normalized(v) + seq!['/']) {
            400
        } else if has(np, dir) {
            -80
        } else {
            0
        },
        None => 0,
    };
    let by_source: int = match pp.2 {
        Some(src) => if starts_with(src, "registry+"@) {
            (if has(np, "/registry/src/"@) { 80int } else { 0 }) + (if has(np, "/git/checkouts/"@) { -120int } else { 0 })
        } else if starts_with(src, "path+"@) {
            if has(np, "/registry/src/"@) || has(np, "/git/checkouts/"@) { -120 } else { 0 }
        } else if starts_with(src, "git+"@) {
            (if has(np, "/git/checkouts/"@) { 80int } else { 0 }) + (if has(np, "/registry/src/"@) { -120int } else { 0 })
                + match git_rev(src) {
                Some(rev) => if has(np, seq!['/'] + normalized(rev_prefix(rev)) + seq!['/']) {
                    500int
                } else if has(np, "/git/checkouts/"@) {
                    -100
                } else {
                    0
                },
                None => 0,
            }
        } else {
            0
        },
        None => 0,
    };
    by_name + by_version + by_source
}

/// Whether `needle` occurs in `hay`.
fn has_text(hay: &[char], needle: &str) -> (r: bool)
    ensures
        r == seq_contains(hay@, needle@),
{
    let nc = chars_of(needle);
    chars_contains(hay, nc.as_slice())
}

/// Whether `s` begins with `prefix`.
fn text_starts_with(s: &str, prefix: &str) -> (r: bool)
    ensures
        r == starts_with(s@, prefix@),
{
    let sc = chars_of(s);
    let pc = chars_of(prefix);
    chars_starts_with(sc.as_slice(), pc.as_slice())
}

/// Scores a normalized path against the preferred package (see `package_points`).
pub fn package_match_score(normalized_path: &str, preferred_package: &PreferredPackage) -> (r: i32)
    requires
        rev_cut_ok(preferred_package.view_package()),
    ensures
        r == package_points(normalized_path@, preferred_package.view_package()),
{
    let np = chars_of(normalized_path);
    let name = normalize(preferred_package.name.as_str());
    let mut slash: Vec<char> = Vec::new();
    slash.push('/');
    let mut dash: Vec<char> = Vec::new();
    dash.push('-');
    let nc = chars_of(name.as_str());
    let dir0 = concat(slash.as_slice(), nc.as_slice());
    let dir = concat(dir0.as_slice(), dash.as_slice());
    let mut score: i32 = 0;
    let in_dir = chars_contains(np.as_slice(), dir.as_slice());
    if in_dir {
        score += 10;
    }
    if let Some(version) = &preferred_package.version {
        let v = normalize(version.as_str());
        let vc = chars_of(v.as_str());
        let d1 = concat(dir.as_slice(), vc.as_slice());
        let d2 = concat(d1.as_slice(), slash.as_slice());
        if chars_contains(np.as_slice(), d2.as_slice()) {
            score += 400;
        } else if in_dir {
            score -= 80;
        }
    }
    if let Some(source) = &preferred_package.source {
        let registry = has_text(np.as_slice(), "/registry/src/");
        let checkouts = has_text(np.as_slice(), "/git/checkouts/");
        if text_starts_with(source.as_str(), "registry+") {
            if registry {
                score += 80;
            }
            if checkouts {
                score -= 120;
            }
        } else if text_starts_with(source.as_str(), "path+") {
            if registry || checkouts {
                score -= 120;
            }
        } else if text_starts_with(source.as_str(), "git+") {
            if checkouts {
                score += 80;
            }
            if registry {
                score -= 120;
            }
            let sc = chars_of(source.as_str());
            let pieces = split_chars(sc.as_slice(), '#');
            if pieces.len() >= 2 {
                let rev = string_of(pieces[1].as_slice());
                let bytes = rev.as_str().as_bytes();
                let cut = if bytes.len() < 7 {
                    bytes.len()
                } else {
                    7
                };
                let head = slice_bytes(bytes, cut);
                let short = match utf8_str(head.as_slice()) {
                    Some(t) => normalize(t),
                    None => {
                        assert(false);
                        String::new()
                    },
                };
                let shc = chars_of(short.as_str());
                let w0 = concat(slash.as_slice(), shc.as_slice());
                let w = concat(w0.as_slice(), slash.as_slice());
                if chars_contains(np.as_slice(), w.as_slice()) {
                    score += 500;
                } else if checkouts {
                    score -= 100;
                }
            }
        }
    }
    score
}

/// The first `n` bytes.
fn slice_bytes(b: &[u8], n: usize) -> (r: Vec<u8>)
    requires
        n <= b@.len(),
    ensures
        r@ == b@.take(n as int),
{
    let mut r: Vec<u8> = Vec::new();
    for i in 0..n
        invariant
            n <= b@.len(),
            r@ == b@.take(i as int),
    {
        r.push(b[i]);
        assert(r@ =~= b@.take(i + 1));
    }
    r
}


/// Points for the target segment at position `i`: the last (the struct) scores 40 when it is
/// the file's stem; any other scores 40 when it is a component, else 15 when a component
/// begins with it and `-`.
pub open spec fn segment_points(cs: Seq<Seq<char>>, stem: Seq<char>, segs: Seq<Seq<char>>, i: int) -> int {
    let n = normalized(segs[i]);
    if i + 1 == segs.len() {
        if stem == n {
            40
        } else {
            0
        }
    } else if cs.contains(n) {
        40
    } else if exists|j: int| 0 <= j < cs.len() && starts_with(#[trigger] cs[j], n + seq!['-']) {
        15
    } else {
        0
    }
}

/// The points of the first `k` target segments.
pub open spec fn segments_points(cs: Seq<Seq<char>>, stem: Seq<char>, segs: Seq<Seq<char>>, k: int) -> int
    decreases k,
{
    if k <= 0 {
        0
    } else {
        segments_points(cs, stem, segs, k - 1) + segment_points(cs, stem, segs, k - 1)
    }
}

/// How well a path fits the target: 100 when the file is named after the struct, 10 when
/// it lies under a `src` directory, points for each target segment, and, with a preferred
/// package, the package's points.
pub open spec fn path_score(p: Seq<char>, segs: Seq<Seq<char>>, snake: Seq<char>, pp: Option<PackageView>) -> int {
    let stem = match file_name_of(p) {
        Some(n) => normalized(stem_of(n)),
        None => Seq::empty(),
    };
    (if file_name_of(p) == Some(snake + ".rs"@) {
        100int
    } else {
        0
    }) + (if seq_contains(normalized(p), "/src/"@) {
        10int
    } else {
        0
    }) + segments_points(ncs(p), stem, segs, segs.len() as int) + match pp {
        Some(x) => package_points(normalized(p), x),
        None => 0,
    }
}

proof fn lemma_segments_points_bounds(cs: Seq<Seq<char>>, stem: Seq<char>, segs: Seq<Seq<char>>, k: int)
    requires
        0 <= k,
    ensures
        0 <= segments_points(cs, stem, segs, k) <= 40 * k,
    decreases k,
{
    if k > 0 {
        lemma_segments_points_bounds(cs, stem, segs, k - 1);
    }
}

proof fn lemma_package_points_bounds(np: Seq<char>, pp: PackageView)
    ensures
        -400 <= package_points(np, pp) <= 1000,
{
}

/// The most target segments whose highest score fits in an `i32`: 110 for the file name and
/// `/src/`, 40 per segment, and 1000 for the package make at most `i32::MAX`.
pub const MAX_SCORED_SEGMENTS: usize = 53_687_063;

/// Scores a candidate path for the target (see `path_score`). The score is an `i32`, so the
/// target may have at most `MAX_SCORED_SEGMENTS` segments.
pub fn score_path(path: &str, target_segments: &Vec<String>, snake: &str, preferred_package: Option<&PreferredPackage>) -> (r: i32)
    requires
        target_segments@.len() <= MAX_SCORED_SEGMENTS,
        preferred_package matches Some(p) ==> rev_cut_ok(p.view_package()),
    ensures
        r == path_score(path@, strings_view(target_segments@), snake@, opt_package(preferred_package)),
{
    let ghost segs = strings_view(target_segments@);
    let normalized_path = normalize(path);
    let npc = chars_of(normalized_path.as_str());
    let components = normalized_components_of(path);
    let name = file_name(path);
    let stem: Vec<char> = match &name {
        Some(n) => {
            let st = file_stem(n.as_slice());
            let sts = string_of(st.as_slice());
            let ns = normalize(sts.as_str());
            chars_of(ns.as_str())
        },
        None => Vec::new(),
    };
    let mut score: i32 = 0;
    let wanted = concat(chars_of(snake).as_slice(), chars_of(".rs").as_slice());
    if let Some(n) = &name {
        if chars_eq(n.as_slice(), wanted.as_slice()) {
            score += 100;
        }
    }
    if has_text(npc.as_slice(), "/src/") {
        score += 10;
    }
    let ghost cs = char_vecs_view(components@);
    let ghost stem_v = stem@;
    let ghost base: int = score as int;
    proof {
        lemma_segments_points_bounds(cs, stem_v, segs, segs.len() as int);
    }
    let count = target_segments.len();
    for i in 0..count
        invariant
            count == target_segments@.len(),
            count <= MAX_SCORED_SEGMENTS,
            segs == strings_view(target_segments@),
            cs == char_vecs_view(components@),
            stem_v == stem@,
            0 <= base <= 110,
            score == base + segments_points(cs, stem_v, segs, i as int),
    {
        proof {
            lemma_segments_points_bounds(cs, stem_v, segs, i + 1);
        }
        let n = normalize(target_segments[i].as_str());
        let nc = chars_of(n.as_str());
        if i + 1 == count {
            if chars_eq(stem.as_slice(), nc.as_slice()) {
                score += 40;
            }
        } else if components_contain(&components, nc.as_slice()) {
            score += 40;
        } else {
            let mut dash: Vec<char> = Vec::new();
            dash.push('-');
            let with_dash = concat(nc.as_slice(), dash.as_slice());
            if some_component_starts_with(&components, with_dash.as_slice()) {
                score += 15;
            }
        }
    }
    if let Some(pp) = preferred_package {
        proof {
            lemma_package_points_bounds(npc@, pp.view_package());
        }
        score += package_match_score(normalized_path.as_str(), pp);
    }
    score
}

} // verus!
