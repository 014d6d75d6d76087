//! Built-in icons bundled as SVG files with the user interface.
use vstd::prelude::*;
use crate::text::{chars_contains, chars_of, push_char, seq_contains, to_owned_string};

verus! {

/// The character of a decimal digit.
pub open spec fn digit_char(d: nat) -> char {
    if d < 10 {
        (d + 48) as char
    } else {
        '?'
    }
}

/// The decimal digits of a number, without leading zeros.
pub open spec fn decimal(n: nat) -> Seq<char>
    decreases n,
{
    if n < 10 {
        seq![digit_char(n)]
    } else {
        decimal(n / 10).push(digit_char(n % 10))
    }
}

/// Writes a number in decimal.
pub fn decimal_string(n: usize) -> (r: String)
    ensures
        r@ == decimal(n as nat),
    decreases n,
{
    let d = (n % 10) as u8;
    let c = (d + 48) as char;
    assert(c == digit_char((n % 10) as nat));
    if n < 10 {
        let mut r = String::new();
        push_char(&mut r, c);
        assert(r@ =~= seq![digit_char(n as nat)]);
        r
    } else {
        let mut r = decimal_string(n / 10);
        push_char(&mut r, c);
        r
    }
}

/// Writes a wide number in decimal.
pub fn decimal_string_wide(n: u128) -> (r: String)
    ensures
        r@ == decimal(n as nat),
    decreases n,
{
    let d = (n % 10) as u8;
    let c = (d + 48) as char;
    assert(c == digit_char((n % 10) as nat));
    if n < 10 {
        let mut r = String::new();
        push_char(&mut r, c);
        assert(r@ =~= seq![digit_char(n as nat)]);
        r
    } else {
        let mut r = decimal_string_wide(n / 10);
        push_char(&mut r, c);
        r
    }
}

/// The mark of a built-in icon in a file name: `C` and the icon's number.
pub open spec fn icon_mark(icon_id: nat) -> Seq<char> {
    seq!['C'] + decimal(icon_id)
}

/// The SVG file of a built-in icon: the first of the bundled file names, in the order the
/// bundle lists them, that holds `C` followed by the icon's number.
pub fn to_builtin_icon(icon_id: usize, file_names: &[&str]) -> (r: Option<String>)
    ensures
        match r {
            Some(name) => exists|i: int|
                0 <= i < file_names@.len() && seq_contains(file_names@[i]@, icon_mark(icon_id as nat))
                    && name@ == file_names@[i]@ && forall|j: int|
                    0 <= j < i ==> !seq_contains(#[trigger] file_names@[j]@, icon_mark(icon_id as nat)),
            None => forall|i: int|
                0 <= i < file_names@.len() ==> !seq_contains(
                    #[trigger] file_names@[i]@,
                    icon_mark(icon_id as nat),
                ),
        },
{
    let mut mark = to_owned_string("C");
    proof {
        reveal_strlit("C");
    }
    let digits = decimal_string(icon_id);
    let dc = chars_of(digits.as_str());
    for k in 0..dc.len()
        invariant
            mark@ == seq!['C'] + dc@.take(k as int),
    {
        push_char(&mut mark, dc[k]);
        assert(dc@.take(k + 1) == dc@.take(k as int).push(dc@[k as int]));
    }
    assert(dc@.take(dc@.len() as int) == dc@);
    let mc = chars_of(mark.as_str());
    assert(mc@ == icon_mark(icon_id as nat));
    let n = file_names.len();
    for i in 0..n
        invariant
            n == file_names@.len(),
            mc@ == icon_mark(icon_id as nat),
            forall|j: int| 0 <= j < i ==> !seq_contains(#[trigger] file_names@[j]@, mc@),
    {
        let name = file_names[i];
        let nc = chars_of(name);
        if chars_contains(nc.as_slice(), mc.as_slice()) {
            return Some(to_owned_string(name));
        }
    }
    None
}

} // verus!
