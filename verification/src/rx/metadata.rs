//! Database-wide settings stored by KeePassXC, and the searches it saves.
use vstd::prelude::*;
use crate::mirror::opt_text;
use crate::outside::{json_members, json_object_members, regex_capture, regex_first_capture};
use crate::rx::rx_db::RxMetadata;
use crate::text::{chars_of, is_ascii_digit, str_eq, strings_view};

verus! {

/// The pattern that finds the text of a `String("...")` value.
pub const STRING_VALUE_PATTERN: &'static str = r#"String\("([^"\\]*(?:\\.[^"\\]*)*)"\)"#;

/// The pattern that finds the number of an `Int32(...)` value.
pub const I32_VALUE_PATTERN: &'static str = r#"Int32\(([^"\\]*(?:\\.[^"\\]*)*)\)"#;

/// The text inside `String("...")` in the printed form of a custom data value.
pub open spec fn string_value_of(input: Seq<char>) -> Option<Seq<char>> {
    match regex_first_capture(STRING_VALUE_PATTERN@, input) {
        Some(Some(c)) => Some(c),
        _ => None,
    }
}

/// Reads the text of a printed `String(...)` value.
pub fn extract_string(input: String) -> (r: Option<String>)
    ensures
        match r {
            Some(s) => string_value_of(input@) == Some(s@),
            None => string_value_of(input@) is None,
        },
{
    match regex_capture(STRING_VALUE_PATTERN, input.as_str()) {
        Some(Some(c)) => Some(c),
        _ => None,
    }
}

/// The value of a decimal digit.
pub open spec fn digit_value(c: char) -> int {
    (c as int) - ('0' as int)
}

/// The value of a sequence of decimal digits.
pub open spec fn digits_value(s: Seq<char>) -> int
    decreases s.len(),
{
    if s.len() == 0 {
        0
    } else {
        digits_value(s.drop_last()) * 10 + digit_value(s.last())
    }
}

/// All characters are decimal digits.
pub open spec fn all_digits(s: Seq<char>) -> bool {
    forall|i: int| 0 <= i < s.len() ==> is_ascii_digit(s[i])
}

/// What `str::parse::<i32>` reads: an optional sign and at least one decimal digit, whose
/// value fits in an `i32`.
pub open spec fn i32_of(s: Seq<char>) -> Option<i32> {
    let neg = s.len() > 0 && s[0] == '-';
    let signed = s.len() > 0 && (s[0] == '-' || s[0] == '+');
    let digits = if signed { s.drop_first() } else { s };
    let v = if neg { -digits_value(digits) } else { digits_value(digits) };
    if digits.len() > 0 && all_digits(digits) && i32::MIN <= v <= i32::MAX {
        Some(v as i32)
    } else {
        None
    }
}

proof fn lemma_digits_value_nonneg(s: Seq<char>)
    requires
        all_digits(s),
    ensures
        digits_value(s) >= 0,
    decreases s.len(),
{
    if s.len() > 0 {
        assert(all_digits(s.drop_last())) by {
            assert forall|i: int| 0 <= i < s.drop_last().len() implies is_ascii_digit(s.drop_last()[i]) by {
                assert(s.drop_last()[i] == s[i]);
            }
        }
        lemma_digits_value_nonneg(s.drop_last());
    }
}

/// Parses a decimal `i32` as `str::parse` does (see `i32_of`).
pub fn parse_i32(s: &str) -> (r: Option<i32>)
    ensures
        r == i32_of(s@),
{
    let cs = chars_of(s);
    let n = cs.len();
    let neg = n > 0 && cs[0] == '-';
    let signed = n > 0 && (cs[0] == '-' || cs[0] == '+');
    let start: usize = if signed { 1 } else { 0 };
    let ghost digits = if signed { s@.drop_first() } else { s@ };
    assert(digits =~= s@.subrange(start as int, n as int));
    if start == n {
        return None;
    }
    let mut acc: i64 = 0;
    let mut i = start;
    while i < n
        invariant
            start <= i <= n,
            n == cs@.len(),
            cs@ == s@,
            digits == s@.subrange(start as int, n as int),
            digits == (if s@.len() > 0 && (s@[0] == '-' || s@[0] == '+') {
                s@.drop_first()
            } else {
                s@
            }),
            neg == (s@.len() > 0 && s@[0] == '-'),
            all_digits(s@.subrange(start as int, i as int)),
            acc == digits_value(s@.subrange(start as int, i as int)),
            0 <= acc <= 2147483648,
        decreases n - i,
    {
        let c = cs[i];
        if !('0' <= c && c <= '9') {
            assert(!all_digits(digits)) by {
                assert(digits[i - start] == c);
                assert(!is_ascii_digit(digits[i - start]));
            }
            assert(i32_of(s@) is None);
            return None;
        }
        let d = (c as u32 - '0' as u32) as i64;
        assert(s@.subrange(start as int, i + 1).drop_last() =~= s@.subrange(start as int, i as int));
        proof {
            let ext = s@.subrange(start as int, i + 1);
            let pre = s@.subrange(start as int, i as int);
            assert forall|k: int| 0 <= k < ext.len() implies is_ascii_digit(#[trigger] ext[k]) by {
                if k < pre.len() {
                    assert(ext[k] == pre[k]);
                }
            }
        }
        let next = acc * 10 + d;
        if next > 2147483648 {
            proof {
                if all_digits(digits) {
                    assert(digits.take(i + 1 - start) =~= s@.subrange(start as int, i + 1));
                    lemma_digits_value_grows(s@.subrange(start as int, i + 1), digits);
                }
            }
            assert(i32_of(s@) is None);
            return None;
        }
        acc = next;
        i = i + 1;
    }
    assert(s@.subrange(start as int, n as int) == digits);
    if neg {
        Some((0 - acc) as i32)
    } else if acc > 2147483647 {
        None
    } else {
        Some(acc as i32)
    }
}

/// A longer run of digits is worth at least as much as its prefix.
proof fn lemma_digits_value_grows(prefix: Seq<char>, s: Seq<char>)
    requires
        prefix.len() <= s.len(),
        prefix == s.take(prefix.len() as int),
        all_digits(s),
    ensures
        digits_value(s) >= digits_value(prefix),
    decreases s.len(),
{
    if prefix.len() < s.len() {
        assert(s.drop_last().take(prefix.len() as int) =~= prefix);
        assert(all_digits(s.drop_last())) by {
            assert forall|i: int| 0 <= i < s.drop_last().len() implies is_ascii_digit(s.drop_last()[i]) by {
                assert(s.drop_last()[i] == s[i]);
            }
        }
        lemma_digits_value_grows(prefix, s.drop_last());
        lemma_digits_value_nonneg(s.drop_last());
    } else {
        assert(prefix =~= s);
    }
}

/// The number inside `Int32(...)` in the printed form of a custom data value.
pub open spec fn i32_value_of(input: Seq<char>) -> Option<i32> {
    match regex_first_capture(I32_VALUE_PATTERN@, input) {
        Some(Some(c)) => i32_of(c),
        _ => None,
    }
}

/// Reads the number of a printed `Int32(...)` value.
pub fn extract_i32(input: String) -> (r: Option<i32>)
    ensures
        r == i32_value_of(input@),
{
    match regex_capture(I32_VALUE_PATTERN, input.as_str()) {
        Some(Some(c)) => parse_i32(c.as_str()),
        _ => None,
    }
}

/// The printed value stored under a key among custom data items, the first with the key.
pub open spec fn custom_value(items: Seq<(Seq<char>, Seq<char>)>, key: Seq<char>) -> Option<Seq<char>>
    decreases items.len(),
{
    if items.len() == 0 {
        None
    } else if items[0].0 == key {
        Some(items[0].1)
    } else {
        custom_value(items.drop_first(), key)
    }
}

/// The view of printed custom data items.
pub open spec fn items_view(items: Seq<(String, String)>) -> Seq<(Seq<char>, Seq<char>)> {
    items.map_values(|p: (String, String)| (p.0@, p.1@))
}

/// Finds the printed value of a key.
fn find_custom_value(items: &Vec<(String, String)>, key: &str) -> (r: Option<String>)
    ensures
        opt_text(r) == custom_value(items_view(items@), key@),
{
    let ghost iv = items_view(items@);
    let mut i: usize = 0;
    assert(iv.skip(0) =~= iv);
    while i < items.len()
        invariant
            iv == items_view(items@),
            i <= items@.len(),
            custom_value(iv, key@) == custom_value(iv.skip(i as int), key@),
        decreases items@.len() - i,
    {
        assert(iv.skip(i as int)[0] == (items@[i as int].0@, items@[i as int].1@));
        assert(iv.skip(i as int).drop_first() =~= iv.skip(i + 1));
        if str_eq(items[i].0.as_str(), key) {
            return Some(items[i].1.clone());
        }
        i = i + 1;
    }
    assert(iv.skip(items@.len() as int) =~= Seq::<(Seq<char>, Seq<char>)>::empty());
    None
}

impl RxMetadata {
    /// The metadata KeePassXC stores in a database's public custom data, given each item's
    /// key and printed value: the database's name, color and icon, and the recycle bin.
    pub fn from_custom_data(items: &Vec<(String, String)>, recycle_bin_uuid: Option<u128>) -> (r: RxMetadata)
        ensures
            opt_text(r.name) == match custom_value(items_view(items@), "KPXC_PUBLIC_NAME"@) {
                Some(v) => string_value_of(v),
                None => None,
            },
            opt_text(r.color) == match custom_value(items_view(items@), "KPXC_PUBLIC_COLOR"@) {
                Some(v) => string_value_of(v),
                None => None,
            },
            r.icon == match custom_value(items_view(items@), "KPXC_PUBLIC_ICON"@) {
                Some(v) => i32_value_of(v),
                None => None,
            },
            r.recycle_bin_uuid == recycle_bin_uuid,
    {
        let name = match find_custom_value(items, "KPXC_PUBLIC_NAME") {
            Some(v) => extract_string(v),
            None => None,
        };
        let color = match find_custom_value(items, "KPXC_PUBLIC_COLOR") {
            Some(v) => extract_string(v),
            None => None,
        };
        let icon = match find_custom_value(items, "KPXC_PUBLIC_ICON") {
            Some(v) => extract_i32(v),
            None => None,
        };
        RxMetadata { color, name, icon, recycle_bin_uuid }
    }
}

/// A search KeePassXC saved: its name and query.
pub struct RxSavedSearchDef {
    pub name: String,
    pub query: String,
}

/// The members whose value is a string, in order.
pub open spec fn string_members(ms: Seq<(Seq<char>, Option<Seq<char>>)>) -> Seq<(Seq<char>, Seq<char>)>
    decreases ms.len(),
{
    if ms.len() == 0 {
        Seq::empty()
    } else {
        let rest = string_members(ms.drop_last());
        match ms.last().1 {
            Some(q) => rest.push((ms.last().0, q)),
            None => rest,
        }
    }
}

/// The saved searches in the JSON text KeePassXC stores them in: one per member of the
/// object whose value is a string; none when there is no text or it is no JSON object.
pub open spec fn saved_searches_of(raw: Option<Seq<char>>) -> Seq<(Seq<char>, Seq<char>)> {
    match raw {
        Some(t) => match json_members(t) {
            Some(ms) => string_members(ms),
            None => Seq::empty(),
        },
        None => Seq::empty(),
    }
}

/// Reads the saved searches (see `saved_searches_of`).
pub fn parse_saved_searches(raw: Option<&str>) -> (r: Vec<RxSavedSearchDef>)
    ensures
        r@.map_values(|d: RxSavedSearchDef| (d.name@, d.query@)) == saved_searches_of(
            match raw {
                Some(t) => Some(t@),
                None => None,
            },
        ),
{
    let members = match raw {
        Some(t) => match json_object_members(t) {
            Some(ms) => ms,
            None => Vec::new(),
        },
        None => Vec::new(),
    };
    let ghost mv = members@.map_values(|p: (String, Option<String>)| (p.0@, opt_text(p.1)));
    assert(raw is None || json_members(raw->0@) is None ==> mv =~= Seq::<(Seq<char>, Option<Seq<char>>)>::empty());
    let mut r: Vec<RxSavedSearchDef> = Vec::new();
    for i in 0..members.len()
        invariant
            mv == members@.map_values(|p: (String, Option<String>)| (p.0@, opt_text(p.1))),
            r@.map_values(|d: RxSavedSearchDef| (d.name@, d.query@)) == string_members(mv.take(i as int)),
    {
        assert(mv.take(i + 1).drop_last() =~= mv.take(i as int));
        assert(mv.take(i + 1).last() == (members@[i as int].0@, opt_text(members@[i as int].1)));
        match &members[i].1 {
            Some(q) => {
                let ghost before = r@.map_values(|d: RxSavedSearchDef| (d.name@, d.query@));
                r.push(RxSavedSearchDef { name: members[i].0.clone(), query: q.clone() });
                assert(r@.map_values(|d: RxSavedSearchDef| (d.name@, d.query@)) =~= before.push(
                    (members@[i as int].0@, q@),
                ));
            },
            None => {},
        }
    }
    assert(mv.take(mv.len() as int) =~= mv);
    r
}

} // verus!
