//! Text form of UUIDs, as the `uuid` crate writes them (hyphenated, lower-case hex).
use vstd::prelude::*;
use crate::text::push_chars;

verus! {

/// The lower-case hexadecimal digit for a value below 16.
pub open spec fn hex_char(d: u128) -> char {
    if d < 10 {
        ((d as u32) + 48) as char
    } else {
        ((d as u32) + 87) as char
    }
}

/// The `n` least significant hexadecimal digits of `u`, most significant first.
pub open spec fn hex_digits(u: u128, n: nat) -> Seq<char>
    decreases n,
{
    if n == 0 {
        Seq::empty()
    } else {
        hex_digits(u / 16, (n - 1) as nat).push(hex_char(u % 16))
    }
}

/// The hyphenated form: 32 hexadecimal digits in groups of 8, 4, 4, 4 and 12.
pub open spec fn uuid_hyphenated(u: u128) -> Seq<char> {
    let d = hex_digits(u, 32);
    d.subrange(0, 8) + seq!['-'] + d.subrange(8, 12) + seq!['-'] + d.subrange(12, 16) + seq!['-']
        + d.subrange(16, 20) + seq!['-'] + d.subrange(20, 32)
}

fn hex_digit(d: u128) -> (c: char)
    requires
        d < 16,
    ensures
        c == hex_char(d),
{
    if d < 10 {
        ((d as u8) + 48) as char
    } else {
        ((d as u8) + 87) as char
    }
}

proof fn lemma_hex_digits_len(u: u128, n: nat)
    ensures
        hex_digits(u, n).len() == n,
    decreases n,
{
    if n > 0 {
        lemma_hex_digits_len(u / 16, (n - 1) as nat);
    }
}

fn hex_digits_of(u: u128, n: usize) -> (r: Vec<char>)
    ensures
        r@ == hex_digits(u, n as nat),
    decreases n,
{
    if n == 0 {
        Vec::new()
    } else {
        let mut r = hex_digits_of(u / 16, n - 1);
        r.push(hex_digit(u % 16));
        r
    }
}

/// The hyphenated text form of a UUID (what `Uuid::to_string` gives).
pub fn uuid_to_string(u: u128) -> (s: String)
    ensures
        s@ == uuid_hyphenated(u),
{
    let d = hex_digits_of(u, 32);
    proof {
        lemma_hex_digits_len(u, 32);
    }
    let mut s = String::new();
    let mut i: usize = 0;
    let ghost dv = d@;
    while i < 32
        invariant
            d@ == dv,
            dv.len() == 32,
            i <= 32,
            s@ == if i <= 8 {
                dv.subrange(0, i as int)
            } else if i <= 12 {
                dv.subrange(0, 8) + seq!['-'] + dv.subrange(8, i as int)
            } else if i <= 16 {
                dv.subrange(0, 8) + seq!['-'] + dv.subrange(8, 12) + seq!['-'] + dv.subrange(
                    12,
                    i as int,
                )
            } else if i <= 20 {
                dv.subrange(0, 8) + seq!['-'] + dv.subrange(8, 12) + seq!['-'] + dv.subrange(12, 16)
                    + seq!['-'] + dv.subrange(16, i as int)
            } else {
                dv.subrange(0, 8) + seq!['-'] + dv.subrange(8, 12) + seq!['-'] + dv.subrange(12, 16)
                    + seq!['-'] + dv.subrange(16, 20) + seq!['-'] + dv.subrange(20, i as int)
            },
        decreases 32 - i,
    {
        if i == 8 || i == 12 || i == 16 || i == 20 {
            crate::text::push_char(&mut s, '-');
        }
        crate::text::push_char(&mut s, d[i]);
        i = i + 1;
        proof {
            assert(dv.subrange(0, i as int) == dv.subrange(0, i - 1).push(dv[i - 1]));
            if i - 1 >= 8 {
                assert(dv.subrange(8, i as int) == dv.subrange(8, i - 1).push(dv[i - 1]));
            }
            if i - 1 >= 12 {
                assert(dv.subrange(12, i as int) == dv.subrange(12, i - 1).push(dv[i - 1]));
            }
            if i - 1 >= 16 {
                assert(dv.subrange(16, i as int) == dv.subrange(16, i - 1).push(dv[i - 1]));
            }
            if i - 1 >= 20 {
                assert(dv.subrange(20, i as int) == dv.subrange(20, i - 1).push(dv[i - 1]));
            }
            assert(dv.subrange(8, 8) == Seq::<char>::empty());
            assert(dv.subrange(12, 12) == Seq::<char>::empty());
            assert(dv.subrange(16, 16) == Seq::<char>::empty());
            assert(dv.subrange(20, 20) == Seq::<char>::empty());
        }
    }
    s
}

} // verus!
