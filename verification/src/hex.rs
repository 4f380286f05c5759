//! Fixed-width lowercase hexadecimal encoding of unsigned ids, with a
//! round-trip proof: decoding an encoding gives back the encoded value.

use vstd::prelude::*;
use vstd::arithmetic::div_mod::lemma_fundamental_div_mod;
use vstd::arithmetic::div_mod::lemma_multiply_divide_lt;
use vstd::arithmetic::div_mod::lemma_mod_division_less_than_divisor;

verus! {

/// Sixteen to the power `e`.
pub open spec fn pow16(e: nat) -> nat
    decreases e,
{
    if e == 0 {
        1
    } else {
        16 * pow16((e - 1) as nat)
    }
}

pub proof fn lemma_pow16_pos(e: nat)
    ensures
        pow16(e) >= 1,
    decreases e,
{
    if e > 0 {
        lemma_pow16_pos((e - 1) as nat);
    }
}

/// The value of `pow16` at the two field widths used on the wire.
pub proof fn lemma_pow16_values()
    ensures
        pow16(16) == 0x1_0000_0000_0000_0000,
        pow16(32) == 0x1_0000_0000_0000_0000_0000_0000_0000_0000,
{
    reveal_with_fuel(pow16, 33);
}

/// The lowercase hex digit character for a value below sixteen.
pub open spec fn hex_char(d: nat) -> char {
    if d == 0 {
        '0'
    } else if d == 1 {
        '1'
    } else if d == 2 {
        '2'
    } else if d == 3 {
        '3'
    } else if d == 4 {
        '4'
    } else if d == 5 {
        '5'
    } else if d == 6 {
        '6'
    } else if d == 7 {
        '7'
    } else if d == 8 {
        '8'
    } else if d == 9 {
        '9'
    } else if d == 10 {
        'a'
    } else if d == 11 {
        'b'
    } else if d == 12 {
        'c'
    } else if d == 13 {
        'd'
    } else if d == 14 {
        'e'
    } else {
        'f'
    }
}

/// Whether `c` is a lowercase hex digit. Only lowercase digits are valid on
/// the wire.
pub open spec fn is_hex_digit(c: char) -> bool {
    ('0' <= c && c <= '9') || ('a' <= c && c <= 'f')
}

/// Numeric value of a lowercase hex digit character.
pub open spec fn hex_val(c: char) -> nat {
    if '0' <= c && c <= '9' {
        (c as nat - '0' as nat) as nat
    } else if 'a' <= c && c <= 'f' {
        (10 + c as nat - 'a' as nat) as nat
    } else {
        0
    }
}

pub proof fn lemma_hex_char_val(d: nat)
    requires
        d < 16,
    ensures
        is_hex_digit(hex_char(d)),
        hex_val(hex_char(d)) == d,
{
}

/// The `width` lowest hex digits of `v`, most significant first.
pub open spec fn hex_digits(v: nat, width: nat) -> Seq<char>
    decreases width,
{
    if width == 0 {
        Seq::empty()
    } else {
        hex_digits(v / 16, (width - 1) as nat) + seq![hex_char(v % 16)]
    }
}

pub proof fn lemma_hex_digits_len(v: nat, width: nat)
    ensures
        hex_digits(v, width).len() == width,
    decreases width,
{
    if width > 0 {
        lemma_hex_digits_len(v / 16, (width - 1) as nat);
    }
}

/// Whether every character of `s` is a lowercase hex digit.
pub open spec fn all_hex(s: Seq<char>) -> bool {
    forall|i: int| 0 <= i < s.len() ==> is_hex_digit(#[trigger] s[i])
}

pub proof fn lemma_hex_digits_all_hex(v: nat, width: nat)
    ensures
        all_hex(hex_digits(v, width)),
    decreases width,
{
    if width > 0 {
        lemma_hex_digits_all_hex(v / 16, (width - 1) as nat);
        lemma_mod_division_less_than_divisor(v as int, 16);
        lemma_hex_char_val(v % 16);
        assert forall|i: int| 0 <= i < hex_digits(v, width).len() implies is_hex_digit(
            #[trigger] hex_digits(v, width)[i],
        ) by {
            lemma_hex_digits_len(v / 16, (width - 1) as nat);
            if i < width - 1 {
                assert(hex_digits(v, width)[i] == hex_digits(v / 16, (width - 1) as nat)[i]);
            }
        }
    }
}

/// The numeric value of a string of hex digits, most significant first.
pub open spec fn hex_value(s: Seq<char>) -> nat
    decreases s.len(),
{
    if s.len() == 0 {
        0
    } else {
        hex_value(s.drop_last()) * 16 + hex_val(s.last())
    }
}

pub proof fn lemma_hex_value_bound(s: Seq<char>)
    ensures
        hex_value(s) < pow16(s.len()),
    decreases s.len(),
{
    if s.len() == 0 {
    } else {
        lemma_hex_value_bound(s.drop_last());
        assert(hex_val(s.last()) < 16);
        assert(hex_value(s.drop_last()) <= pow16((s.len() - 1) as nat) - 1);
    }
}

/// Round trip: the value of the `width`-digit encoding of `v` is `v` itself,
/// whenever `v` fits in `width` digits.
pub proof fn lemma_hex_value_of_digits(v: nat, width: nat)
    requires
        v < pow16(width),
    ensures
        hex_value(hex_digits(v, width)) == v,
    decreases width,
{
    if width == 0 {
    } else {
        let rest = hex_digits(v / 16, (width - 1) as nat);
        let s = hex_digits(v, width);
        lemma_hex_digits_len(v / 16, (width - 1) as nat);
        assert(s.drop_last() =~= rest);
        assert(s.last() == hex_char(v % 16));
        lemma_multiply_divide_lt(v as int, 16, pow16((width - 1) as nat) as int);
        lemma_hex_value_of_digits(v / 16, (width - 1) as nat);
        lemma_mod_division_less_than_divisor(v as int, 16);
        lemma_hex_char_val(v % 16);
        lemma_fundamental_div_mod(v as int, 16);
    }
}

/// The lowercase hex digit for `d`, as a one-character string slice.
pub fn hex_digit_str(d: u8) -> (r: &'static str)
    requires
        d < 16,
    ensures
        r@.len() == 1,
        r@[0] == hex_char(d as nat),
        r.is_ascii(),
{
    proof {
        reveal_strlit("0");
        reveal_strlit("1");
        reveal_strlit("2");
        reveal_strlit("3");
        reveal_strlit("4");
        reveal_strlit("5");
        reveal_strlit("6");
        reveal_strlit("7");
        reveal_strlit("8");
        reveal_strlit("9");
        reveal_strlit("a");
        reveal_strlit("b");
        reveal_strlit("c");
        reveal_strlit("d");
        reveal_strlit("e");
        reveal_strlit("f");
    }
    match d {
        0 => "0",
        1 => "1",
        2 => "2",
        3 => "3",
        4 => "4",
        5 => "5",
        6 => "6",
        7 => "7",
        8 => "8",
        9 => "9",
        10 => "a",
        11 => "b",
        12 => "c",
        13 => "d",
        14 => "e",
        _ => "f",
    }
}

/// The numeric value of a lowercase hex digit character, if it is one.
pub fn hex_val_of_char(c: char) -> (r: Option<u8>)
    ensures
        match r {
            Some(d) => is_hex_digit(c) && d < 16 && d as nat == hex_val(c),
            None => !is_hex_digit(c),
        },
{
    if '0' <= c && c <= '9' {
        Some((c as u8) - ('0' as u8))
    } else if 'a' <= c && c <= 'f' {
        Some(10 + (c as u8) - ('a' as u8))
    } else {
        None
    }
}

/// Encodes the `width` lowest hex digits of `v`, most significant first,
/// in lowercase.
pub fn encode_hex(v: u128, width: usize) -> (r: String)
    requires
        width <= 32,
    ensures
        r@ == hex_digits(v as nat, width as nat),
        r@.len() == width,
    decreases width,
{
    proof {
        lemma_hex_digits_len(v as nat, width as nat);
    }
    if width == 0 {
        let r = String::new();
        assert(r@ =~= hex_digits(v as nat, 0));
        r
    } else {
        let mut s = encode_hex(v / 16, width - 1);
        let digit = (v % 16) as u8;
        assert(digit as nat == (v as nat) % 16) by {
            lemma_mod_division_less_than_divisor(v as int, 16);
        }
        assert((v / 16) as nat == (v as nat) / 16);
        s.append(hex_digit_str(digit));
        assert(s@ =~= hex_digits(v as nat, width as nat));
        s
    }
}

/// Parses a string of at most 32 lowercase hex digits as its numeric value;
/// `None` when a character is not a lowercase hex digit or the string is too
/// long.
pub fn parse_hex(s: &str) -> (r: Option<u128>)
    ensures
        match r {
            Some(v) => all_hex(s@) && s@.len() <= 32 && v as nat == hex_value(s@),
            None => !(all_hex(s@) && s@.len() <= 32),
        },
{
    let n = s.unicode_len();
    if n > 32 {
        proof {
            lemma_hex_digits_len(0, 33);
        }
        return None;
    }
    let mut acc: u128 = 0;
    let mut i: usize = 0;
    proof {
        assert(s@.subrange(0, 0) =~= Seq::<char>::empty());
    }
    while i < n
        invariant
            i <= n,
            n == s@.len(),
            n <= 32,
            all_hex(s@.subrange(0, i as int)),
            acc as nat == hex_value(s@.subrange(0, i as int)),
        decreases n - i,
    {
        let c = s.get_char(i);
        match hex_val_of_char(c) {
            Some(d) => {
                proof {
                    let prefix = s@.subrange(0, i as int);
                    let next = s@.subrange(0, i + 1 as int);
                    assert(next.drop_last() =~= prefix);
                    assert(next.last() == c);
                    lemma_hex_value_bound(prefix);
                    lemma_pow16_monotonic(i as nat, 31);
                    lemma_pow16_values();
                    assert(pow16(31) == pow16(32) / 16) by {
                        reveal_with_fuel(pow16, 33);
                    }
                }
                acc = acc * 16 + (d as u128);
                i = i + 1;
            },
            None => {
                return None;
            },
        }
    }
    proof {
        assert(s@.subrange(0, n as int) =~= s@);
    }
    Some(acc)
}

pub proof fn lemma_pow16_monotonic(a: nat, b: nat)
    requires
        a <= b,
    ensures
        pow16(a) <= pow16(b),
    decreases b,
{
    if a < b {
        lemma_pow16_monotonic(a, (b - 1) as nat);
        lemma_pow16_pos((b - 1) as nat);
    }
}

} // verus!
