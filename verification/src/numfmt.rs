//! Rendering of numbers as text: decimal for byte counts inside messages and
//! the `Range` header, fixed-width lowercase hex for identifiers.

use vstd::prelude::*;

verus! {

/// The character for one decimal digit.
pub open spec fn digit_char(d: nat) -> char {
    if d == 0 {
        '0'
    } else if d == 1 {
        '1'
    } else if d == 2 {
        '2'
    } else if d == 3 {
        '3'
    } else if d == 4 {
        '4'
    } else if d == 5 {
        '5'
    } else if d == 6 {
        '6'
    } else if d == 7 {
        '7'
    } else if d == 8 {
        '8'
    } else {
        '9'
    }
}

/// The decimal rendering of `n`, most significant digit first, no leading
/// zeros (a single `'0'` for zero).
pub open spec fn dec_chars(n: nat) -> Seq<char>
    decreases n,
{
    if n < 10 {
        seq![digit_char(n)]
    } else {
        dec_chars(n / 10) + seq![digit_char(n % 10)]
    }
}

/// The character for one hex digit, lowercase.
pub open spec fn hex_char(d: nat) -> char {
    if d < 10 {
        digit_char(d)
    } else if d == 10 {
        'a'
    } else if d == 11 {
        'b'
    } else if d == 12 {
        'c'
    } else if d == 13 {
        'd'
    } else if d == 14 {
        'e'
    } else {
        'f'
    }
}

/// The hex rendering of `n` in exactly `width` digits, most significant
/// first, leading zeros kept.
pub open spec fn hex_chars_fixed(n: nat, width: nat) -> Seq<char>
    decreases width,
{
    if width == 0 {
        Seq::empty()
    } else {
        hex_chars_fixed(n / 16, (width - 1) as nat) + seq![hex_char(n % 16)]
    }
}

pub proof fn lemma_hex_chars_fixed_len(n: nat, width: nat)
    ensures
        hex_chars_fixed(n, width).len() == width,
    decreases width,
{
    if width > 0 {
        lemma_hex_chars_fixed_len(n / 16, (width - 1) as nat);
    }
}

fn digit_str(d: u64) -> (r: &'static str)
    requires
        d < 10,
    ensures
        r@ == seq![digit_char(d as nat)],
{
    proof {
        reveal_strlit("0");
        reveal_strlit("1");
        reveal_strlit("2");
        reveal_strlit("3");
        reveal_strlit("4");
        reveal_strlit("5");
        reveal_strlit("6");
        reveal_strlit("7");
        reveal_strlit("8");
        reveal_strlit("9");
    }
    let r: &'static str = match d {
        0 => "0",
        1 => "1",
        2 => "2",
        3 => "3",
        4 => "4",
        5 => "5",
        6 => "6",
        7 => "7",
        8 => "8",
        _ => "9",
    };
    proof {
        assert(r@ =~= seq![digit_char(d as nat)]);
    }
    r
}

fn hex_digit_str(d: u128) -> (r: &'static str)
    requires
        d < 16,
    ensures
        r@ == seq![hex_char(d as nat)],
{
    if d < 10 {
        digit_str(d as u64)
    } else {
        proof {
            reveal_strlit("a");
            reveal_strlit("b");
            reveal_strlit("c");
            reveal_strlit("d");
            reveal_strlit("e");
            reveal_strlit("f");
        }
        let r: &'static str = match d {
            10 => "a",
            11 => "b",
            12 => "c",
            13 => "d",
            14 => "e",
            _ => "f",
        };
        proof {
            assert(r@ =~= seq![hex_char(d as nat)]);
        }
        r
    }
}

/// Renders `n` in decimal, as `Display` for integers does.
pub fn decimal_string(n: u64) -> (r: String)
    ensures
        r@ == dec_chars(n as nat),
    decreases n,
{
    if n < 10 {
        digit_str(n).to_owned()
    } else {
        let mut s = decimal_string(n / 10);
        s.append(digit_str(n % 10));
        s
    }
}

fn hex_string_fixed(n: u128, width: u32) -> (r: String)
    ensures
        r@ == hex_chars_fixed(n as nat, width as nat),
    decreases width,
{
    if width == 0 {
        String::new()
    } else {
        let mut s = hex_string_fixed(n / 16, width - 1);
        s.append(hex_digit_str(n % 16));
        s
    }
}

/// The hyphenated rendering of a 128-bit identifier: five lowercase hex
/// groups of 8, 4, 4, 4 and 12 digits.
pub open spec fn uuid_chars(n: u128) -> Seq<char> {
    hex_chars_fixed((n / 0x1000000000000000000000000) as nat, 8) + seq!['-']
        + hex_chars_fixed(((n / 0x100000000000000000000) % 0x10000) as nat, 4) + seq!['-']
        + hex_chars_fixed(((n / 0x10000000000000000) % 0x10000) as nat, 4) + seq!['-']
        + hex_chars_fixed(((n / 0x1000000000000) % 0x10000) as nat, 4) + seq!['-']
        + hex_chars_fixed((n % 0x1000000000000) as nat, 12)
}

/// Every hyphenated identifier rendering is 36 characters long.
pub proof fn lemma_uuid_chars_len(n: u128)
    ensures
        uuid_chars(n).len() == 36,
{
    lemma_hex_chars_fixed_len((n / 0x1000000000000000000000000) as nat, 8);
    lemma_hex_chars_fixed_len(((n / 0x100000000000000000000) % 0x10000) as nat, 4);
    lemma_hex_chars_fixed_len(((n / 0x10000000000000000) % 0x10000) as nat, 4);
    lemma_hex_chars_fixed_len(((n / 0x1000000000000) % 0x10000) as nat, 4);
    lemma_hex_chars_fixed_len((n % 0x1000000000000) as nat, 12);
}

/// Renders a 128-bit identifier the way its standard hyphenated textual form
/// is written.
pub fn uuid_string(n: u128) -> (r: String)
    ensures
        r@ == uuid_chars(n),
{
    proof {
        reveal_strlit("-");
    }
    let mut s = hex_string_fixed(n / 0x1000000000000000000000000, 8);
    s.append("-");
    s.append(hex_string_fixed((n / 0x100000000000000000000) % 0x10000, 4).as_str());
    s.append("-");
    s.append(hex_string_fixed((n / 0x10000000000000000) % 0x10000, 4).as_str());
    s.append("-");
    s.append(hex_string_fixed((n / 0x1000000000000) % 0x10000, 4).as_str());
    s.append("-");
    s.append(hex_string_fixed(n % 0x1000000000000, 12).as_str());
    proof {
        assert("-"@ =~= seq!['-']);
        assert(s@ =~= uuid_chars(n));
    }
    s
}

} // verus!
