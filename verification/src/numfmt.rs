//! Decimal and hexadecimal rendering of instance indices, marks and flags,
//! with the digit sequences pinned down exactly.
use vstd::prelude::*;

verus! {

/// The decimal digit character of `d`, for `d < 10`.
pub open spec fn dec_digit(d: nat) -> char {
    if d == 0 {
        '0'
    } else if d == 1 {
        '1'
    } else if d == 2 {
        '2'
    } else if d == 3 {
        '3'
    } else if d == 4 {
        '4'
    } else if d == 5 {
        '5'
    } else if d == 6 {
        '6'
    } else if d == 7 {
        '7'
    } else if d == 8 {
        '8'
    } else {
        '9'
    }
}

/// The decimal rendering of `n`, most significant digit first, with no
/// leading zero except for `n == 0` itself.
pub open spec fn dec_seq(n: nat) -> Seq<char>
    decreases n,
{
    if n < 10 {
        seq![dec_digit(n)]
    } else {
        dec_seq(n / 10).push(dec_digit(n % 10))
    }
}

/// The hexadecimal digit character of `d`, for `d < 16`, lower case.
pub open spec fn hex_digit(d: nat) -> char {
    if d < 10 {
        dec_digit(d)
    } else if d == 10 {
        'a'
    } else if d == 11 {
        'b'
    } else if d == 12 {
        'c'
    } else if d == 13 {
        'd'
    } else if d == 14 {
        'e'
    } else {
        'f'
    }
}

/// The hexadecimal rendering of `n`, most significant digit first, with no
/// leading zero except for `n == 0` itself.
pub open spec fn hex_seq(n: nat) -> Seq<char>
    decreases n,
{
    if n < 16 {
        seq![hex_digit(n)]
    } else {
        hex_seq(n / 16).push(hex_digit(n % 16))
    }
}

/// The hexadecimal rendering of `n` padded with a leading zero to at least
/// two digits.
pub open spec fn hex_pad2(n: nat) -> Seq<char> {
    if n < 16 {
        seq!['0'].push(hex_digit(n))
    } else {
        hex_seq(n)
    }
}

/// The one-character string of the decimal digit `d`.
fn dec_digit_str(d: u32) -> (r: &'static str)
    requires
        d < 10,
    ensures
        r@ == seq![dec_digit(d as nat)],
{
    proof {
        reveal_strlit("0");
        reveal_strlit("1");
        reveal_strlit("2");
        reveal_strlit("3");
        reveal_strlit("4");
        reveal_strlit("5");
        reveal_strlit("6");
        reveal_strlit("7");
        reveal_strlit("8");
        reveal_strlit("9");
    }
    let r = match d {
        0 => "0",
        1 => "1",
        2 => "2",
        3 => "3",
        4 => "4",
        5 => "5",
        6 => "6",
        7 => "7",
        8 => "8",
        _ => "9",
    };
    proof {
        assert(r@ =~= seq![dec_digit(d as nat)]);
    }
    r
}

/// The one-character string of the hexadecimal digit `d`, lower case.
fn hex_digit_str(d: u32) -> (r: &'static str)
    requires
        d < 16,
    ensures
        r@ == seq![hex_digit(d as nat)],
{
    if d < 10 {
        dec_digit_str(d)
    } else {
        proof {
            reveal_strlit("a");
            reveal_strlit("b");
            reveal_strlit("c");
            reveal_strlit("d");
            reveal_strlit("e");
            reveal_strlit("f");
        }
        let r = match d {
            10 => "a",
            11 => "b",
            12 => "c",
            13 => "d",
            14 => "e",
            _ => "f",
        };
        proof {
            assert(r@ =~= seq![hex_digit(d as nat)]);
        }
        r
    }
}

/// Renders `n` in decimal, exactly as [`dec_seq`] states.
pub fn u32_to_dec(n: u32) -> (r: String)
    ensures
        r@ == dec_seq(n as nat),
    decreases n,
{
    if n < 10 {
        String::from_str(dec_digit_str(n))
    } else {
        let mut s = u32_to_dec(n / 10);
        s.append(dec_digit_str(n % 10));
        proof {
            assert(s@ =~= dec_seq(n as nat));
        }
        s
    }
}

/// Renders `n` in decimal, exactly as [`dec_seq`] states.
pub fn usize_to_dec(n: usize) -> (r: String)
    ensures
        r@ == dec_seq(n as nat),
    decreases n,
{
    if n < 10 {
        String::from_str(dec_digit_str((n % 10) as u32))
    } else {
        let mut s = usize_to_dec(n / 10);
        s.append(dec_digit_str((n % 10) as u32));
        proof {
            assert(s@ =~= dec_seq(n as nat));
        }
        s
    }
}

/// Renders `n` in hexadecimal, exactly as [`hex_seq`] states.
pub fn u32_to_hex(n: u32) -> (r: String)
    ensures
        r@ == hex_seq(n as nat),
    decreases n,
{
    if n < 16 {
        String::from_str(hex_digit_str(n))
    } else {
        let mut s = u32_to_hex(n / 16);
        s.append(hex_digit_str(n % 16));
        proof {
            assert(s@ =~= hex_seq(n as nat));
        }
        s
    }
}

/// Renders `n` in hexadecimal padded to at least two digits, exactly as
/// [`hex_pad2`] states.
pub fn u32_to_hex2(n: u32) -> (r: String)
    ensures
        r@ == hex_pad2(n as nat),
{
    if n < 16 {
        let mut s = String::from_str("0");
        s.append(hex_digit_str(n));
        proof {
            reveal_strlit("0");
            assert(s@ =~= hex_pad2(n as nat));
        }
        s
    } else {
        u32_to_hex(n)
    }
}

} // verus!
