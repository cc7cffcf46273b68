//! Decimal and hexadecimal rendering of unsigned integers, used by the
//! error types to carry human-readable locators.

use vstd::prelude::*;
use vstd::string::StringExecFns;

verus! {

/// The character for a single decimal digit.
pub open spec fn dec_digit(d: int) -> char {
    if d == 0 {
        '0'
    } else if d == 1 {
        '1'
    } else if d == 2 {
        '2'
    } else if d == 3 {
        '3'
    } else if d == 4 {
        '4'
    } else if d == 5 {
        '5'
    } else if d == 6 {
        '6'
    } else if d == 7 {
        '7'
    } else if d == 8 {
        '8'
    } else {
        '9'
    }
}

/// The decimal rendering of `x`, without leading zeros (`0` for zero).
pub open spec fn dec_string(x: nat) -> Seq<char>
    decreases x,
{
    if x < 10 {
        seq![dec_digit(x as int)]
    } else {
        dec_string(x / 10).push(dec_digit((x % 10) as int))
    }
}

/// The character for a single hexadecimal digit, lower case.
pub open spec fn hex_digit(d: int) -> char {
    if d < 10 {
        dec_digit(d)
    } else if d == 10 {
        'a'
    } else if d == 11 {
        'b'
    } else if d == 12 {
        'c'
    } else if d == 13 {
        'd'
    } else if d == 14 {
        'e'
    } else {
        'f'
    }
}

/// The `n`-digit hexadecimal rendering of `x mod 16^n`, most
/// significant digit first.
pub open spec fn hex_string(x: nat, n: nat) -> Seq<char>
    decreases n,
{
    if n == 0 {
        Seq::<char>::empty()
    } else {
        hex_string(x / 16, (n - 1) as nat).push(hex_digit((x % 16) as int))
    }
}

fn dec_digit_str(d: u64) -> (r: &'static str)
    requires
        d < 10,
    ensures
        r@ == seq![dec_digit(d as int)],
{
    let r: &'static str = if d == 0 {
        "0"
    } else if d == 1 {
        "1"
    } else if d == 2 {
        "2"
    } else if d == 3 {
        "3"
    } else if d == 4 {
        "4"
    } else if d == 5 {
        "5"
    } else if d == 6 {
        "6"
    } else if d == 7 {
        "7"
    } else if d == 8 {
        "8"
    } else {
        "9"
    };
    proof {
        reveal_strlit("0");
        reveal_strlit("1");
        reveal_strlit("2");
        reveal_strlit("3");
        reveal_strlit("4");
        reveal_strlit("5");
        reveal_strlit("6");
        reveal_strlit("7");
        reveal_strlit("8");
        reveal_strlit("9");
        assert(r@ =~= seq![dec_digit(d as int)]);
    }
    r
}

fn hex_digit_str(d: u64) -> (r: &'static str)
    requires
        d < 16,
    ensures
        r@ == seq![hex_digit(d as int)],
{
    if d < 10 {
        dec_digit_str(d)
    } else {
        let r: &'static str = if d == 10 {
            "a"
        } else if d == 11 {
            "b"
        } else if d == 12 {
            "c"
        } else if d == 13 {
            "d"
        } else if d == 14 {
            "e"
        } else {
            "f"
        };
        proof {
            reveal_strlit("a");
            reveal_strlit("b");
            reveal_strlit("c");
            reveal_strlit("d");
            reveal_strlit("e");
            reveal_strlit("f");
            assert(r@ =~= seq![hex_digit(d as int)]);
        }
        r
    }
}

/// Renders `x` in decimal.
pub fn u64_to_dec(x: u64) -> (s: String)
    ensures
        s@ == dec_string(x as nat),
    decreases x,
{
    if x < 10 {
        let s = dec_digit_str(x).to_owned();
        s
    } else {
        let mut s = u64_to_dec(x / 10);
        s.append(dec_digit_str(x % 10));
        proof {
            assert(s@ =~= dec_string(x as nat));
        }
        s
    }
}

fn u64_to_hex_rec(x: u64, n: usize) -> (s: String)
    ensures
        s@ == hex_string(x as nat, n as nat),
    decreases n,
{
    if n == 0 {
        let s = String::new();
        proof {
            assert(s@ =~= hex_string(x as nat, 0));
        }
        s
    } else {
        let mut s = u64_to_hex_rec(x / 16, n - 1);
        s.append(hex_digit_str(x % 16));
        proof {
            assert(s@ =~= hex_string(x as nat, n as nat));
        }
        s
    }
}

/// Renders `x` as eight hexadecimal digits, lower case, zero-padded.
pub fn u32_to_hex8(x: u32) -> (s: String)
    ensures
        s@ == hex_string(x as nat, 8),
{
    u64_to_hex_rec(x as u64, 8)
}

} // verus!
