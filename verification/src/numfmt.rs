//! Verified decimal and hexadecimal rendering of unsigned values, used to
//! build the error messages of the dispatch core.

use vstd::prelude::*;

verus! {

use vstd::arithmetic::div_mod::lemma_div_decreases;
use vstd::string::StringExecFns;

/// The character for a single digit value below 16, lower-case.
pub open spec fn spec_digit_char(d: nat) -> char {
    if d == 0 {
        '0'
    } else if d == 1 {
        '1'
    } else if d == 2 {
        '2'
    } else if d == 3 {
        '3'
    } else if d == 4 {
        '4'
    } else if d == 5 {
        '5'
    } else if d == 6 {
        '6'
    } else if d == 7 {
        '7'
    } else if d == 8 {
        '8'
    } else if d == 9 {
        '9'
    } else if d == 10 {
        'a'
    } else if d == 11 {
        'b'
    } else if d == 12 {
        'c'
    } else if d == 13 {
        'd'
    } else if d == 14 {
        'e'
    } else {
        'f'
    }
}

/// The decimal digits of `v`, most significant first, without leading zeros.
pub open spec fn spec_dec_digits(v: nat) -> Seq<char>
    decreases v,
{
    if v < 10 {
        seq![spec_digit_char(v)]
    } else {
        spec_dec_digits((v / 10) as nat).push(spec_digit_char(v % 10))
    }
}

/// The hexadecimal digits of `v`, most significant first, without leading
/// zeros and without a radix prefix.
pub open spec fn spec_hex_digits(v: nat) -> Seq<char>
    decreases v,
{
    if v < 16 {
        seq![spec_digit_char(v)]
    } else {
        spec_hex_digits((v / 16) as nat).push(spec_digit_char(v % 16))
    }
}

/// A one-character string for a digit value below 16.
fn digit_str(d: u8) -> (r: &'static str)
    requires
        d < 16,
    ensures
        r@ == seq![spec_digit_char(d as nat)],
{
    if d == 0 {
        proof {
            reveal_strlit("0");
        }
        "0"
    } else if d == 1 {
        proof {
            reveal_strlit("1");
        }
        "1"
    } else if d == 2 {
        proof {
            reveal_strlit("2");
        }
        "2"
    } else if d == 3 {
        proof {
            reveal_strlit("3");
        }
        "3"
    } else if d == 4 {
        proof {
            reveal_strlit("4");
        }
        "4"
    } else if d == 5 {
        proof {
            reveal_strlit("5");
        }
        "5"
    } else if d == 6 {
        proof {
            reveal_strlit("6");
        }
        "6"
    } else if d == 7 {
        proof {
            reveal_strlit("7");
        }
        "7"
    } else if d == 8 {
        proof {
            reveal_strlit("8");
        }
        "8"
    } else if d == 9 {
        proof {
            reveal_strlit("9");
        }
        "9"
    } else if d == 10 {
        proof {
            reveal_strlit("a");
        }
        "a"
    } else if d == 11 {
        proof {
            reveal_strlit("b");
        }
        "b"
    } else if d == 12 {
        proof {
            reveal_strlit("c");
        }
        "c"
    } else if d == 13 {
        proof {
            reveal_strlit("d");
        }
        "d"
    } else if d == 14 {
        proof {
            reveal_strlit("e");
        }
        "e"
    } else {
        proof {
            reveal_strlit("f");
        }
        "f"
    }
}

/// Appends the decimal rendering of `v`.
pub fn push_dec_u64(s: &mut String, v: u64)
    ensures
        final(s)@ == old(s)@ + spec_dec_digits(v as nat),
    decreases v,
{
    if v < 10 {
        s.append(digit_str(v as u8));
    } else {
        proof {
            lemma_div_decreases(v as int, 10);
        }
        push_dec_u64(s, v / 10);
        s.append(digit_str((v % 10) as u8));
        proof {
            assert(old(s)@ + spec_dec_digits((v / 10) as nat) + seq![spec_digit_char((v % 10) as nat)]
                =~= old(s)@ + spec_dec_digits(v as nat));
        }
    }
}

/// Appends the hexadecimal rendering of `v`, without a radix prefix.
pub fn push_hex_u64(s: &mut String, v: u64)
    ensures
        final(s)@ == old(s)@ + spec_hex_digits(v as nat),
    decreases v,
{
    if v < 16 {
        s.append(digit_str(v as u8));
    } else {
        proof {
            lemma_div_decreases(v as int, 16);
        }
        push_hex_u64(s, v / 16);
        s.append(digit_str((v % 16) as u8));
        proof {
            assert(old(s)@ + spec_hex_digits((v / 16) as nat) + seq![spec_digit_char((v % 16) as nat)]
                =~= old(s)@ + spec_hex_digits(v as nat));
        }
    }
}

} // verus!
