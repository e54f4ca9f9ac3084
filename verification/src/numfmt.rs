//! Decimal rendering for the human-readable statistics summaries, with the
//! exact character sequences pinned down in specification functions.

use vstd::prelude::*;
use vstd::string::StringExecFns;

verus! {

/// The decimal digit character of a value below ten.
pub open spec fn dec_digit(d: nat) -> char {
    if d == 0 {
        '0'
    } else if d == 1 {
        '1'
    } else if d == 2 {
        '2'
    } else if d == 3 {
        '3'
    } else if d == 4 {
        '4'
    } else if d == 5 {
        '5'
    } else if d == 6 {
        '6'
    } else if d == 7 {
        '7'
    } else if d == 8 {
        '8'
    } else {
        '9'
    }
}

/// Decimal image of a number, most significant digit first, no sign and no
/// leading zeros (a lone zero for zero).
pub open spec fn dec_str(n: nat) -> Seq<char>
    decreases n,
{
    if n < 10 {
        seq![dec_digit(n)]
    } else {
        dec_str(n / 10) + seq![dec_digit(n % 10)]
    }
}

/// A rate in basis points rendered as a percentage with one decimal digit
/// (9167 becomes `91.6`).
pub open spec fn percent1_str(bp: nat) -> Seq<char> {
    dec_str(bp / 100) + seq!['.', dec_digit(bp % 100 / 10)]
}

/// A value in basis points rendered in units with two decimal digits
/// (7000 becomes `0.70`).
pub open spec fn unit2_str(bp: nat) -> Seq<char> {
    dec_str(bp / 10000) + seq!['.', dec_digit(bp % 10000 / 1000), dec_digit(bp % 1000 / 100)]
}

/// One decimal digit as a string slice.
fn digit_literal(d: u64) -> (r: &'static str)
    requires
        d < 10,
    ensures
        r@ == seq![dec_digit(d as nat)],
{
    if d == 0 {
        proof {
            reveal_strlit("0");
            assert("0"@ =~= seq![dec_digit(0)]);
        }
        "0"
    } else if d == 1 {
        proof {
            reveal_strlit("1");
            assert("1"@ =~= seq![dec_digit(1)]);
        }
        "1"
    } else if d == 2 {
        proof {
            reveal_strlit("2");
            assert("2"@ =~= seq![dec_digit(2)]);
        }
        "2"
    } else if d == 3 {
        proof {
            reveal_strlit("3");
            assert("3"@ =~= seq![dec_digit(3)]);
        }
        "3"
    } else if d == 4 {
        proof {
            reveal_strlit("4");
            assert("4"@ =~= seq![dec_digit(4)]);
        }
        "4"
    } else if d == 5 {
        proof {
            reveal_strlit("5");
            assert("5"@ =~= seq![dec_digit(5)]);
        }
        "5"
    } else if d == 6 {
        proof {
            reveal_strlit("6");
            assert("6"@ =~= seq![dec_digit(6)]);
        }
        "6"
    } else if d == 7 {
        proof {
            reveal_strlit("7");
            assert("7"@ =~= seq![dec_digit(7)]);
        }
        "7"
    } else if d == 8 {
        proof {
            reveal_strlit("8");
            assert("8"@ =~= seq![dec_digit(8)]);
        }
        "8"
    } else {
        proof {
            reveal_strlit("9");
            assert("9"@ =~= seq![dec_digit(9)]);
        }
        "9"
    }
}

/// Render a number in decimal.
pub fn u64_to_string(n: u64) -> (r: String)
    ensures
        r@ == dec_str(n as nat),
    decreases n,
{
    if n < 10 {
        digit_literal(n).to_owned()
    } else {
        let mut s = u64_to_string(n / 10);
        s.append(digit_literal(n % 10));
        s
    }
}

/// Render a basis-point rate as a percentage with one decimal digit.
pub fn percent1_string(bp: u32) -> (r: String)
    ensures
        r@ == percent1_str(bp as nat),
{
    let mut s = u64_to_string(bp as u64 / 100);
    s.append(".");
    s.append(digit_literal(bp as u64 % 100 / 10));
    proof {
        reveal_strlit(".");
        assert("."@ =~= seq!['.']);
        assert(s@ =~= percent1_str(bp as nat));
    }
    s
}

/// Render a basis-point value in units with two decimal digits.
pub fn unit2_string(bp: u32) -> (r: String)
    ensures
        r@ == unit2_str(bp as nat),
{
    let mut s = u64_to_string(bp as u64 / 10000);
    s.append(".");
    s.append(digit_literal(bp as u64 % 10000 / 1000));
    s.append(digit_literal(bp as u64 % 1000 / 100));
    proof {
        reveal_strlit(".");
        assert("."@ =~= seq!['.']);
        assert(s@ =~= unit2_str(bp as nat));
    }
    s
}

} // verus!
