//! Decimal rendering of integers, with an exact character-level
//! specification, for the numeric fields of activation requests and probe
//! addresses.

use vstd::prelude::*;

use vstd::string::StringExecFns;

verus! {

/// The decimal digit character for `d`.
pub open spec fn dec_digit(d: int) -> char {
    if d == 0 {
        '0'
    } else if d == 1 {
        '1'
    } else if d == 2 {
        '2'
    } else if d == 3 {
        '3'
    } else if d == 4 {
        '4'
    } else if d == 5 {
        '5'
    } else if d == 6 {
        '6'
    } else if d == 7 {
        '7'
    } else if d == 8 {
        '8'
    } else {
        '9'
    }
}

/// The decimal digits of `n`, most significant first, without sign and
/// without leading zeros (`0` itself is the single digit `0`).
pub open spec fn dec_nat(n: nat) -> Seq<char>
    decreases n,
{
    if n < 10 {
        seq![dec_digit(n as int)]
    } else {
        dec_nat(n / 10) + seq![dec_digit((n % 10) as int)]
    }
}

/// The decimal rendering of `n`: a minus sign before the digits of its
/// magnitude when `n` is negative.
pub open spec fn dec_int(n: int) -> Seq<char> {
    if n < 0 {
        seq!['-'] + dec_nat((-n) as nat)
    } else {
        dec_nat(n as nat)
    }
}

/// The single-character string for the decimal digit `n`.
fn digit_string(n: u32) -> (r: String)
    requires
        n < 10,
    ensures
        r@ =~= seq![dec_digit(n as int)],
{
    proof {
        reveal_strlit("0");
        reveal_strlit("1");
        reveal_strlit("2");
        reveal_strlit("3");
        reveal_strlit("4");
        reveal_strlit("5");
        reveal_strlit("6");
        reveal_strlit("7");
        reveal_strlit("8");
        reveal_strlit("9");
    }
    if n == 0 {
        "0".to_owned()
    } else if n == 1 {
        "1".to_owned()
    } else if n == 2 {
        "2".to_owned()
    } else if n == 3 {
        "3".to_owned()
    } else if n == 4 {
        "4".to_owned()
    } else if n == 5 {
        "5".to_owned()
    } else if n == 6 {
        "6".to_owned()
    } else if n == 7 {
        "7".to_owned()
    } else if n == 8 {
        "8".to_owned()
    } else {
        "9".to_owned()
    }
}

/// The decimal rendering of an unsigned number.
pub fn u32_to_string(n: u32) -> (r: String)
    ensures
        r@ =~= dec_nat(n as nat),
    decreases n,
{
    if n < 10 {
        digit_string(n)
    } else {
        proof {
            assert(n / 10 < n) by (nonlinear_arith)
                requires
                    n >= 10,
            ;
        }
        let mut s = u32_to_string(n / 10);
        let d = digit_string(n % 10);
        s.append(d.as_str());
        s
    }
}

/// The decimal rendering of a signed number.
pub fn i32_to_string(n: i32) -> (r: String)
    ensures
        r@ =~= dec_int(n as int),
{
    if n < 0 {
        let magnitude: u32 = (-(n as i64)) as u32;
        proof {
            assert(magnitude as int == -(n as int));
        }
        let mut s = "-".to_owned();
        let ds = u32_to_string(magnitude);
        s.append(ds.as_str());
        proof {
            reveal_strlit("-");
            assert("-"@ =~= seq!['-']);
        }
        s
    } else {
        u32_to_string(n as u32)
    }
}

} // verus!
