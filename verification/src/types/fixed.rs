//! Fixed-point decimal numbers: an integer counting units of `10^-EXP`.

use vstd::prelude::*;
use vstd::string::StringExecFns;

use crate::text::{
    decimal_spec, last_digits_spec, lemma_pow10_beyond_u64, lemma_pow10_grows, pow10, pow10_u64,
    push_decimal, push_last_digits,
};

verus! {

broadcast use vstd::string::group_string_axioms;

/// A decimal number with `EXP` digits after the point, stored as the integer
/// number of `10^-EXP` units.
#[derive(Copy, Clone, Debug, PartialEq, Eq, PartialOrd, Ord, Hash)]
pub struct Fixed<const EXP: u32>(pub i32);

/// Six decimal places in an `i32`: micro-degrees of a coordinate.
pub type Fixed6D32 = Fixed<6>;

/// The magnitude of `v`.
pub open spec fn magnitude(v: int) -> nat {
    if v < 0 {
        (-v) as nat
    } else {
        v as nat
    }
}

/// The text of a fixed-point value: a minus sign for a negative one, the
/// integer part in decimal, a point, and exactly `exp` fractional digits.
pub open spec fn fixed_text(v: int, exp: nat) -> Seq<char> {
    let a = magnitude(v);
    (if v < 0 {
        seq!['-']
    } else {
        Seq::empty()
    }) + decimal_spec(a / pow10(exp)) + seq!['.'] + last_digits_spec(a, exp)
}

/// The integer part of `v` with `exp` decimal places, truncated towards zero.
pub open spec fn whole_part(v: int, exp: nat) -> int {
    if v < 0 {
        -(magnitude(v) / pow10(exp)) as int
    } else {
        (magnitude(v) / pow10(exp)) as int
    }
}

/// The raw result of moving the point: the integer part scaled by
/// `10^new_exp`, plus the fractional units as they stand.
pub open spec fn rescaled(v: int, exp: nat, new_exp: nat) -> int {
    whole_part(v, exp) * pow10(new_exp) + magnitude(v) % pow10(exp)
}

/// The value of `convert`: the rescaled number, made negative when `v` was.
pub open spec fn convert_spec(v: int, exp: nat, new_exp: nat) -> int {
    if v < 0 {
        -magnitude(rescaled(v, exp, new_exp))
    } else {
        rescaled(v, exp, new_exp)
    }
}

/// `convert` stays within `i32`: both powers fit, the magnitude of `v` can be
/// taken, and every intermediate result fits.
pub open spec fn convert_fits(v: int, exp: nat, new_exp: nat) -> bool {
    &&& exp <= 9
    &&& new_exp <= 9
    &&& v > i32::MIN
    &&& i32::MIN <= whole_part(v, exp) * pow10(new_exp) <= i32::MAX
    &&& i32::MIN < rescaled(v, exp, new_exp) <= i32::MAX
}

impl<const EXP: u32> Fixed<EXP> {
    /// Zero.
    pub fn zero() -> (r: Self)
        ensures
            r.0 == 0,
    {
        Fixed(0)
    }

    /// The value with the point moved to `NEW_EXP` places: the integer part is
    /// scaled to the new unit and the fractional units are added unchanged.
    pub fn convert<const NEW_EXP: u32>(self) -> (r: Fixed<NEW_EXP>)
        requires
            convert_fits(self.0 as int, EXP as nat, NEW_EXP as nat),
        ensures
            r.0 == convert_spec(self.0 as int, EXP as nat, NEW_EXP as nat),
    {
        let v = self.0 as i64;
        let neg = v < 0;
        let a: i64 = if neg {
            -v
        } else {
            v
        };
        proof {
            lemma_pow10_grows(EXP as nat, 9);
            lemma_pow10_grows(NEW_EXP as nat, 9);
            lemma_pow10_grows(0, EXP as nat);
            assert(pow10(9) == 1_000_000_000nat) by {
                reveal_with_fuel(pow10, 10);
            }
        }
        let factor = pow10_u64(EXP) as i64;
        let new_factor = pow10_u64(NEW_EXP) as i64;
        let q = a / factor;
        let whole: i64 = if neg {
            -q
        } else {
            q
        };
        let frac = a % factor;
        proof {
            assert(whole == whole_part(self.0 as int, EXP as nat));
            assert(frac == magnitude(self.0 as int) % pow10(EXP as nat));
            assert(i32::MIN <= whole * new_factor <= i32::MAX);
        }
        let value = whole * new_factor + frac;
        let r = if neg {
            if value < 0 {
                value
            } else {
                -value
            }
        } else {
            value
        };
        Fixed(r as i32)
    }

    /// The decimal text of the value, as `Display` writes it: the integer
    /// part, a point and `EXP` fractional digits, with a leading minus sign
    /// for a negative value.
    pub fn to_string(&self) -> (r: String)
        ensures
            r@ == fixed_text(self.0 as int, EXP as nat),
    {
        proof {
            reveal_strlit("-");
            reveal_strlit(".");
        }
        let v = self.0 as i64;
        let a: u64 = if v < 0 {
            (-v) as u64
        } else {
            v as u64
        };
        let mut s = String::new();
        if v < 0 {
            s.append("-");
        }
        let q: u64 = if EXP >= 20 {
            proof {
                lemma_pow10_beyond_u64(EXP as nat);
                vstd::arithmetic::div_mod::lemma_basic_div(a as int, pow10(EXP as nat) as int);
            }
            0
        } else {
            proof {
                lemma_pow10_grows(0, EXP as nat);
            }
            a / pow10_u64(EXP)
        };
        push_decimal(&mut s, q);
        s.append(".");
        push_last_digits(&mut s, a, EXP);
        proof {
            assert(s@ =~= fixed_text(self.0 as int, EXP as nat));
        }
        s
    }
}

} // verus!
