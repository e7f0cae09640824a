//! Small example functions exercised by the test suite.
use vstd::prelude::*;

verus! {

use crate::text::{i32_string, spec_i32_chars};
use vstd::string::{StrSliceExecFns, StringExecFns};

/// A three-way comparison result.
#[derive(Debug, PartialEq, Eq, Structural)]
pub enum Ordering {
    Less,
    Equal,
    Greater,
}

/// Compares two integers three ways.
pub fn compare(x: i32, y: i32) -> (r: Ordering)
    ensures
        r == Ordering::Less <==> x < y,
        r == Ordering::Greater <==> x > y,
        r == Ordering::Equal <==> x == y,
{
    if x < y {
        Ordering::Less
    } else if x > y {
        Ordering::Greater
    } else {
        Ordering::Equal
    }
}

/// The absolute value of an integer.
pub fn abs(value: i32) -> (r: i32)
    requires
        value != i32::MIN,
    ensures
        r == (if value < 0 {
            -(value as int)
        } else {
            value as int
        }),
{
    if value < 0 {
        -value
    } else {
        value
    }
}

/// The sign of an integer, as a word.
pub fn sign(value: i32) -> (r: &'static str)
    ensures
        value > 0 ==> r@ == "positive"@,
        value < 0 ==> r@ == "negative"@,
        value == 0 ==> r@ == "zero"@,
{
    if value > 0 {
        "positive"
    } else if value < 0 {
        "negative"
    } else {
        "zero"
    }
}

/// The fizz-buzz word of a number: `fizz` for multiples of three, `buzz`
/// for multiples of five, both together for multiples of both, and the
/// number itself otherwise.
pub fn fizz_buzz(n: i32) -> (r: String)
    ensures
        n % 3 == 0 && n % 5 == 0 ==> r@ == "fizz"@ + "buzz"@,
        n % 3 == 0 && n % 5 != 0 ==> r@ == "fizz"@,
        n % 3 != 0 && n % 5 == 0 ==> r@ == "buzz"@,
        n % 3 != 0 && n % 5 != 0 ==> r@ == spec_i32_chars(n as int),
{
    let mut r = String::new();
    if n % 3 == 0 {
        r.append("fizz");
    }
    if n % 5 == 0 {
        r.append("buzz");
    }
    if n % 3 != 0 && n % 5 != 0 {
        return i32_string(n);
    }
    proof {
        if n % 3 == 0 && n % 5 != 0 {
            assert(r@ =~= "fizz"@);
        }
        if n % 3 != 0 && n % 5 == 0 {
            assert(r@ =~= "buzz"@);
        }
    }
    r
}

} // verus!
