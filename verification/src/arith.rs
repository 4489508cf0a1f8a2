//! Division as the machine does it: the quotient is rounded toward zero and
//! the remainder has the sign of the dividend.

use vstd::prelude::*;

verus! {

pub open spec fn abs(a: int) -> int {
    if a >= 0 {
        a
    } else {
        -a
    }
}

/// The quotient of `a` by `b`, rounded toward zero.
pub open spec fn trunc_div(a: int, b: int) -> int {
    if (a >= 0) == (b >= 0) {
        abs(a) / abs(b)
    } else {
        -(abs(a) / abs(b))
    }
}

/// The remainder of `a` by `b`, with the sign of `a`.
pub open spec fn trunc_rem(a: int, b: int) -> int {
    if a >= 0 {
        abs(a) % abs(b)
    } else {
        -(abs(a) % abs(b))
    }
}

/// The quotient and the remainder of two 32-bit integers, where the divisor
/// is not zero and the quotient fits.
pub(crate) fn div_rem(a: i32, b: i32) -> (r: (i32, i32))
    requires
        b != 0,
        !(a == i32::MIN && b == -1),
    ensures
        r.0 == trunc_div(a as int, b as int),
        r.1 == trunc_rem(a as int, b as int),
{
    let x: i64 = if a >= 0 {
        a as i64
    } else {
        -(a as i64)
    };
    let y: i64 = if b >= 0 {
        b as i64
    } else {
        -(b as i64)
    };
    let q: i64 = x / y;
    let m: i64 = x % y;
    assert(0 <= q <= x) by (nonlinear_arith)
        requires
            q == x / y,
            x >= 0,
            y > 0,
    ;
    assert(0 <= m < y) by (nonlinear_arith)
        requires
            m == x % y,
            x >= 0,
            y > 0,
    ;
    assert(x == 2147483648 && y == 1 ==> q == 2147483648) by (nonlinear_arith)
        requires
            q == x / y,
    ;
    assert(y >= 2 && x <= 2147483648 ==> q <= 1073741824) by (nonlinear_arith)
        requires
            q == x / y,
            x >= 0,
    ;
    let sq: i64 = if (a >= 0) == (b >= 0) {
        q
    } else {
        -q
    };
    let sm: i64 = if a >= 0 {
        m
    } else {
        -m
    };
    (sq as i32, sm as i32)
}

} // verus!
