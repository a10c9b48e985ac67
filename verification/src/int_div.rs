//! Truncating integer division: the division the hardware performs on
//! signed integers, which rounds the quotient toward zero.

use vstd::prelude::*;

verus! {

/// Truncating division of `a` by `b`: the quotient of the magnitudes,
/// negated when the operands' signs differ. This is the rounding-toward-zero
/// division of Rust's `/` on signed integers, as opposed to the Euclidean
/// division that `/` denotes on `int`.
pub open spec fn tdiv(a: int, b: int) -> int
    recommends
        b != 0,
{
    if a < 0 {
        if b < 0 {
            (-a) / (-b)
        } else {
            -((-a) / b)
        }
    } else {
        if b < 0 {
            -(a / (-b))
        } else {
            a / b
        }
    }
}

/// Dividing an exact product by one of its factors returns the other factor.
pub proof fn lemma_tdiv_mul_cancel(a: int, b: int)
    requires
        b != 0,
    ensures
        tdiv(a * b, b) == a,
{
    if b > 0 {
        if a >= 0 {
            assert(a * b >= 0) by (nonlinear_arith)
                requires
                    a >= 0 && b > 0,
            ;
            assert((a * b) / b == a) by (nonlinear_arith)
                requires
                    b > 0,
            ;
        } else {
            assert(a * b < 0) by (nonlinear_arith)
                requires
                    a < 0 && b > 0,
            ;
            assert((-(a * b)) / b == -a) by (nonlinear_arith)
                requires
                    b > 0,
            ;
        }
    } else {
        if a >= 0 {
            assert(a * b <= 0) by (nonlinear_arith)
                requires
                    a >= 0 && b < 0,
            ;
            if a * b < 0 {
                assert((-(a * b)) / (-b) == a) by (nonlinear_arith)
                    requires
                        b < 0,
                ;
            } else {
                assert(a == 0) by (nonlinear_arith)
                    requires
                        a * b == 0 && b != 0,
                ;
            }
        } else {
            assert(a * b > 0) by (nonlinear_arith)
                requires
                    a < 0 && b < 0,
            ;
            assert((a * b) / (-b) == -a) by (nonlinear_arith)
                requires
                    b < 0,
            ;
        }
    }
}

/// Truncating division of two `i64` values, written out over their
/// magnitudes so that the result provably matches `tdiv`.
pub fn div_i64(a: i64, b: i64) -> (q: i64)
    requires
        b != 0,
        !(a == i64::MIN && b == -1),
    ensures
        q == tdiv(a as int, b as int),
{
    let ua: u64 = if a >= 0 {
        a as u64
    } else {
        (-(a as i128)) as u64
    };
    let ub: u64 = if b >= 0 {
        b as u64
    } else {
        (-(b as i128)) as u64
    };
    let uq: u64 = ua / ub;
    proof {
        assert(ua / ub <= ua) by (nonlinear_arith)
            requires
                ub >= 1 && ua >= 0,
        ;
    }
    if (a < 0) != (b < 0) {
        if uq >= 0x8000_0000_0000_0000 {
            i64::MIN
        } else {
            -(uq as i64)
        }
    } else {
        proof {
            if ua == 0x8000_0000_0000_0000 {
                assert(ub >= 2);
                assert(ua / ub <= ua / 2) by (nonlinear_arith)
                    requires
                        ub >= 2 && ua >= 0,
                ;
            }
        }
        uq as i64
    }
}

} // verus!
