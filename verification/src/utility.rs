//! Small general helpers shared across the crate's consumers.

use vstd::prelude::*;
use crate::units::{div_trunc, mag_of, mul_div_i64, SCALE};

verus! {

/// Linear interpolation from `begin` to `end` by the fraction
/// `t / SCALE`: zero gives `begin`, a full `SCALE` gives `end`.
pub open spec fn spec_lerp(t: int, begin: int, end: int) -> int {
    begin + div_trunc((end - begin) * t, SCALE as int)
}

/// Linear interpolation from `begin` to `end` by the fraction
/// `t / SCALE`.
pub fn lerp_value(t: i64, begin: i64, end: i64) -> (r: i64)
    requires
        0 <= t <= SCALE,
        mag_of(begin as int) <= 0x1000000000000,
        mag_of(end as int) <= 0x1000000000000,
    ensures
        r == spec_lerp(t as int, begin as int, end as int),
{
    proof {
        assert(mag_of((end - begin) as int) * mag_of(t as int) <= 0x2000000000000 * 1000)
            by (nonlinear_arith)
            requires
                mag_of((end - begin) as int) <= 0x2000000000000,
                0 <= mag_of(t as int) <= 1000,
        ;
        assert(mag_of(((end - begin) as int) * (t as int)) == mag_of((end - begin) as int) * mag_of(
            t as int,
        )) by (nonlinear_arith);
        vstd::arithmetic::div_mod::lemma_div_is_ordered(
            mag_of(((end - begin) as int) * (t as int)),
            0x2000000000000int * 1000,
            SCALE as int,
        );
    }
    let step = mul_div_i64(end - begin, t, SCALE);
    begin + step
}

/// Combines two results: both values when both succeeded, otherwise the
/// first error encountered.
pub fn merge_result<T, E>(first: Result<T, E>, second: Result<T, E>) -> (r: Result<(T, T), E>)
    ensures
        r is Ok <==> first is Ok && second is Ok,
        r is Ok ==> r->Ok_0.0 == first->Ok_0 && r->Ok_0.1 == second->Ok_0,
        first is Err ==> r is Err && r->Err_0 == first->Err_0,
        first is Ok && second is Err ==> r is Err && r->Err_0 == second->Err_0,
{
    match first {
        Ok(a) => match second {
            Ok(b) => Ok((a, b)),
            Err(e) => Err(e),
        },
        Err(e) => Err(e),
    }
}

} // verus!
