use vstd::prelude::*;
use vstd::arithmetic::div_mod::lemma_div_is_ordered;

verus! {

/// One spatial or opinion unit, held in thousandths so that all state stays in
/// integers.
pub const UNIT: i64 = 1000;

/// Magnitude that display values never reach: one hundred units.
pub const DISPLAY_LIMIT: i64 = 100_000;

/// Largest magnitude accepted for a seed given at construction.
pub const SEED_LIMIT: i64 = 1_000_000_000;

/// Largest magnitude accepted for one adjustment.
pub const DELTA_LIMIT: i64 = 1_000_000_000;

/// Bound on a seed after an adjustment: a construction seed plus one delta.
pub const MAX_SEED: i64 = 2_000_000_000;

/// Halving that rounds toward zero, as machine division of signed values does.
pub open spec fn half_toward_zero(d: int) -> int {
    if d >= 0 {
        d / 2
    } else {
        -((-d) / 2)
    }
}

/// Product of two display-scale values, brought back to thousandths, rounding
/// toward zero.
pub open spec fn scaled_product(w: int, t: int) -> int {
    if w * t >= 0 {
        (w * t) / (UNIT as int)
    } else {
        -((-(w * t)) / (UNIT as int))
    }
}

pub fn half_i64(d: i64) -> (r: i64)
    requires
        -DELTA_LIMIT <= d <= DELTA_LIMIT,
    ensures
        r == half_toward_zero(d as int),
{
    if d >= 0 {
        ((d as u64) / 2) as i64
    } else {
        let m: u64 = ((-d) as u64) / 2;
        -(m as i64)
    }
}

pub fn mul_scaled(w: i64, t: i64) -> (r: i64)
    requires
        -DISPLAY_LIMIT <= w <= DISPLAY_LIMIT,
        -DISPLAY_LIMIT <= t <= DISPLAY_LIMIT,
    ensures
        r == scaled_product(w as int, t as int),
        -10_000_000 <= r <= 10_000_000,
{
    let wa: u64 = if w >= 0 {
        w as u64
    } else {
        (-w) as u64
    };
    let ta: u64 = if t >= 0 {
        t as u64
    } else {
        (-t) as u64
    };
    proof {
        assert(wa * ta <= 10_000_000_000) by (nonlinear_arith)
            requires
                wa <= 100_000,
                ta <= 100_000,
        ;
    }
    let p: u64 = wa * ta;
    let q: u64 = p / 1000;
    proof {
        lemma_div_is_ordered(p as int, 10_000_000_000, 1000);
    }
    proof {
        assert(wa * ta == if w * t >= 0 {
            w * t
        } else {
            -(w * t)
        }) by (nonlinear_arith)
            requires
                wa == if w >= 0 { w as int } else { -(w as int) },
                ta == if t >= 0 { t as int } else { -(t as int) },
        ;
    }
    if (w < 0) != (t < 0) {
        proof {
            assert(w * t <= 0) by (nonlinear_arith)
                requires
                    (w < 0 && t >= 0) || (w >= 0 && t < 0),
            ;
        }
        -(q as i64)
    } else {
        proof {
            assert(w * t >= 0) by (nonlinear_arith)
                requires
                    (w < 0 && t < 0) || (w >= 0 && t >= 0),
            ;
        }
        q as i64
    }
}

} // verus!
