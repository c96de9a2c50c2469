use vstd::prelude::*;
use crate::fixed::{
    half_toward_zero, half_i64, DISPLAY_LIMIT, SEED_LIMIT, DELTA_LIMIT, MAX_SEED,
};

verus! {

/// Tether of the squashing curve: the larger it is, the flatter the curve near
/// zero. Chosen so the curve keeps the shape the opinion model asks for:
/// steep around zero, saturating toward the display limit.
pub const SQUASH_TETHER: i64 = 200_000;

/// The squashing curve that turns an unbounded seed into a display value:
/// `s * DISPLAY_LIMIT / (SQUASH_TETHER + |s|)`, rounding toward zero. It is
/// odd, zero at zero, and its magnitude stays strictly under `DISPLAY_LIMIT`.
pub open spec fn squash(s: int) -> int {
    if s >= 0 {
        (DISPLAY_LIMIT * s) / (SQUASH_TETHER + s)
    } else {
        -((DISPLAY_LIMIT * (-s)) / (SQUASH_TETHER + (-s)))
    }
}

/// Display values never reach the display limit, in either direction, and
/// keep the sign of their seed.
pub proof fn lemma_squash_in_range(s: int)
    ensures
        -DISPLAY_LIMIT < squash(s) < DISPLAY_LIMIT,
        s >= 0 ==> squash(s) >= 0,
        s <= 0 ==> squash(s) <= 0,
        s == 0 ==> squash(s) == 0,
{
    let a = if s >= 0 { s } else { -s };
    let num = DISPLAY_LIMIT * a;
    let den = SQUASH_TETHER + a;
    assert(num < DISPLAY_LIMIT * den) by (nonlinear_arith)
        requires
            a >= 0,
            num == DISPLAY_LIMIT * a,
            den == SQUASH_TETHER + a,
    ;
    assert(num / den < DISPLAY_LIMIT) by (nonlinear_arith)
        requires
            num >= 0,
            den > 0,
            num < DISPLAY_LIMIT * den,
    ;
    assert(num / den >= 0) by (nonlinear_arith)
        requires
            num >= 0,
            den > 0,
    ;
}

/// One held opinion of one person: two authoritative seeds, the seeds they had
/// at construction, and the two squashed display values read by every
/// decision.
#[derive(Clone, Copy, PartialEq, Eq, Structural, Debug)]
pub struct PersonalOpinion {
    pub base_trust_seed: i64,
    pub base_likeability_seed: i64,
    pub trust_seed: i64,
    pub likeability_seed: i64,
    pub trust: i64,
    pub likeability: i64,
}

/// The opinion that construction from the seed pair `(t0, l0)` yields.
pub open spec fn fresh_opinion(t0: int, l0: int) -> PersonalOpinion {
    PersonalOpinion {
        base_trust_seed: t0 as i64,
        base_likeability_seed: l0 as i64,
        trust_seed: t0 as i64,
        likeability_seed: l0 as i64,
        trust: squash(t0) as i64,
        likeability: squash(l0) as i64,
    }
}

/// The opinion that a likeability adjustment by `d` leaves behind: both seeds
/// are replaced relative to the construction seeds — not the current ones —
/// the trust seed dragged along at half strength, and the display values
/// recomputed.
pub open spec fn adjusted_likeability_opinion(pre: PersonalOpinion, d: int) -> PersonalOpinion {
    PersonalOpinion {
        base_trust_seed: pre.base_trust_seed,
        base_likeability_seed: pre.base_likeability_seed,
        trust_seed: (pre.base_trust_seed + half_toward_zero(d)) as i64,
        likeability_seed: (pre.base_likeability_seed + d) as i64,
        trust: squash(pre.base_trust_seed + half_toward_zero(d)) as i64,
        likeability: squash(pre.base_likeability_seed + d) as i64,
    }
}

/// The opinion that a trust adjustment by `d` leaves behind: the mirror image
/// of the likeability rule.
pub open spec fn adjusted_trust_opinion(pre: PersonalOpinion, d: int) -> PersonalOpinion {
    PersonalOpinion {
        base_trust_seed: pre.base_trust_seed,
        base_likeability_seed: pre.base_likeability_seed,
        trust_seed: (pre.base_trust_seed + d) as i64,
        likeability_seed: (pre.base_likeability_seed + half_toward_zero(d)) as i64,
        trust: squash(pre.base_trust_seed + d) as i64,
        likeability: squash(pre.base_likeability_seed + half_toward_zero(d)) as i64,
    }
}

impl PersonalOpinion {
    /// A structurally sound opinion: seeds within range and both display
    /// values derived from the current seeds by the squashing curve.
    pub open spec fn wf(self) -> bool {
        &&& -SEED_LIMIT <= self.base_trust_seed <= SEED_LIMIT
        &&& -SEED_LIMIT <= self.base_likeability_seed <= SEED_LIMIT
        &&& -MAX_SEED <= self.trust_seed <= MAX_SEED
        &&& -MAX_SEED <= self.likeability_seed <= MAX_SEED
        &&& self.trust == squash(self.trust_seed as int)
        &&& self.likeability == squash(self.likeability_seed as int)
    }

    /// Seeds both dimensions and derives the display values.
    pub fn new(init_trust: i64, init_likeability: i64) -> (o: PersonalOpinion)
        requires
            -SEED_LIMIT <= init_trust <= SEED_LIMIT,
            -SEED_LIMIT <= init_likeability <= SEED_LIMIT,
        ensures
            o == fresh_opinion(init_trust as int, init_likeability as int),
            o.wf(),
            -DISPLAY_LIMIT < o.trust < DISPLAY_LIMIT,
            -DISPLAY_LIMIT < o.likeability < DISPLAY_LIMIT,
    {
        proof {
            lemma_squash_in_range(init_trust as int);
            lemma_squash_in_range(init_likeability as int);
        }
        PersonalOpinion {
            base_trust_seed: init_trust,
            base_likeability_seed: init_likeability,
            trust_seed: init_trust,
            likeability_seed: init_likeability,
            trust: squash_value(init_trust),
            likeability: squash_value(init_likeability),
        }
    }

    /// Replaces both seeds relative to the construction seeds, likeability at
    /// full strength and trust at half, then recomputes the display values.
    pub fn adjust_likeability(&mut self, modifier_value: i64)
        requires
            old(self).wf(),
            -DELTA_LIMIT <= modifier_value <= DELTA_LIMIT,
        ensures
            *final(self) == adjusted_likeability_opinion(*old(self), modifier_value as int),
            final(self).wf(),
    {
        let half: i64 = half_i64(modifier_value);
        self.trust_seed = self.base_trust_seed + half;
        self.likeability_seed = self.base_likeability_seed + modifier_value;
        self.propegate_output_values();
    }

    /// Replaces both seeds relative to the construction seeds, trust at full
    /// strength and likeability at half, then recomputes the display values.
    pub fn adjust_trust(&mut self, modifier_value: i64)
        requires
            old(self).wf(),
            -DELTA_LIMIT <= modifier_value <= DELTA_LIMIT,
        ensures
            *final(self) == adjusted_trust_opinion(*old(self), modifier_value as int),
            final(self).wf(),
    {
        let half: i64 = half_i64(modifier_value);
        self.trust_seed = self.base_trust_seed + modifier_value;
        self.likeability_seed = self.base_likeability_seed + half;
        self.propegate_output_values();
    }

    /// Recomputes both display values from the current seeds.
    fn propegate_output_values(&mut self)
        requires
            -MAX_SEED <= old(self).trust_seed <= MAX_SEED,
            -MAX_SEED <= old(self).likeability_seed <= MAX_SEED,
        ensures
            final(self).base_trust_seed == old(self).base_trust_seed,
            final(self).base_likeability_seed == old(self).base_likeability_seed,
            final(self).trust_seed == old(self).trust_seed,
            final(self).likeability_seed == old(self).likeability_seed,
            final(self).trust == squash(old(self).trust_seed as int),
            final(self).likeability == squash(old(self).likeability_seed as int),
    {
        self.trust = squash_value(self.trust_seed);
        self.likeability = squash_value(self.likeability_seed);
    }
}

/// Both display values of any structurally sound opinion — fresh or
/// adjusted — lie strictly inside the display limit.
pub proof fn lemma_displays_in_range(o: PersonalOpinion)
    requires
        o.wf(),
    ensures
        -DISPLAY_LIMIT < o.trust < DISPLAY_LIMIT,
        -DISPLAY_LIMIT < o.likeability < DISPLAY_LIMIT,
{
    lemma_squash_in_range(o.trust_seed as int);
    lemma_squash_in_range(o.likeability_seed as int);
}

/// Adjusting twice replaces rather than accumulates: the second adjustment
/// lands on the same opinion that a single adjustment from construction
/// would, whatever the first adjustment was.
pub proof fn lemma_adjust_likeability_replaces(o: PersonalOpinion, d1: int, d2: int)
    ensures
        adjusted_likeability_opinion(adjusted_likeability_opinion(o, d1), d2)
            == adjusted_likeability_opinion(o, d2),
{
}

/// The trust-side mirror of the replacement law.
pub proof fn lemma_adjust_trust_replaces(o: PersonalOpinion, d1: int, d2: int)
    ensures
        adjusted_trust_opinion(adjusted_trust_opinion(o, d1), d2)
            == adjusted_trust_opinion(o, d2),
{
}

/// Applies the squashing curve to one seed.
fn squash_value(s: i64) -> (r: i64)
    requires
        -MAX_SEED <= s <= MAX_SEED,
    ensures
        r == squash(s as int),
        -DISPLAY_LIMIT < r < DISPLAY_LIMIT,
{
    proof {
        lemma_squash_in_range(s as int);
    }
    let a: u64 = if s >= 0 {
        s as u64
    } else {
        (-s) as u64
    };
    proof {
        assert((DISPLAY_LIMIT as u64) * a <= 200_000_000_000_000) by (nonlinear_arith)
            requires
                a <= 2_000_000_000,
        ;
    }
    let num: u64 = (DISPLAY_LIMIT as u64) * a;
    let den: u64 = (SQUASH_TETHER as u64) + a;
    let q: u64 = num / den;
    if s >= 0 {
        q as i64
    } else {
        -(q as i64)
    }
}

} // verus!
