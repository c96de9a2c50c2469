use vstd::prelude::*;
use vstd::arithmetic::div_mod::{lemma_div_is_ordered, lemma_div_multiples_vanish};
use crate::fixed::UNIT;

verus! {

/// Half the arena width: agents past this on the x axis are pushed back.
pub const X_BOUND: i64 = 700_000;

/// Half the arena height: agents past this on the y axis are pushed back.
pub const Y_BOUND: i64 = 400_000;

/// How far outside the arena a position can ever be: one corrected step past
/// a bound.
pub const POS_SLACK: i64 = 2_000;

/// A point of the arena, in thousandths of a unit.
#[derive(Clone, Copy, PartialEq, Eq, Structural, Debug)]
pub struct Pos {
    pub x: i64,
    pub y: i64,
}

/// A per-tick displacement, in thousandths of a unit.
#[derive(Clone, Copy, PartialEq, Eq, Structural, Debug)]
pub struct Vel {
    pub x: i64,
    pub y: i64,
}

/// The four facing directions an agent can display.
#[derive(Debug, Clone, Copy, PartialEq, Eq, Structural)]
pub enum Direction {
    Up,
    Down,
    Left,
    Right,
}

/// The spritesheet row that renders each facing direction.
pub open spec fn spritesheet_row_of(d: Direction) -> int {
    match d {
        Direction::Up => 3,
        Direction::Down => 0,
        Direction::Left => 1,
        Direction::Right => 2,
    }
}

impl Direction {
    /// The row of a walking spritesheet that a renderer should show for this
    /// facing direction.
    pub fn spritesheet_row(&self) -> (r: usize)
        ensures
            r == spritesheet_row_of(*self),
    {
        match self {
            Direction::Up => 3,
            Direction::Down => 0,
            Direction::Left => 1,
            Direction::Right => 2,
        }
    }
}

/// A position never drifting more than one corrected step outside the arena.
pub open spec fn pos_in_arena(p: Pos) -> bool {
    &&& -(X_BOUND + POS_SLACK) <= p.x <= X_BOUND + POS_SLACK
    &&& -(Y_BOUND + POS_SLACK) <= p.y <= Y_BOUND + POS_SLACK
}

/// A velocity of at most one unit per tick on each axis.
pub open spec fn vel_bounded(v: Vel) -> bool {
    &&& -UNIT <= v.x <= UNIT
    &&& -UNIT <= v.y <= UNIT
}

/// The facing direction a velocity determines: the axis of larger magnitude
/// wins, the sign picks the side, and ties go to the vertical axis.
pub open spec fn facing_of(v: Vel) -> Direction {
    let ax = if v.x >= 0 { v.x as int } else { -(v.x as int) };
    let ay = if v.y >= 0 { v.y as int } else { -(v.y as int) };
    if ax > ay {
        if v.x < 0 {
            Direction::Left
        } else {
            Direction::Right
        }
    } else {
        if v.y < 0 {
            Direction::Down
        } else {
            Direction::Up
        }
    }
}

/// Derives the facing direction from a velocity.
pub fn derive_direction(v: Vel) -> (d: Direction)
    requires
        vel_bounded(v),
    ensures
        d == facing_of(v),
{
    let ax: i64 = if v.x >= 0 { v.x } else { -v.x };
    let ay: i64 = if v.y >= 0 { v.y } else { -v.y };
    if ax > ay {
        if v.x < 0 {
            Direction::Left
        } else {
            Direction::Right
        }
    } else {
        if v.y < 0 {
            Direction::Down
        } else {
            Direction::Up
        }
    }
}

/// The wall correction a position asks for: past the top, bottom, right or
/// left bound — checked in that order, first match winning — the velocity is
/// replaced by a unit push back toward the arena; inside the arena nothing
/// changes.
pub open spec fn boundary_correction(p: Pos) -> Option<Vel> {
    if p.y > Y_BOUND {
        Some(Vel { x: 0, y: (-UNIT) as i64 })
    } else if p.y < -Y_BOUND {
        Some(Vel { x: 0, y: UNIT })
    } else if p.x > X_BOUND {
        Some(Vel { x: (-UNIT) as i64, y: 0 })
    } else if p.x < -X_BOUND {
        Some(Vel { x: UNIT, y: 0 })
    } else {
        None
    }
}

/// Decides the wall correction for one position.
pub fn boundary_decision(p: Pos) -> (r: Option<Vel>)
    ensures
        r == boundary_correction(p),
{
    if p.y > Y_BOUND {
        Some(Vel { x: 0, y: -UNIT })
    } else if p.y < -Y_BOUND {
        Some(Vel { x: 0, y: UNIT })
    } else if p.x > X_BOUND {
        Some(Vel { x: -UNIT, y: 0 })
    } else if p.x < -X_BOUND {
        Some(Vel { x: UNIT, y: 0 })
    } else {
        None
    }
}

/// Moves a position by one tick of its velocity; the velocity is already a
/// per-tick displacement, so nothing scales it.
pub fn integrate(p: Pos, v: Vel) -> (q: Pos)
    requires
        pos_in_arena(p),
        vel_bounded(v),
    ensures
        q.x == p.x + v.x,
        q.y == p.y + v.y,
{
    Pos { x: p.x + v.x, y: p.y + v.y }
}

/// A step from inside the slack band stays inside it: corrected positions
/// walk back toward the arena and uncorrected ones move at most one unit.
pub proof fn lemma_integration_stays_in_arena(p: Pos, v: Vel, q: Pos)
    requires
        pos_in_arena(p),
        vel_bounded(v),
        q.x == p.x + v.x,
        q.y == p.y + v.y,
        boundary_correction(p) matches Some(c) ==> v == c,
        p.x > X_BOUND + UNIT ==> v.x <= 0,
        p.x < -(X_BOUND + UNIT) ==> v.x >= 0,
        p.y > Y_BOUND + UNIT ==> v.y <= 0,
        p.y < -(Y_BOUND + UNIT) ==> v.y >= 0,
    ensures
        pos_in_arena(q),
{
}

/// The largest `r` with `r * r <= n`, and `0` for negative `n`.
pub open spec fn isqrt_spec(n: int) -> int
    decreases n,
{
    if n <= 0 {
        0
    } else {
        let r = isqrt_spec(n - 1);
        if (r + 1) * (r + 1) <= n {
            r + 1
        } else {
            r
        }
    }
}

/// The defining bounds of the integer square root.
pub proof fn lemma_isqrt_bounds(n: int)
    requires
        n >= 0,
    ensures
        isqrt_spec(n) >= 0,
        isqrt_spec(n) * isqrt_spec(n) <= n,
        n < (isqrt_spec(n) + 1) * (isqrt_spec(n) + 1),
    decreases n,
{
    if n == 0 {
    } else {
        lemma_isqrt_bounds(n - 1);
        let r = isqrt_spec(n - 1);
        if (r + 1) * (r + 1) <= n {
            assert((r + 2) * (r + 2) > (r + 1) * (r + 1)) by (nonlinear_arith)
                requires
                    r >= 0,
            ;
        }
    }
}

/// Any `r` within the defining bounds is the integer square root.
pub proof fn lemma_isqrt_unique(n: int, r: int)
    requires
        n >= 0,
        r >= 0,
        r * r <= n,
        n < (r + 1) * (r + 1),
    ensures
        r == isqrt_spec(n),
{
    lemma_isqrt_bounds(n);
    let s = isqrt_spec(n);
    assert(r < s + 1 && s < r + 1) by (nonlinear_arith)
        requires
            r >= 0,
            s >= 0,
            r * r <= n,
            s * s <= n,
            n < (r + 1) * (r + 1),
            n < (s + 1) * (s + 1),
    ;
}

/// Computes the integer square root by binary search.
pub fn isqrt(n: u64) -> (r: u64)
    requires
        n <= 8_000_000_000_000,
    ensures
        r == isqrt_spec(n as int),
        r <= 3_000_000,
{
    let mut lo: u64 = 0;
    let mut hi: u64 = 3_000_000;
    proof {
        assert((3_000_000 as int) * (3_000_000 as int) > n as int);
    }
    while lo + 1 < hi
        invariant
            lo < hi <= 3_000_000,
            lo * lo <= n,
            n < hi * hi,
        decreases hi - lo,
    {
        let mid: u64 = lo + (hi - lo) / 2;
        proof {
            assert(mid * mid <= 9_000_000_000_000) by (nonlinear_arith)
                requires
                    mid <= 3_000_000,
            ;
        }
        if mid * mid <= n {
            lo = mid;
        } else {
            hi = mid;
        }
    }
    proof {
        lemma_isqrt_unique(n as int, lo as int);
    }
    lo
}

/// One component of a unit vector scaled back to thousandths: `c * UNIT`
/// divided by the vector's length, rounding toward zero.
pub open spec fn norm_component(c: int, len: int) -> int {
    if c >= 0 {
        (c * UNIT) / len
    } else {
        -(((-c) * UNIT) / len)
    }
}

/// Scales a nonzero displacement down to (at most) unit length.
pub fn normalize(dx: i64, dy: i64) -> (v: Vel)
    requires
        -2_000_000 <= dx <= 2_000_000,
        -2_000_000 <= dy <= 2_000_000,
        !(dx == 0 && dy == 0),
    ensures
        ({
            let len = isqrt_spec(dx * dx + dy * dy);
            v.x == norm_component(dx as int, len) && v.y == norm_component(dy as int, len)
        }),
        vel_bounded(v),
{
    let ax: u64 = if dx >= 0 { dx as u64 } else { (-dx) as u64 };
    let ay: u64 = if dy >= 0 { dy as u64 } else { (-dy) as u64 };
    proof {
        assert(ax * ax + ay * ay <= 8_000_000_000_000 && ax * ax == (dx as int) * (dx as int)
            && ay * ay == (dy as int) * (dy as int) && ax * ax + ay * ay >= 1) by (nonlinear_arith)
            requires
                ax <= 2_000_000,
                ay <= 2_000_000,
                ax == if dx >= 0 { dx as int } else { -(dx as int) },
                ay == if dy >= 0 { dy as int } else { -(dy as int) },
                !(dx == 0 && dy == 0),
        ;
    }
    let n: u64 = ax * ax + ay * ay;
    let len: u64 = isqrt(n);
    proof {
        lemma_isqrt_bounds(n as int);
        assert(len >= 1) by (nonlinear_arith)
            requires
                len as int == isqrt_spec(n as int),
                n >= 1,
                len >= 0,
                n < (len as int + 1) * (len as int + 1),
        ;
        assert(ax <= len && ay <= len) by (nonlinear_arith)
            requires
                ax * ax <= n as int,
                ay * ay <= n as int,
                n < (len as int + 1) * (len as int + 1),
                len >= 0,
        ;
        assert(ax * 1000 <= len * 1000 && ay * 1000 <= len * 1000) by (nonlinear_arith)
            requires
                ax <= len,
                ay <= len,
        ;
        lemma_div_is_ordered((ax * 1000) as int, (len * 1000) as int, len as int);
        lemma_div_is_ordered((ay * 1000) as int, (len * 1000) as int, len as int);
        lemma_div_multiples_vanish(1000, len as int);
    }
    let mx: u64 = (ax * 1000) / len;
    let my: u64 = (ay * 1000) / len;
    let vx: i64 = if dx >= 0 { mx as i64 } else { -(mx as i64) };
    let vy: i64 = if dy >= 0 { my as i64 } else { -(my as i64) };
    Vel { x: vx, y: vy }
}

/// What the steering pass decides for one agent, given this tick's two random
/// rolls and a fallback wander heading: nothing unless the turn roll fires
/// and the favorite's position is known; then the wander heading when the
/// favorite sits exactly here or the rare roll hits its sentinel, and
/// otherwise the unit step toward the favorite.
pub open spec fn steer_spec(
    turn_roll: int,
    rare_roll: int,
    self_pos: Pos,
    fav_pos: Option<Pos>,
    wander: Vel,
) -> Option<Vel> {
    if turn_roll > 10 {
        None
    } else {
        match fav_pos {
            None => None,
            Some(t) => {
                let dx = t.x - self_pos.x;
                let dy = t.y - self_pos.y;
                if (dx == 0 && dy == 0) || rare_roll == 69 {
                    Some(wander)
                } else {
                    let len = isqrt_spec(dx * dx + dy * dy);
                    Some(Vel {
                        x: norm_component(dx, len) as i64,
                        y: norm_component(dy, len) as i64,
                    })
                }
            },
        }
    }
}

/// Decides the steering outcome for one agent.
pub fn steer_decision(
    turn_roll: u64,
    rare_roll: u64,
    self_pos: Pos,
    fav_pos: Option<Pos>,
    wander: Vel,
) -> (r: Option<Vel>)
    requires
        pos_in_arena(self_pos),
        fav_pos matches Some(t) ==> pos_in_arena(t),
        vel_bounded(wander),
    ensures
        r == steer_spec(turn_roll as int, rare_roll as int, self_pos, fav_pos, wander),
        r matches Some(v) ==> vel_bounded(v),
{
    if turn_roll > 10 {
        return None;
    }
    match fav_pos {
        None => None,
        Some(t) => {
            let dx = t.x - self_pos.x;
            let dy = t.y - self_pos.y;
            if (dx == 0 && dy == 0) || rare_roll == 69 {
                Some(wander)
            } else {
                let v = normalize(dx, dy);
                Some(v)
            }
        },
    }
}

} // verus!
