//! The motion interpolator: given a directive, a cell anchor, the cell's
//! half-extents and a phase within the repeating cycle, compute the marker's
//! current world position. All geometry is in integer world units; the phase
//! is an exact fraction `num / den` with `0 <= num < den`.

use vstd::prelude::*;
use crate::diagram::MoveType;

verus! {

/// Largest magnitude a cell anchor coordinate may have.
pub const MAX_ANCHOR: i64 = 1_000_000_000;

/// Largest half-extent of a cell.
pub const MAX_HALF_EXTENT: i64 = 1_000_000_000;

/// Largest cycle length (and so largest phase denominator), in the caller's
/// time unit.
pub const MAX_CYCLE_LEN: u64 = 1_000_000_000;

/// Sentinel position far outside the visible scene, used for blank cells.
pub const HIDDEN_COORD: i64 = -999_999;

/// A world-space position.
#[derive(Copy, Clone, PartialEq, Eq, Structural, Debug)]
pub struct Pos {
    pub x: i64,
    pub y: i64,
}

/// Progress through the animation cycle as the exact fraction `num / den`,
/// shared by every marker in a frame.
#[derive(Copy, Clone, PartialEq, Eq, Structural, Debug)]
pub struct Phase {
    pub num: u64,
    pub den: u64,
}

impl Phase {
    /// A valid phase: a fraction in `[0, 1)` with a bounded denominator.
    pub open spec fn wf(&self) -> bool {
        0 < self.den <= MAX_CYCLE_LEN && self.num < self.den
    }
}

/// The phase of a repeating cycle at a given elapsed time: elapsed time
/// modulo the cycle length, over the cycle length.
pub fn phase_of(elapsed: u64, cycle_len: u64) -> (r: Phase)
    requires
        0 < cycle_len <= MAX_CYCLE_LEN,
    ensures
        r.num == elapsed % cycle_len,
        r.den == cycle_len,
        r.wf(),
{
    Phase { num: elapsed % cycle_len, den: cycle_len }
}

/// The phase wraps exactly at the cycle length: advancing the clock by one
/// full cycle leaves the remainder, and so the phase, unchanged.
pub proof fn lemma_phase_wraps(eps: int, cycle_len: int)
    requires
        0 < cycle_len,
    ensures
        (cycle_len + eps) % cycle_len == eps % cycle_len,
{
    vstd::arithmetic::div_mod::lemma_mod_multiples_vanish(1, eps, cycle_len);
}

/// Linear remapping of a phase fraction `num / den` from `[0, 1)` onto the
/// segment from `a` to `b`: the exact value of `a + (num / den) * (b - a)`,
/// rounded toward `a`.
pub open spec fn remap_spec(num: int, den: int, a: int, b: int) -> int {
    if b >= a {
        a + (num * (b - a)) / den
    } else {
        a - (num * (a - b)) / den
    }
}

/// Remapping at phase zero gives the start of the segment.
pub proof fn lemma_remap_at_zero(den: int, a: int, b: int)
    requires
        0 < den,
    ensures
        remap_spec(0, den, a, b) == a,
{
    if b >= a {
        vstd::arithmetic::div_mod::lemma_div_of0(den);
        assert(0 * (b - a) == 0) by (nonlinear_arith);
    } else {
        vstd::arithmetic::div_mod::lemma_div_of0(den);
        assert(0 * (a - b) == 0) by (nonlinear_arith);
    }
}

/// A segment with equal endpoints never moves.
pub proof fn lemma_remap_const(num: int, den: int, a: int)
    requires
        0 < den,
    ensures
        remap_spec(num, den, a, a) == a,
{
    vstd::arithmetic::div_mod::lemma_div_of0(den);
    assert(num * 0 == 0) by (nonlinear_arith);
}

/// The remapped value stays on the segment, and never reaches the far end:
/// the phase is strictly below one, so the sweep is exclusive at `b`.
pub proof fn lemma_remap_range(num: int, den: int, a: int, b: int)
    requires
        0 < den,
        0 <= num < den,
    ensures
        a < b ==> a <= remap_spec(num, den, a, b) < b,
        b < a ==> b < remap_spec(num, den, a, b) <= a,
        a == b ==> remap_spec(num, den, a, b) == a,
{
    if a == b {
        lemma_remap_const(num, den, a);
    } else if a < b {
        let diff = b - a;
        vstd::arithmetic::mul::lemma_mul_nonnegative(num, diff);
        vstd::arithmetic::div_mod::lemma_div_pos_is_pos(num * diff, den);
        assert(num * diff < den * diff) by (nonlinear_arith)
            requires
                num < den,
                diff > 0,
        ;
        vstd::arithmetic::div_mod::lemma_multiply_divide_lt(num * diff, den, diff);
    } else {
        let diff = a - b;
        vstd::arithmetic::mul::lemma_mul_nonnegative(num, diff);
        vstd::arithmetic::div_mod::lemma_div_pos_is_pos(num * diff, den);
        assert(num * diff < den * diff) by (nonlinear_arith)
            requires
                num < den,
                diff > 0,
        ;
        vstd::arithmetic::div_mod::lemma_multiply_divide_lt(num * diff, den, diff);
    }
}

/// Remapping is monotone in the phase: as the phase grows, the value moves
/// from `a` toward `b` and never back.
pub proof fn lemma_remap_monotone(n1: int, n2: int, den: int, a: int, b: int)
    requires
        0 < den,
        0 <= n1 <= n2 < den,
    ensures
        a <= b ==> remap_spec(n1, den, a, b) <= remap_spec(n2, den, a, b),
        b <= a ==> remap_spec(n2, den, a, b) <= remap_spec(n1, den, a, b),
{
    if a <= b {
        let diff = b - a;
        vstd::arithmetic::mul::lemma_mul_inequality(n1, n2, diff);
        vstd::arithmetic::div_mod::lemma_div_is_ordered(n1 * diff, n2 * diff, den);
    } else {
        let diff = a - b;
        vstd::arithmetic::mul::lemma_mul_inequality(n1, n2, diff);
        vstd::arithmetic::div_mod::lemma_div_is_ordered(n1 * diff, n2 * diff, den);
    }
}

/// Linear remapping of the phase onto the segment from `a` to `b`.
pub fn remap(num: u64, den: u64, a: i64, b: i64) -> (r: i64)
    requires
        0 < den <= MAX_CYCLE_LEN,
        num < den,
        -2_000_000_000 <= a <= 2_000_000_000,
        -2_000_000_000 <= b <= 2_000_000_000,
    ensures
        r == remap_spec(num as int, den as int, a as int, b as int),
        a <= b ==> a <= r <= b,
        b <= a ==> b <= r <= a,
        a < b ==> r < b,
        b < a ==> r > b,
        num == 0 ==> r == a,
{
    proof {
        lemma_remap_range(num as int, den as int, a as int, b as int);
        if num == 0 {
            lemma_remap_at_zero(den as int, a as int, b as int);
        }
    }
    if b >= a {
        let diff: u64 = (b - a) as u64;
        proof {
            vstd::arithmetic::mul::lemma_mul_upper_bound(
                num as int,
                (MAX_CYCLE_LEN - 1) as int,
                diff as int,
                4_000_000_000,
            );
            vstd::arithmetic::mul::lemma_mul_inequality(num as int, den as int, diff as int);
            vstd::arithmetic::div_mod::lemma_multiply_divide_le(
                (num * diff) as int,
                den as int,
                diff as int,
            );
        }
        let q: u64 = (num * diff) / den;
        a + (q as i64)
    } else {
        let diff: u64 = (a - b) as u64;
        proof {
            vstd::arithmetic::mul::lemma_mul_upper_bound(
                num as int,
                (MAX_CYCLE_LEN - 1) as int,
                diff as int,
                4_000_000_000,
            );
            vstd::arithmetic::mul::lemma_mul_inequality(num as int, den as int, diff as int);
            vstd::arithmetic::div_mod::lemma_multiply_divide_le(
                (num * diff) as int,
                den as int,
                diff as int,
            );
        }
        let q: u64 = (num * diff) / den;
        a - (q as i64)
    }
}

/// The horizontal segment a directive sweeps, as `(entry, exit)` endpoints:
/// straight sweeps cross the whole cell, a corner's entry axis runs from its
/// entry edge to the center and its exit axis from the center to its exit
/// edge, and the blank directive sits at the hidden sentinel.
pub open spec fn x_span(mt: MoveType, x: int, hw: int) -> (int, int) {
    match mt {
        MoveType::Blank => (HIDDEN_COORD as int, HIDDEN_COORD as int),
        MoveType::Center => (x, x),
        MoveType::Left => (x + hw, x - hw),
        MoveType::Right => (x - hw, x + hw),
        MoveType::Up => (x, x),
        MoveType::Down => (x, x),
        MoveType::BottomToLeft => (x, x - hw),
        MoveType::TopToLeft => (x, x - hw),
        MoveType::BottomToRight => (x, x + hw),
        MoveType::TopToRight => (x, x + hw),
        MoveType::LeftToTop => (x - hw, x),
        MoveType::LeftToBottom => (x - hw, x),
        MoveType::RightToTop => (x + hw, x),
        MoveType::RightToBottom => (x + hw, x),
    }
}

/// The vertical segment a directive sweeps, as `(entry, exit)` endpoints.
pub open spec fn y_span(mt: MoveType, y: int, hh: int) -> (int, int) {
    match mt {
        MoveType::Blank => (HIDDEN_COORD as int, HIDDEN_COORD as int),
        MoveType::Center => (y, y),
        MoveType::Left => (y, y),
        MoveType::Right => (y, y),
        MoveType::Up => (y - hh, y + hh),
        MoveType::Down => (y + hh, y - hh),
        MoveType::BottomToLeft => (y - hh, y),
        MoveType::BottomToRight => (y - hh, y),
        MoveType::TopToLeft => (y + hh, y),
        MoveType::TopToRight => (y + hh, y),
        MoveType::LeftToTop => (y, y + hh),
        MoveType::RightToTop => (y, y + hh),
        MoveType::LeftToBottom => (y, y - hh),
        MoveType::RightToBottom => (y, y - hh),
    }
}

/// The horizontal coordinate of a marker with directive `mt` anchored at
/// `x`, at phase `num / den`.
pub open spec fn motion_x(mt: MoveType, x: int, hw: int, num: int, den: int) -> int {
    remap_spec(num, den, x_span(mt, x, hw).0, x_span(mt, x, hw).1)
}

/// The vertical coordinate of a marker with directive `mt` anchored at
/// `y`, at phase `num / den`.
pub open spec fn motion_y(mt: MoveType, y: int, hh: int, num: int, den: int) -> int {
    remap_spec(num, den, y_span(mt, y, hh).0, y_span(mt, y, hh).1)
}

/// The current position of a marker: each axis is remapped independently
/// over the same phase, from its entry endpoint toward its exit endpoint.
///
/// The interpolator is total over the directive set and never fails; blank
/// cells are placed at the hidden sentinel position.
pub fn interpolate(mt: MoveType, x: i64, y: i64, hw: i64, hh: i64, phase: Phase) -> (r: Pos)
    requires
        phase.wf(),
        0 < hw <= MAX_HALF_EXTENT,
        0 < hh <= MAX_HALF_EXTENT,
        -MAX_ANCHOR <= x <= MAX_ANCHOR,
        -MAX_ANCHOR <= y <= MAX_ANCHOR,
    ensures
        r.x == motion_x(mt, x as int, hw as int, phase.num as int, phase.den as int),
        r.y == motion_y(mt, y as int, hh as int, phase.num as int, phase.den as int),
        mt == MoveType::Center ==> r == (Pos { x, y }),
        phase.num == 0 ==> r.x == x_span(mt, x as int, hw as int).0 && r.y == y_span(
            mt,
            y as int,
            hh as int,
        ).0,
{
    let num = phase.num;
    let den = phase.den;
    proof {
        lemma_remap_const(num as int, den as int, x as int);
        lemma_remap_const(num as int, den as int, y as int);
        lemma_remap_const(num as int, den as int, HIDDEN_COORD as int);
    }
    match mt {
        MoveType::Blank => Pos { x: HIDDEN_COORD, y: HIDDEN_COORD },
        MoveType::Center => Pos { x, y },
        MoveType::Left => Pos { x: remap(num, den, x + hw, x - hw), y },
        MoveType::Right => Pos { x: remap(num, den, x - hw, x + hw), y },
        MoveType::Up => Pos { x, y: remap(num, den, y - hh, y + hh) },
        MoveType::Down => Pos { x, y: remap(num, den, y + hh, y - hh) },
        MoveType::BottomToLeft => Pos {
            x: remap(num, den, x, x - hw),
            y: remap(num, den, y - hh, y),
        },
        MoveType::TopToLeft => Pos {
            x: remap(num, den, x, x - hw),
            y: remap(num, den, y + hh, y),
        },
        MoveType::BottomToRight => Pos {
            x: remap(num, den, x, x + hw),
            y: remap(num, den, y - hh, y),
        },
        MoveType::TopToRight => Pos {
            x: remap(num, den, x, x + hw),
            y: remap(num, den, y + hh, y),
        },
        MoveType::LeftToTop => Pos {
            x: remap(num, den, x - hw, x),
            y: remap(num, den, y, y + hh),
        },
        MoveType::RightToTop => Pos {
            x: remap(num, den, x + hw, x),
            y: remap(num, den, y, y + hh),
        },
        MoveType::LeftToBottom => Pos {
            x: remap(num, den, x - hw, x),
            y: remap(num, den, y, y - hh),
        },
        MoveType::RightToBottom => Pos {
            x: remap(num, den, x + hw, x),
            y: remap(num, den, y, y - hh),
        },
    }
}

/// A value sweeps from `a` toward `b`: `v1` at the earlier phase and `v2` at
/// the later one both lie on the segment, in travel order.
pub open spec fn toward(a: int, b: int, v1: int, v2: int) -> bool {
    if a <= b {
        a <= v1 <= v2 <= b
    } else {
        b <= v2 <= v1 <= a
    }
}

/// Every directive moves monotonically: as the phase grows, each coordinate
/// moves from its entry endpoint toward its exit endpoint and never back,
/// and at phase zero each coordinate equals its entry endpoint exactly.
pub proof fn lemma_motion_monotone(
    mt: MoveType,
    x: int,
    y: int,
    hw: int,
    hh: int,
    n1: int,
    n2: int,
    den: int,
)
    requires
        0 < den,
        0 <= n1 <= n2 < den,
    ensures
        toward(
            x_span(mt, x, hw).0,
            x_span(mt, x, hw).1,
            motion_x(mt, x, hw, n1, den),
            motion_x(mt, x, hw, n2, den),
        ),
        toward(
            y_span(mt, y, hh).0,
            y_span(mt, y, hh).1,
            motion_y(mt, y, hh, n1, den),
            motion_y(mt, y, hh, n2, den),
        ),
        motion_x(mt, x, hw, 0, den) == x_span(mt, x, hw).0,
        motion_y(mt, y, hh, 0, den) == y_span(mt, y, hh).0,
{
    let xs = x_span(mt, x, hw);
    let ys = y_span(mt, y, hh);
    lemma_remap_range(n1, den, xs.0, xs.1);
    lemma_remap_range(n2, den, xs.0, xs.1);
    lemma_remap_monotone(n1, n2, den, xs.0, xs.1);
    lemma_remap_range(n1, den, ys.0, ys.1);
    lemma_remap_range(n2, den, ys.0, ys.1);
    lemma_remap_monotone(n1, n2, den, ys.0, ys.1);
    lemma_remap_at_zero(den, xs.0, xs.1);
    lemma_remap_at_zero(den, ys.0, ys.1);
}

} // verus!
