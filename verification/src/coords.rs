//! Toroidal coordinate handling: the plain wrap, the one-unit boundary
//! nudge used by square-step neighbour lookups, and the step/mode rules
//! that place a coordinate in the diamond-square hierarchy.

use vstd::prelude::*;

verus! {

/// The toroidal wrap of `v` on an axis of length `size`: the unique
/// representative of `v` modulo `size` that lies in `[0, size)`.
/// (`%` on `int` is Euclidean, so the result is never negative.)
pub open spec fn wrap_spec(v: int, size: int) -> int {
    v % size
}

/// Maps a coordinate onto the grid by the plain toroidal wrap.
pub fn wrap(v: i64, size: u32) -> (r: u32)
    requires
        size > 0,
    ensures
        r == wrap_spec(v as int, size as int),
        r < size,
{
    proof {
        vstd::arithmetic::div_mod::lemma_mod_bound(v as int, size as int);
    }
    let m = v.checked_rem_euclid(size as i64).unwrap();
    m as u32
}

/// The one-unit boundary nudge: a coordinate exactly one unit outside
/// `[0, size)` is pushed one unit further outward. Square-step neighbour
/// lookups apply this before the wrap so that a lookup across the seam of
/// the odd-sized lattice lands on the already-computed ring.
pub open spec fn nudge_spec(v: int, size: int) -> int {
    if v < 0 {
        v - 1
    } else if v >= size {
        v + 1
    } else {
        v
    }
}

/// The step of a coordinate pair: the smallest power of two that does not
/// divide both `x` and `y`, halved. It measures how far the point is from
/// the already-resolved coarser lattice.
pub open spec fn step_of(x: nat, y: nat) -> nat
    recommends
        x > 0 || y > 0,
    decreases x + y,
{
    if x % 2 == 1 || y % 2 == 1 {
        1
    } else if x == 0 && y == 0 {
        1
    } else {
        2 * step_of(x / 2, y / 2)
    }
}

/// Whether a coordinate pair sits at a diagonal midpoint of its level
/// (diamond mode) rather than an orthogonal one (square mode).
pub open spec fn diamond_of(x: nat, y: nat) -> bool
    recommends
        x > 0 || y > 0,
    decreases x + y,
{
    if x % 2 == 1 || y % 2 == 1 {
        x % 2 == 1 && y % 2 == 1
    } else if x == 0 && y == 0 {
        false
    } else {
        diamond_of(x / 2, y / 2)
    }
}

/// The step of a coordinate never exceeds the coordinates' sum.
pub proof fn lemma_step_of_bound(x: nat, y: nat)
    requires
        x > 0 || y > 0,
    ensures
        1 <= step_of(x, y) <= x + y,
    decreases x + y,
{
    if x % 2 == 1 || y % 2 == 1 {
    } else {
        lemma_step_of_bound(x / 2, y / 2);
    }
}

/// Computes the step and mode of a coordinate pair (rules 1 and 2 of the
/// resolver): the step is the smallest power of two `s` with `x` or `y`
/// not a multiple of `2*s`; the mode is diamond when neither is.
pub fn calc_step(x: u32, y: u32) -> (r: (u32, bool))
    requires
        x > 0 || y > 0,
        x < 0x4000_0000,
        y < 0x4000_0000,
    ensures
        r.0 == step_of(x as nat, y as nat),
        r.1 == diamond_of(x as nat, y as nat),
        1 <= r.0 < 0x8000_0000,
    decreases x + y,
{
    if x % 2 == 1 || y % 2 == 1 {
        (1, x % 2 == 1 && y % 2 == 1)
    } else {
        proof {
            lemma_step_of_bound((x / 2) as nat, (y / 2) as nat);
        }
        let (s, d) = calc_step(x / 2, y / 2);
        (2 * s, d)
    }
}

/// The `index`-th dependency of a coordinate: the diagonal neighbours at
/// distance `step` in diamond mode (NE, SE, SW, NW), the orthogonal ones
/// in square mode (N, E, S, W). Square-mode lookups get the boundary
/// nudge; both modes end with the plain wrap.
pub open spec fn dep_coord_spec(x: int, y: int, step: int, index: int, diamond: bool, size: int) -> (
    int,
    int,
) {
    let (dx, dy) = if index == 0 {
        if diamond {
            (x + step, y - step)
        } else {
            (x, y - step)
        }
    } else if index == 1 {
        if diamond {
            (x + step, y + step)
        } else {
            (x + step, y)
        }
    } else if index == 2 {
        if diamond {
            (x - step, y + step)
        } else {
            (x, y + step)
        }
    } else {
        if diamond {
            (x - step, y - step)
        } else {
            (x - step, y)
        }
    };
    if diamond {
        (wrap_spec(dx, size), wrap_spec(dy, size))
    } else {
        (wrap_spec(nudge_spec(dx, size), size), wrap_spec(nudge_spec(dy, size), size))
    }
}

/// Computes the `index`-th dependency coordinate, nudged and wrapped.
pub fn dep_coord(x: u32, y: u32, step: u32, index: u8, diamond: bool, size: u32) -> (r: (u32, u32))
    requires
        size > 0,
        x < size,
        y < size,
        step < 0x8000_0000,
        size <= 0x4000_0000,
    ensures
        (r.0 as int, r.1 as int) == dep_coord_spec(
            x as int,
            y as int,
            step as int,
            index as int,
            diamond,
            size as int,
        ),
        r.0 < size,
        r.1 < size,
{
    let xi = x as i64;
    let yi = y as i64;
    let s = step as i64;
    let (dx, dy): (i64, i64) = if index == 0 {
        if diamond {
            (xi + s, yi - s)
        } else {
            (xi, yi - s)
        }
    } else if index == 1 {
        if diamond {
            (xi + s, yi + s)
        } else {
            (xi + s, yi)
        }
    } else if index == 2 {
        if diamond {
            (xi - s, yi + s)
        } else {
            (xi, yi + s)
        }
    } else {
        if diamond {
            (xi - s, yi - s)
        } else {
            (xi - s, yi)
        }
    };
    let (dx, dy): (i64, i64) = if diamond {
        (dx, dy)
    } else {
        (nudge(dx, size), nudge(dy, size))
    };
    (wrap(dx, size), wrap(dy, size))
}

/// Applies the one-unit boundary nudge.
pub fn nudge(v: i64, size: u32) -> (r: i64)
    requires
        -0x1_0000_0000 < v < 0x1_0000_0000,
    ensures
        r == nudge_spec(v as int, size as int),
{
    if v < 0 {
        v - 1
    } else if v >= size as i64 {
        v + 1
    } else {
        v
    }
}

} // verus!
