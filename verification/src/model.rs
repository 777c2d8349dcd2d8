//! The functional model of the lazy dependency resolver: an explicit
//! stack of resolution frames, stepped one dependency lookup at a time.
//! The map's `gen` and `regen` are proved to implement `gen_spec` and
//! `regen_spec` exactly (for a deterministic jitter source).

use vstd::prelude::*;

use crate::coords::diamond_of;
use crate::coords::dep_coord_spec;
use crate::coords::step_of;
use crate::coords::wrap_spec;
use crate::height::avg4_spec;
use crate::height::mix_spec;
use crate::height::HEIGHT_LIMIT;
use crate::height::HEIGHT_ONE;
use crate::hooks::CalcRoughness;
use crate::hooks::ChangeCalcedH;
use crate::hooks::GenRand;
use crate::noise::wyrand_u16_spec;

verus! {

/// One pending coordinate of the resolver: its position, its step and
/// mode in the hierarchy, the next dependency slot to fill, the heights
/// gathered so far, and whether a stored value at the position must be
/// overwritten when the frame completes (only `regen`'s root frame).
pub struct FrameSpec {
    pub x: int,
    pub y: int,
    pub step: int,
    pub diamond: bool,
    pub idx: int,
    pub h0: int,
    pub h1: int,
    pub h2: int,
    pub h3: int,
    pub force: bool,
}

/// The resolver's state: the grid and the stack of frames, the last
/// element of the sequence being the top of the stack.
pub struct ResolveState {
    pub grid: Seq<Option<i64>>,
    pub frames: Seq<FrameSpec>,
}

/// The fixed per-call data of one resolution: the hooks, the seed, the
/// stored roughness and the side length.
pub struct ResolveParams<R: GenRand, C: CalcRoughness, P: ChangeCalcedH> {
    pub rf: R,
    pub cf: C,
    pub pf: P,
    pub seed: u64,
    pub rough: u16,
    pub size: int,
}

/// The cell of the row-major grid at `(x, y)`.
pub open spec fn cell(grid: Seq<Option<i64>>, size: int, x: int, y: int) -> Option<i64> {
    grid[y * size + x]
}

/// Whether `(x, y)` is one of the four corner cells.
pub open spec fn is_corner(x: int, y: int, size: int) -> bool {
    (x == 0 || x == size - 1) && (y == 0 || y == size - 1)
}

/// Whether all four corners hold a value. The resolver never computes a
/// corner, so resolution bottoms out only when they do.
pub open spec fn corners_set(grid: Seq<Option<i64>>, size: int) -> bool {
    &&& cell(grid, size, 0, 0) is Some
    &&& cell(grid, size, size - 1, 0) is Some
    &&& cell(grid, size, 0, size - 1) is Some
    &&& cell(grid, size, size - 1, size - 1) is Some
}

/// The blended height of a cell, given the four gathered neighbour
/// heights and a 16-bit jitter sample.
pub open spec fn blend_with<C: CalcRoughness, P: ChangeCalcedH>(
    cf: C,
    pf: P,
    rough: u16,
    rand16: u16,
    x: u32,
    y: u32,
    h0: int,
    h1: int,
    h2: int,
    h3: int,
) -> i64 {
    let r = cf.spec_roughness(x, y, rough);
    let avg = avg4_spec(h0, h1, h2, h3);
    let raw = mix_spec(r as int, rand16 as int, avg);
    pf.spec_change(x, y, raw as i64)
}

/// The blended height with the jitter sample drawn from the seed hook
/// through the Wyrand generator.
pub open spec fn blend_spec<R: GenRand, C: CalcRoughness, P: ChangeCalcedH>(
    p: ResolveParams<R, C, P>,
    x: u32,
    y: u32,
    h0: int,
    h1: int,
    h2: int,
    h3: int,
) -> i64 {
    blend_with(
        p.cf,
        p.pf,
        p.rough,
        wyrand_u16_spec(p.rf.spec_rand(x, y, p.seed)),
        x,
        y,
        h0,
        h1,
        h2,
        h3,
    )
}

/// A fresh frame for a coordinate, with its step and mode computed from
/// the coordinate's bits.
pub open spec fn init_frame(x: int, y: int, force: bool) -> FrameSpec {
    FrameSpec {
        x,
        y,
        step: step_of(x as nat, y as nat) as int,
        diamond: diamond_of(x as nat, y as nat),
        idx: 0,
        h0: 0,
        h1: 0,
        h2: 0,
        h3: 0,
        force,
    }
}

/// The frame with the height `v` recorded in its next slot.
pub open spec fn fill_slot(f: FrameSpec, v: int) -> FrameSpec {
    if f.idx == 0 {
        FrameSpec { h0: v, idx: 1, ..f }
    } else if f.idx == 1 {
        FrameSpec { h1: v, idx: 2, ..f }
    } else if f.idx == 2 {
        FrameSpec { h2: v, idx: 3, ..f }
    } else {
        FrameSpec { h3: v, idx: 4, ..f }
    }
}

/// One iteration of the resolver loop: look the top frame's next
/// dependency up; a stored value fills a slot (completing the frame once
/// all four are known: blend, write, pop), a missing one pushes a new
/// frame for the dependency.
pub open spec fn resolve_step<R: GenRand, C: CalcRoughness, P: ChangeCalcedH>(
    p: ResolveParams<R, C, P>,
    st: ResolveState,
) -> ResolveState
    recommends
        st.frames.len() > 0,
{
    let f = st.frames.last();
    let d = dep_coord_spec(f.x, f.y, f.step, f.idx, f.diamond, p.size);
    match cell(st.grid, p.size, d.0, d.1) {
        Some(v) => {
            let f2 = fill_slot(f, v as int);
            if f.idx == 3 {
                let hv = blend_spec(p, f.x as u32, f.y as u32, f2.h0, f2.h1, f2.h2, f2.h3);
                let grid2 = if f.force || cell(st.grid, p.size, f.x, f.y) is None {
                    st.grid.update(f.y * p.size + f.x, Some(hv))
                } else {
                    st.grid
                };
                ResolveState { grid: grid2, frames: st.frames.drop_last() }
            } else {
                ResolveState {
                    grid: st.grid,
                    frames: st.frames.update(st.frames.len() - 1, f2),
                }
            }
        },
        None => {
            ResolveState {
                grid: st.grid,
                frames: st.frames.push(init_frame(d.0, d.1, false)),
            }
        },
    }
}

/// The resolver run to completion or until the fuel is spent.
pub open spec fn run_resolver<R: GenRand, C: CalcRoughness, P: ChangeCalcedH>(
    p: ResolveParams<R, C, P>,
    st: ResolveState,
    fuel: nat,
) -> ResolveState
    decreases fuel,
{
    if fuel == 0 || st.frames.len() == 0 {
        st
    } else {
        run_resolver(p, resolve_step(p, st), (fuel - 1) as nat)
    }
}

/// The iteration budget of one resolution: generous for every reachable
/// dependency cone, and the explicit cap that ends a resolution whose
/// dependency chain never bottoms out.
pub open spec fn fuel_for(size: int) -> nat {
    (16 * size * size + 256) as nat
}

/// What one `gen` call does to the wrapped coordinate: a corner or a
/// stored cell is only read; an unset corner elsewhere refuses the
/// resolution; otherwise the resolver runs, writing every height it
/// computes along the way. The results are the new grid, the returned
/// height and whether a fresh value was computed.
pub open spec fn gen_spec<R: GenRand, C: CalcRoughness, P: ChangeCalcedH>(
    p: ResolveParams<R, C, P>,
    grid: Seq<Option<i64>>,
    x: int,
    y: int,
) -> (Seq<Option<i64>>, Option<i64>, bool) {
    let xw = wrap_spec(x, p.size);
    let yw = wrap_spec(y, p.size);
    if is_corner(xw, yw, p.size) {
        (grid, cell(grid, p.size, xw, yw), false)
    } else if cell(grid, p.size, xw, yw) is Some {
        (grid, cell(grid, p.size, xw, yw), false)
    } else if !corners_set(grid, p.size) {
        (grid, Option::None, false)
    } else {
        let st = run_resolver(
            p,
            ResolveState { grid, frames: seq![init_frame(xw, yw, false)] },
            fuel_for(p.size),
        );
        if st.frames.len() == 0 {
            (st.grid, cell(st.grid, p.size, xw, yw), true)
        } else {
            (st.grid, Option::None, false)
        }
    }
}

/// What one `regen` call does: a corner reports its stored value twice;
/// elsewhere the resolver runs with a forced root, which overwrites the
/// stored height while still reusing stored dependencies. The results
/// are the new grid, the previous height and the new one.
pub open spec fn regen_spec<R: GenRand, C: CalcRoughness, P: ChangeCalcedH>(
    p: ResolveParams<R, C, P>,
    grid: Seq<Option<i64>>,
    x: int,
    y: int,
) -> (Seq<Option<i64>>, Option<i64>, Option<i64>) {
    let xw = wrap_spec(x, p.size);
    let yw = wrap_spec(y, p.size);
    let prev = cell(grid, p.size, xw, yw);
    if is_corner(xw, yw, p.size) {
        (grid, prev, prev)
    } else if !corners_set(grid, p.size) {
        (grid, prev, Option::None)
    } else {
        let st = run_resolver(
            p,
            ResolveState { grid, frames: seq![init_frame(xw, yw, true)] },
            fuel_for(p.size),
        );
        if st.frames.len() == 0 {
            (st.grid, prev, cell(st.grid, p.size, xw, yw))
        } else {
            (st.grid, prev, Option::None)
        }
    }
}

/// Well-formedness of a resolver state on a `size`-sided grid: the grid
/// has the right length and bounded heights, every frame sits on the
/// grid with a meaningful slot index and bounded gathered heights, and
/// only the bottom frame may be forced, never on a corner.
pub open spec fn state_inv(size: int, st: ResolveState) -> bool {
    &&& 3 <= size <= 0x4000_0000
    &&& st.grid.len() == size * size
    &&& (forall|i: int|
        0 <= i < st.grid.len() && #[trigger] st.grid[i] is Some ==> -HEIGHT_LIMIT
            <= st.grid[i]->0 <= HEIGHT_LIMIT)
    &&& (forall|k: int|
        0 <= k < st.frames.len() ==> {
            let f = #[trigger] st.frames[k];
            &&& 0 <= f.x < size
            &&& 0 <= f.y < size
            &&& 0 <= f.idx <= 3
            &&& -HEIGHT_LIMIT <= f.h0 <= HEIGHT_LIMIT
            &&& -HEIGHT_LIMIT <= f.h1 <= HEIGHT_LIMIT
            &&& -HEIGHT_LIMIT <= f.h2 <= HEIGHT_LIMIT
            &&& -HEIGHT_LIMIT <= f.h3 <= HEIGHT_LIMIT
            &&& (f.force ==> k == 0 && !is_corner(f.x, f.y, size))
        })
}

/// The new grid extends the old one: a set cell keeps its value, except
/// possibly the single cell index `ex` (the forced root of a `regen`).
pub open spec fn grid_extends(g1: Seq<Option<i64>>, g2: Seq<Option<i64>>, ex: int) -> bool {
    &&& g2.len() == g1.len()
    &&& (forall|i: int| 0 <= i < g1.len() && i != ex && #[trigger] g1[i] is Some ==> g2[i] == g1[i])
}

/// A cell index lies in the grid when its coordinates lie on it.
pub proof fn lemma_cell_index(x: int, y: int, size: int)
    requires
        0 <= x < size,
        0 <= y < size,
    ensures
        0 <= y * size + x < size * size,
{
    assert(0 <= y * size + x < size * size) by (nonlinear_arith)
        requires
            0 <= x < size,
            0 <= y < size,
    ;
}

/// A blend of bounded heights stays bounded.
pub proof fn lemma_blend_bounded<C: CalcRoughness, P: ChangeCalcedH>(
    cf: C,
    pf: P,
    rough: u16,
    rand16: u16,
    x: u32,
    y: u32,
    h0: int,
    h1: int,
    h2: int,
    h3: int,
)
    requires
        -HEIGHT_LIMIT <= h0 <= HEIGHT_LIMIT,
        -HEIGHT_LIMIT <= h1 <= HEIGHT_LIMIT,
        -HEIGHT_LIMIT <= h2 <= HEIGHT_LIMIT,
        -HEIGHT_LIMIT <= h3 <= HEIGHT_LIMIT,
    ensures
        -HEIGHT_LIMIT <= blend_with(cf, pf, rough, rand16, x, y, h0, h1, h2, h3) <= HEIGHT_LIMIT,
{
    crate::height::lemma_avg4_bounds(h0, h1, h2, h3, HEIGHT_LIMIT as int);
    let r = cf.spec_roughness(x, y, rough);
    let avg = avg4_spec(h0, h1, h2, h3);
    crate::height::lemma_mix_bounds(r as int, rand16 as int, avg);
    let raw = mix_spec(r as int, rand16 as int, avg);
    pf.lemma_change_bounded(x, y, raw as i64);
}

/// One resolver step keeps the state well formed, only fills unset cells
/// (but for the forced root `ex`), keeps the bottom frame in place until
/// the very last pop, and that pop leaves the root cell set.
pub proof fn lemma_step_preserves<R: GenRand, C: CalcRoughness, P: ChangeCalcedH>(
    p: ResolveParams<R, C, P>,
    st: ResolveState,
    ex: int,
)
    requires
        state_inv(p.size, st),
        st.frames.len() > 0,
        forall|k: int|
            0 <= k < st.frames.len() && (#[trigger] st.frames[k]).force ==> st.frames[k].y * p.size
                + st.frames[k].x == ex,
    ensures
        state_inv(p.size, resolve_step(p, st)),
        grid_extends(st.grid, resolve_step(p, st).grid, ex),
        forall|k: int|
            0 <= k < resolve_step(p, st).frames.len() && (#[trigger] resolve_step(
                p,
                st,
            ).frames[k]).force ==> resolve_step(p, st).frames[k].y * p.size + resolve_step(
                p,
                st,
            ).frames[k].x == ex,
        resolve_step(p, st).frames.len() == 0 ==> cell(
            resolve_step(p, st).grid,
            p.size,
            st.frames[0].x,
            st.frames[0].y,
        ) is Some,
        resolve_step(p, st).frames.len() > 0 ==> resolve_step(p, st).frames[0].x
            == st.frames[0].x && resolve_step(p, st).frames[0].y == st.frames[0].y,
{
    broadcast use vstd::arithmetic::div_mod::lemma_mod_division_less_than_divisor;

    let f = st.frames.last();
    let d = dep_coord_spec(f.x, f.y, f.step, f.idx, f.diamond, p.size);
    assert(0 <= d.0 < p.size && 0 <= d.1 < p.size);
    lemma_cell_index(d.0, d.1, p.size);
    let st2 = resolve_step(p, st);
    match cell(st.grid, p.size, d.0, d.1) {
        Some(v) => {
            let f2 = fill_slot(f, v as int);
            if f.idx == 3 {
                let hv = blend_spec(p, f.x as u32, f.y as u32, f2.h0, f2.h1, f2.h2, f2.h3);
                lemma_blend_bounded(
                    p.cf,
                    p.pf,
                    p.rough,
                    wyrand_u16_spec(p.rf.spec_rand(f.x as u32, f.y as u32, p.seed)),
                    f.x as u32,
                    f.y as u32,
                    f2.h0,
                    f2.h1,
                    f2.h2,
                    f2.h3,
                );
                lemma_cell_index(f.x, f.y, p.size);
                assert(st2.frames =~= st.frames.drop_last());
            } else {
                assert(st2.frames[st.frames.len() - 1] == f2);
            }
        },
        None => {
        },
    }
}

/// The resolver run keeps the state well formed, only fills unset cells
/// (but for the forced root `ex`), and when it completes, the root cell
/// is set.
pub proof fn lemma_run_preserves<R: GenRand, C: CalcRoughness, P: ChangeCalcedH>(
    p: ResolveParams<R, C, P>,
    st: ResolveState,
    fuel: nat,
    ex: int,
)
    requires
        state_inv(p.size, st),
        forall|k: int|
            0 <= k < st.frames.len() && (#[trigger] st.frames[k]).force ==> st.frames[k].y * p.size
                + st.frames[k].x == ex,
    ensures
        state_inv(p.size, run_resolver(p, st, fuel)),
        grid_extends(st.grid, run_resolver(p, st, fuel).grid, ex),
        st.frames.len() > 0 && run_resolver(p, st, fuel).frames.len() == 0 ==> cell(
            run_resolver(p, st, fuel).grid,
            p.size,
            st.frames[0].x,
            st.frames[0].y,
        ) is Some,
    decreases fuel,
{
    let r = run_resolver(p, st, fuel);
    if fuel == 0 || st.frames.len() == 0 {
        assert(grid_extends(st.grid, r.grid, ex));
    } else {
        let st2 = resolve_step(p, st);
        lemma_step_preserves(p, st, ex);
        lemma_run_preserves(p, st2, (fuel - 1) as nat, ex);
        assert(grid_extends(st.grid, r.grid, ex));
        if st2.frames.len() == 0 {
            assert(r == run_resolver(p, st2, (fuel - 1) as nat));
            assert(r == st2);
        } else {
            if r.frames.len() == 0 {
                assert(cell(r.grid, p.size, st2.frames[0].x, st2.frames[0].y) is Some);
                lemma_cell_index(st.frames[0].x, st.frames[0].y, p.size);
            }
        }
    }
}

/// Running `a + b` steps is running `a` steps, then `b`.
pub proof fn lemma_run_compose<R: GenRand, C: CalcRoughness, P: ChangeCalcedH>(
    p: ResolveParams<R, C, P>,
    st: ResolveState,
    a: nat,
    b: nat,
)
    ensures
        run_resolver(p, st, a + b) == run_resolver(p, run_resolver(p, st, a), b),
    decreases a,
{
    if a == 0 {
    } else if st.frames.len() == 0 {
    } else {
        lemma_run_compose(p, resolve_step(p, st), (a - 1) as nat, b);
        assert(run_resolver(p, st, a + b) == run_resolver(p, resolve_step(p, st), (a + b - 1) as nat));
    }
}

/// The post hook is the identity: heights are stored exactly as blended.
pub open spec fn post_identity<P: ChangeCalcedH>(pf: P) -> bool {
    forall|x: u32, y: u32, h: i64| #[trigger] pf.spec_change(x, y, h) == h
}

/// Every height of a state lies on the unit scale `[0, HEIGHT_ONE]`.
pub open spec fn range_inv(st: ResolveState) -> bool {
    &&& (forall|i: int|
        0 <= i < st.grid.len() && #[trigger] st.grid[i] is Some ==> 0 <= st.grid[i]->0
            <= HEIGHT_ONE)
    &&& (forall|k: int|
        0 <= k < st.frames.len() ==> {
            let f = #[trigger] st.frames[k];
            &&& 0 <= f.h0 <= HEIGHT_ONE
            &&& 0 <= f.h1 <= HEIGHT_ONE
            &&& 0 <= f.h2 <= HEIGHT_ONE
            &&& 0 <= f.h3 <= HEIGHT_ONE
        })
}

/// A blend of unit-scale heights stays on the unit scale when the post
/// hook is the identity.
pub proof fn lemma_blend_range<C: CalcRoughness, P: ChangeCalcedH>(
    cf: C,
    pf: P,
    rough: u16,
    rand16: u16,
    x: u32,
    y: u32,
    h0: int,
    h1: int,
    h2: int,
    h3: int,
)
    requires
        post_identity(pf),
        0 <= h0 <= HEIGHT_ONE,
        0 <= h1 <= HEIGHT_ONE,
        0 <= h2 <= HEIGHT_ONE,
        0 <= h3 <= HEIGHT_ONE,
    ensures
        0 <= blend_with(cf, pf, rough, rand16, x, y, h0, h1, h2, h3) <= HEIGHT_ONE,
{
    crate::height::lemma_avg4_range(h0, h1, h2, h3, HEIGHT_ONE as int);
    let r = cf.spec_roughness(x, y, rough);
    let avg = avg4_spec(h0, h1, h2, h3);
    crate::height::lemma_mix_range(r as int, rand16 as int, avg);
}

/// The resolver keeps every height on the unit scale when the post hook
/// is the identity: the range property of the diamond-square blend.
pub proof fn lemma_run_range<R: GenRand, C: CalcRoughness, P: ChangeCalcedH>(
    p: ResolveParams<R, C, P>,
    st: ResolveState,
    fuel: nat,
    ex: int,
)
    requires
        state_inv(p.size, st),
        range_inv(st),
        post_identity(p.pf),
        forall|k: int|
            0 <= k < st.frames.len() && (#[trigger] st.frames[k]).force ==> st.frames[k].y * p.size
                + st.frames[k].x == ex,
    ensures
        range_inv(run_resolver(p, st, fuel)),
    decreases fuel,
{
    broadcast use vstd::arithmetic::div_mod::lemma_mod_division_less_than_divisor;

    if fuel == 0 || st.frames.len() == 0 {
    } else {
        let f = st.frames.last();
        let d = dep_coord_spec(f.x, f.y, f.step, f.idx, f.diamond, p.size);
        lemma_cell_index(d.0, d.1, p.size);
        let st2 = resolve_step(p, st);
        match cell(st.grid, p.size, d.0, d.1) {
            Some(v) => {
                let f2 = fill_slot(f, v as int);
                if f.idx == 3 {
                    lemma_blend_range(
                        p.cf,
                        p.pf,
                        p.rough,
                        wyrand_u16_spec(p.rf.spec_rand(f.x as u32, f.y as u32, p.seed)),
                        f.x as u32,
                        f.y as u32,
                        f2.h0,
                        f2.h1,
                        f2.h2,
                        f2.h3,
                    );
                    lemma_cell_index(f.x, f.y, p.size);
                } else {
                    assert(st2.frames[st.frames.len() - 1] == f2);
                }
            },
            None => {
            },
        }
        lemma_step_preserves(p, st, ex);
        lemma_run_range(p, st2, (fuel - 1) as nat, ex);
    }
}

} // verus!
