//! The heightfield itself: sparse storage on a toroidal grid, the lazy
//! dependency resolver behind `gen` and `regen`, and the eager
//! initialisation strategies.

use vstd::prelude::*;
use vstd::pervasive::VecAdditionalExecFns;
use vstd::string::StringSliceAdditionalSpecFns;

use crate::coords;
use crate::coords::wrap_spec;
use crate::height::HEIGHT_LIMIT;
use crate::height::HEIGHT_ONE;
use crate::height::avg4;
use crate::height::mix;
use crate::hooks::CalcRoughness;
use crate::hooks::ChangeCalcedH;
use crate::hooks::DefaultCalcRoughness;
use crate::hooks::DefaultChangeCalcedH;
use crate::hooks::DefaultGenRand;
use crate::hooks::GenRand;
use crate::model::FrameSpec;
use crate::model::ResolveParams;
use crate::model::ResolveState;
use crate::model::blend_spec;
use crate::model::blend_with;
use crate::model::cell;
use crate::model::corners_set;
use crate::model::fill_slot;
use crate::model::fuel_for;
use crate::model::gen_spec;
use crate::model::grid_extends;
use crate::model::init_frame;
use crate::model::is_corner;
use crate::model::lemma_cell_index;
use crate::model::lemma_run_compose;
use crate::model::lemma_run_preserves;
use crate::model::regen_spec;
use crate::model::resolve_step;
use crate::model::run_resolver;
use crate::model::state_inv;
use crate::noise::clock_u64;
use crate::noise::std_rand_u16;
use crate::noise::wyrand_u16_spec;

verus! {

broadcast use vstd::arithmetic::div_mod::lemma_mod_division_less_than_divisor;

/// The abstract value of a map: its grid, its parameters and its hooks.
pub struct MapView<R, C, P> {
    pub grid: Seq<Option<i64>>,
    pub size: int,
    pub roughness: u16,
    pub seed: u64,
    pub use_clock: bool,
    pub rf: R,
    pub cf: C,
    pub pf: P,
}

/// A lazily generated diamond-square heightfield on a toroidal grid.
pub struct HeightMap<R: GenRand, C: CalcRoughness, P: ChangeCalcedH> {
    map: Vec<Option<i64>>,
    size: u32,
    roughness: u16,
    seed: u64,
    use_clock_seed: bool,
    gen_rand_fn: R,
    calc_roughness_fn: C,
    change_calced_h_fn: P,
}

impl<R: GenRand, C: CalcRoughness, P: ChangeCalcedH> View for HeightMap<R, C, P> {
    type V = MapView<R, C, P>;

    closed spec fn view(&self) -> MapView<R, C, P> {
        MapView {
            grid: self.map@,
            size: self.size as int,
            roughness: self.roughness,
            seed: self.seed,
            use_clock: self.use_clock_seed,
            rf: self.gen_rand_fn,
            cf: self.calc_roughness_fn,
            pf: self.change_calced_h_fn,
        }
    }
}

/// The resolver parameters a map view supplies.
pub open spec fn view_params<R: GenRand, C: CalcRoughness, P: ChangeCalcedH>(
    v: MapView<R, C, P>,
) -> ResolveParams<R, C, P> {
    ResolveParams { rf: v.rf, cf: v.cf, pf: v.pf, seed: v.seed, rough: v.roughness, size: v.size }
}

/// A valid side length: a power of two plus one, within the global
/// bounds.
pub open spec fn valid_size(s: int) -> bool {
    exists|k: nat| 3 <= k <= 29 && s == vstd::arithmetic::power2::pow2(k) + 1
}

/// The numeric bounds a valid side length satisfies.
pub proof fn lemma_valid_size_bounds(s: int)
    requires
        valid_size(s),
    ensures
        9 <= s <= 536_870_913,
{
    let k = choose|k: nat| 3 <= k <= 29 && s == vstd::arithmetic::power2::pow2(k) + 1;
    vstd::arithmetic::power2::lemma2_to64();
    if k > 3 {
        vstd::arithmetic::power2::lemma_pow2_strictly_increases(3, k);
    }
    if k < 29 {
        vstd::arithmetic::power2::lemma_pow2_strictly_increases(k, 29);
    }
}

/// Well-formedness of a map: a valid side length, a full grid of that
/// length that fits the address space, and bounded stored heights.
pub open spec fn map_wf<R: GenRand, C: CalcRoughness, P: ChangeCalcedH>(
    v: MapView<R, C, P>,
) -> bool {
    &&& valid_size(v.size)
    &&& v.grid.len() == v.size * v.size
    &&& v.size * v.size <= usize::MAX as int
    &&& (forall|i: int|
        0 <= i < v.grid.len() && #[trigger] v.grid[i] is Some ==> -HEIGHT_LIMIT <= v.grid[i]->0
            <= HEIGHT_LIMIT)
}

/// Two map views that differ at most in their grids.
pub open spec fn same_config<R: GenRand, C: CalcRoughness, P: ChangeCalcedH>(
    v1: MapView<R, C, P>,
    v2: MapView<R, C, P>,
) -> bool {
    &&& v2.size == v1.size
    &&& v2.roughness == v1.roughness
    &&& v2.seed == v1.seed
    &&& v2.use_clock == v1.use_clock
    &&& v2.rf == v1.rf
    &&& v2.cf == v1.cf
    &&& v2.pf == v1.pf
}

/// The nearest valid side length at or above level `k`; ties between two
/// valid values round toward the larger one.
pub open spec fn snap_rec(req: int, k: nat) -> int
    decreases 29 - k,
{
    if k >= 29 {
        vstd::arithmetic::power2::pow2(29) + 1int
    } else if req < 3 * vstd::arithmetic::power2::pow2((k - 1) as nat) + 1 {
        vstd::arithmetic::power2::pow2(k) + 1int
    } else {
        snap_rec(req, k + 1)
    }
}

/// The side length a request is snapped to: the nearest power of two
/// plus one (ties round up), hard-clamped to `[MIN_SIZE, MAX_SIZE]`.
pub open spec fn snap_size_spec(req: int) -> int {
    if req <= 9 {
        9
    } else {
        snap_rec(req, 3)
    }
}

/// Snaps a requested side length to the nearest valid one.
pub fn snap_size(req: i32) -> (s: u32)
    ensures
        s as int == snap_size_spec(req as int),
        valid_size(s as int),
{
    proof {
        vstd::arithmetic::power2::lemma2_to64();
    }
    if req <= 9 {
        assert(valid_size(9)) by {
            assert(9int == vstd::arithmetic::power2::pow2(3) + 1);
        };
        return 9;
    }
    let mut k: u32 = 3;
    let mut p: u32 = 8;
    while k < 29
        invariant
            3 <= k <= 29,
            p as nat == vstd::arithmetic::power2::pow2(k as nat),
            req > 9,
            snap_size_spec(req as int) == snap_rec(req as int, k as nat),
        decreases 29 - k,
    {
        proof {
            vstd::arithmetic::power2::lemma2_to64();
            vstd::arithmetic::power2::lemma_pow2_unfold(k as nat);
            if k > 3 {
                vstd::arithmetic::power2::lemma_pow2_strictly_increases(3, k as nat);
            }
            vstd::arithmetic::power2::lemma_pow2_strictly_increases(k as nat, 29);
        }
        let mid = p + p / 2 + 1;
        if req < mid as i32 {
            assert(valid_size((p + 1) as int));
            return p + 1;
        }
        p = 2 * p;
        k = k + 1;
    }
    proof {
        vstd::arithmetic::power2::lemma2_to64();
        assert(valid_size((p + 1) as int));
    }
    p + 1
}

impl<R: GenRand, C: CalcRoughness, P: ChangeCalcedH> HeightMap<R, C, P> {
    /// The side length of the map.
    pub fn size(&self) -> (s: i32)
        requires
            map_wf(self@),
        ensures
            s as int == self@.size,
    {
        proof {
            lemma_valid_size_bounds(self@.size);
        }
        self.size as i32
    }

    /// The largest coordinate before wrapping sets in: `size() - 1`.
    pub fn max_coord(&self) -> (m: i32)
        requires
            map_wf(self@),
        ensures
            m as int == self@.size - 1,
    {
        proof {
            lemma_valid_size_bounds(self@.size);
        }
        self.size as i32 - 1
    }

    /// The stored roughness, on the `[0, HEIGHT_ONE]` scale.
    pub fn roughness(&self) -> (r: u16)
        ensures
            r == self@.roughness,
    {
        self.roughness
    }

    /// The seed every deterministic draw derives from.
    pub fn seed(&self) -> (s: u64)
        ensures
            s == self@.seed,
    {
        self.seed
    }

    /// Whether heights are jittered from the system clock instead of the
    /// seed.
    pub fn use_clock_seed(&self) -> (b: bool)
        ensures
            b == self@.use_clock,
    {
        self.use_clock_seed
    }

    /// Reads the cell at wrapped coordinates.
    fn get_cell(&self, x: u32, y: u32) -> (r: Option<i64>)
        requires
            map_wf(self@),
            x < self@.size,
            y < self@.size,
        ensures
            r == cell(self@.grid, self@.size, x as int, y as int),
    {
        proof {
            lemma_cell_index(x as int, y as int, self@.size);
        }
        let idx = (y as usize) * (self.size as usize) + (x as usize);
        self.map[idx]
    }

    /// Writes the cell at wrapped coordinates.
    fn set_cell(&mut self, x: u32, y: u32, v: Option<i64>)
        requires
            map_wf(old(self)@),
            x < old(self)@.size,
            y < old(self)@.size,
            v is Some ==> -HEIGHT_LIMIT <= v->0 <= HEIGHT_LIMIT,
        ensures
            map_wf(final(self)@),
            same_config(old(self)@, final(self)@),
            final(self)@.grid == old(self)@.grid.update(
                y as int * old(self)@.size + x as int,
                v,
            ),
    {
        proof {
            lemma_cell_index(x as int, y as int, self@.size);
        }
        let idx = (y as usize) * (self.size as usize) + (x as usize);
        self.map.set(idx, v);
    }

    /// Whether all four corners hold a value.
    fn corners_ok(&self) -> (b: bool)
        requires
            map_wf(self@),
        ensures
            b == corners_set(self@.grid, self@.size),
    {
        proof {
            lemma_valid_size_bounds(self@.size);
        }
        let m = self.size - 1;
        self.get_cell(0, 0).is_some() && self.get_cell(m, 0).is_some() && self.get_cell(
            0,
            m,
        ).is_some() && self.get_cell(m, m).is_some()
    }

    /// Blends a height for `(x, y)` from the four gathered neighbour
    /// heights: their average, mixed with a 16-bit jitter draw under the
    /// hooked roughness, rewritten by the post hook.
    fn calc_h(&self, x: u32, y: u32, h0: i64, h1: i64, h2: i64, h3: i64) -> (h: i64)
        requires
            -HEIGHT_LIMIT <= h0 <= HEIGHT_LIMIT,
            -HEIGHT_LIMIT <= h1 <= HEIGHT_LIMIT,
            -HEIGHT_LIMIT <= h2 <= HEIGHT_LIMIT,
            -HEIGHT_LIMIT <= h3 <= HEIGHT_LIMIT,
        ensures
            -HEIGHT_LIMIT <= h <= HEIGHT_LIMIT,
            !self@.use_clock ==> h == blend_spec(
                view_params(self@),
                x,
                y,
                h0 as int,
                h1 as int,
                h2 as int,
                h3 as int,
            ),
            self@.use_clock ==> exists|r16: u16|
                h == blend_with(
                    self@.cf,
                    self@.pf,
                    self@.roughness,
                    r16,
                    x,
                    y,
                    h0 as int,
                    h1 as int,
                    h2 as int,
                    h3 as int,
                ),
    {
        let rand16 = if self.use_clock_seed {
            std_rand_u16(clock_u64())
        } else {
            std_rand_u16(self.gen_rand_fn.rand(x, y, self.seed))
        };
        let r = self.calc_roughness_fn.roughness(x, y, self.roughness);
        let a = avg4(h0, h1, h2, h3);
        let m = mix(r, rand16, a);
        let out = self.change_calced_h_fn.change(x, y, m);
        proof {
            self.change_calced_h_fn.lemma_change_bounded(x, y, m);
            if self@.use_clock {
                assert(out == blend_with(
                    self@.cf,
                    self@.pf,
                    self@.roughness,
                    rand16,
                    x,
                    y,
                    h0 as int,
                    h1 as int,
                    h2 as int,
                    h3 as int,
                ));
            }
        }
        out
    }
}

/// The low 16 bits of the seed, in place: the first salt of the keyed
/// corner hash.
pub open spec fn salt_a(seed: u64) -> u64 {
    seed & 0xFFFF
}

/// Bits 16 to 31 of the seed, in place: the second salt.
pub open spec fn salt_b(seed: u64) -> u64 {
    seed & 0xFFFF_0000
}

/// Bits 32 to 47 of the seed, in place: the third salt.
pub open spec fn salt_c(seed: u64) -> u64 {
    seed & 0xFFFF_0000_0000
}

/// Bits 48 to 63 of the seed, in place: the fourth salt.
pub open spec fn salt_d(seed: u64) -> u64 {
    seed & 0xFFFF_0000_0000_0000
}

/// The initial height a hash key maps to: the keyed seahash digest,
/// truncated to 16 bits and rescaled onto `[0, HEIGHT_ONE]`.
pub open spec fn salted_height(key: Seq<u8>, seed: u64) -> int {
    crate::height::to_range_spec(
        0,
        HEIGHT_ONE as int,
        (crate::noise::seahash_seeded_of(
            key,
            salt_a(seed),
            salt_b(seed),
            salt_c(seed),
            salt_d(seed),
        ) as u16),
    )
}

/// The grid with one corner set from its hash key `"x_y"`.
pub open spec fn set_corner(grid: Seq<Option<i64>>, size: int, x: int, y: int, seed: u64) -> Seq<
    Option<i64>,
> {
    grid.update(
        y * size + x,
        Some(salted_height(crate::noise::corner_key(x as nat, y as nat), seed) as i64),
    )
}

/// The grid with all four corners set, in the fixed order.
pub open spec fn init_corners(grid: Seq<Option<i64>>, size: int, seed: u64) -> Seq<Option<i64>> {
    let m = size - 1;
    set_corner(
        set_corner(set_corner(set_corner(grid, size, 0, 0, seed), size, m, 0, seed), size, 0, m, seed),
        size,
        m,
        m,
        seed,
    )
}

/// A wrapped read that treats an unset cell as the height zero.
pub open spec fn read_or0(grid: Seq<Option<i64>>, size: int, x: int, y: int) -> int {
    match cell(grid, size, wrap_spec(x, size), wrap_spec(y, size)) {
        Some(v) => v as int,
        None => 0,
    }
}

/// A nudged wrapped read (the square step's boundary rule) that treats
/// an unset cell as the height zero.
pub open spec fn read_sq_or0(grid: Seq<Option<i64>>, size: int, x: int, y: int) -> int {
    match cell(
        grid,
        size,
        wrap_spec(coords::nudge_spec(x, size), size),
        wrap_spec(coords::nudge_spec(y, size), size),
    ) {
        Some(v) => v as int,
        None => 0,
    }
}

/// One row of the eager diamond pass: every `step`-th cell from `x` on
/// blends its four diagonal neighbours at distance `shift`.
pub open spec fn ds_diamond_row<R: GenRand, C: CalcRoughness, P: ChangeCalcedH>(
    p: ResolveParams<R, C, P>,
    grid: Seq<Option<i64>>,
    y: int,
    x: int,
    step: int,
    shift: int,
) -> Seq<Option<i64>>
    decreases (if p.size - x >= 0 { p.size - x } else { 0int }),
        when step >= 1
{
    if x >= p.size {
        grid
    } else {
        let hv = blend_spec(
            p,
            x as u32,
            y as u32,
            read_or0(grid, p.size, x + shift, y - shift),
            read_or0(grid, p.size, x + shift, y + shift),
            read_or0(grid, p.size, x - shift, y + shift),
            read_or0(grid, p.size, x - shift, y - shift),
        );
        ds_diamond_row(p, grid.update(y * p.size + x, Some(hv)), y, x + step, step, shift)
    }
}

/// The rows of the eager diamond pass, every `step`-th row from `y` on.
pub open spec fn ds_diamond_rows<R: GenRand, C: CalcRoughness, P: ChangeCalcedH>(
    p: ResolveParams<R, C, P>,
    grid: Seq<Option<i64>>,
    y: int,
    step: int,
    shift: int,
) -> Seq<Option<i64>>
    decreases (if p.size - y >= 0 { p.size - y } else { 0int }),
        when step >= 1
{
    if y >= p.size {
        grid
    } else {
        ds_diamond_rows(
            p,
            ds_diamond_row(p, grid, y, shift, step, shift),
            y + step,
            step,
            shift,
        )
    }
}

/// One row of the eager square pass: every `step`-th cell still unset
/// blends its four orthogonal neighbours at distance `shift`, looked up
/// through the boundary nudge.
pub open spec fn ds_square_row<R: GenRand, C: CalcRoughness, P: ChangeCalcedH>(
    p: ResolveParams<R, C, P>,
    grid: Seq<Option<i64>>,
    y: int,
    x: int,
    step: int,
    shift: int,
) -> Seq<Option<i64>>
    decreases (if p.size - x >= 0 { p.size - x } else { 0int }),
        when step >= 1
{
    if x >= p.size {
        grid
    } else {
        let g2 = if cell(grid, p.size, x, y) is None {
            let hv = blend_spec(
                p,
                x as u32,
                y as u32,
                read_sq_or0(grid, p.size, x, y - shift),
                read_sq_or0(grid, p.size, x + shift, y),
                read_sq_or0(grid, p.size, x, y + shift),
                read_sq_or0(grid, p.size, x - shift, y),
            );
            grid.update(y * p.size + x, Some(hv))
        } else {
            grid
        };
        ds_square_row(p, g2, y, x + step, step, shift)
    }
}

/// The rows of the eager square pass.
pub open spec fn ds_square_rows<R: GenRand, C: CalcRoughness, P: ChangeCalcedH>(
    p: ResolveParams<R, C, P>,
    grid: Seq<Option<i64>>,
    y: int,
    step: int,
    shift: int,
) -> Seq<Option<i64>>
    decreases (if p.size - y >= 0 { p.size - y } else { 0int }),
        when step >= 1
{
    if y >= p.size {
        grid
    } else {
        ds_square_rows(p, ds_square_row(p, grid, y, 0, step, shift), y + step, step, shift)
    }
}

/// The eager diamond-square pre-fill from the coarsest level down:
/// each level runs a diamond pass at spacing `step`, then a square pass
/// at the halved spacing, then halves both for the next level.
pub open spec fn ds_levels<R: GenRand, C: CalcRoughness, P: ChangeCalcedH>(
    p: ResolveParams<R, C, P>,
    grid: Seq<Option<i64>>,
    lvl: nat,
    step: int,
    shift: int,
) -> Seq<Option<i64>>
    decreases lvl,
{
    if lvl == 0 {
        grid
    } else {
        let g1 = ds_diamond_rows(p, grid, shift, step, shift);
        let g2 = ds_square_rows(p, g1, 0, shift, shift);
        ds_levels(p, g2, (lvl - 1) as nat, shift, shift / 2)
    }
}

/// One row of the `Seed` strategy: every `step`-th cell is set from the
/// hash of its sequential visitation index; returns the grid and the
/// counter after the row.
pub open spec fn seed_row(
    grid: Seq<Option<i64>>,
    size: int,
    seed: u64,
    y: int,
    x: int,
    step: int,
    num: nat,
) -> (Seq<Option<i64>>, nat)
    decreases (if size - x >= 0 { size - x } else { 0int }),
        when step >= 1
{
    if x >= size {
        (grid, num)
    } else {
        seed_row(
            grid.update(
                y * size + x,
                Some(salted_height(crate::noise::dec_bytes(num), seed) as i64),
            ),
            size,
            seed,
            y,
            x + step,
            step,
            num + 1,
        )
    }
}

/// The rows of the `Seed` strategy, in row-major order.
pub open spec fn seed_rows(
    grid: Seq<Option<i64>>,
    size: int,
    seed: u64,
    y: int,
    step: int,
    num: nat,
) -> Seq<Option<i64>>
    decreases (if size - y >= 0 { size - y } else { 0int }),
        when step >= 1
{
    if y >= size {
        grid
    } else {
        let r = seed_row(grid, size, seed, y, 0, step, num);
        seed_rows(r.0, size, seed, y + step, step, r.1)
    }
}

/// What eager initialisation does to the grid, for a clamped level and
/// the strategy's sub-lattice spacing already computed.
pub open spec fn init_spec<R: GenRand, C: CalcRoughness, P: ChangeCalcedH>(
    p: ResolveParams<R, C, P>,
    grid: Seq<Option<i64>>,
    lvl: nat,
    seed_step: int,
    by: crate::InitBy,
) -> Seq<Option<i64>> {
    match by {
        crate::InitBy::DiamondSquare => ds_levels(
            p,
            init_corners(grid, p.size, p.seed),
            lvl,
            p.size - 1,
            (p.size - 1) / 2,
        ),
        crate::InitBy::Seed => seed_rows(grid, p.size, p.seed, 0, seed_step, 0),
        crate::InitBy::NoFill => grid,
    }
}

/// The deepest level the eager initialiser can fill: the exponent of the
/// maximum coordinate.
pub open spec fn size_level(size: int) -> nat {
    choose|k: nat| vstd::arithmetic::power2::pow2(k) == size - 1
}

/// The initialisation level, clamped to what the side length allows.
pub open spec fn clamp_lvl(size: int, lvl: u8) -> nat {
    if lvl as nat > size_level(size) {
        size_level(size)
    } else {
        lvl as nat
    }
}

/// The sub-lattice spacing of the `Seed` strategy.
pub open spec fn seed_step_spec(size: int, lvl: u8) -> int {
    if clamp_lvl(size, lvl) > 1 {
        (size - 1) / (vstd::arithmetic::power2::pow2((clamp_lvl(size, lvl) - 1) as nat) as int)
    } else {
        1
    }
}

/// The stored roughness of a requested one: clamp(|r|, 0, HEIGHT_ONE).
pub open spec fn clamp_rough_spec(r: int) -> u16 {
    let a = if r < 0 {
        -r
    } else {
        r
    };
    if a > 65535 {
        65535u16
    } else {
        a as u16
    }
}

/// Clamps a requested roughness onto the stored scale.
pub fn clamp_rough(r: i64) -> (out: u16)
    ensures
        out == clamp_rough_spec(r as int),
{
    if r >= 65535 {
        65535
    } else if r <= -65535 {
        65535
    } else if r < 0 {
        (-r) as u16
    } else {
        r as u16
    }
}

/// A valid side length shrunk until its cell count fits the address
/// space; on a 64-bit machine every valid side length already does.
pub open spec fn fit_size_spec(s: int) -> int
    decreases s,
        when s >= 3
{
    if s * s <= usize::MAX as int {
        s
    } else {
        fit_size_spec((s - 1) / 2 + 1)
    }
}

/// The number of cells of a grid with side length `s`.
fn cell_count(s: u32) -> (r: u64)
    requires
        s <= 536_870_913,
    ensures
        r as int == (s as int) * (s as int),
{
    proof {
        assert((s as int) * (s as int) < 0x1000_0000_0000_0000) by (nonlinear_arith)
            requires
                s <= 536_870_913,
        ;
    }
    (s as u64) * (s as u64)
}

/// Shrinks a valid side length until its cell count fits the address
/// space.
pub fn fit_size(s: u32) -> (r: u32)
    requires
        valid_size(s as int),
    ensures
        r as int == fit_size_spec(s as int),
        valid_size(r as int),
        (r as int) * (r as int) <= usize::MAX as int,
{
    let ghost s0 = s;
    let mut s = s;
    proof {
        lemma_valid_size_bounds(s as int);
    }
    while cell_count(s) > usize::MAX as u64
        invariant
            valid_size(s as int),
            9 <= s <= 536_870_913,
            fit_size_spec(s0 as int) == fit_size_spec(s as int),
        decreases s,
    {
        proof {
            let k = choose|k: nat|
                3 <= k <= 29 && s as int == vstd::arithmetic::power2::pow2(k) + 1;
            vstd::arithmetic::power2::lemma2_to64();
            vstd::arithmetic::power2::lemma_pow2_unfold(k);
            if k == 3 {
                assert((s as int) * (s as int) == 81) by (nonlinear_arith)
                    requires
                        s == 9,
                ;
                assert(false);
            }
            assert(3 <= (k - 1) as nat <= 29 && ((s - 1) / 2 + 1) as int
                == vstd::arithmetic::power2::pow2((k - 1) as nat) + 1);
        }
        s = (s - 1) / 2 + 1;
        proof {
            lemma_valid_size_bounds(s as int);
        }
    }
    s
}

/// An entirely unset grid for a side length.
pub open spec fn blank(size: int) -> Seq<Option<i64>> {
    Seq::new((size * size) as nat, |i: int| Option::None)
}

/// Allocates an entirely unset grid.
fn blank_grid(n: u32) -> (v: Vec<Option<i64>>)
    requires
        (n as int) * (n as int) <= usize::MAX as int,
        n <= 536_870_913,
    ensures
        v@ == blank(n as int),
{
    let total = (n as usize) * (n as usize);
    let mut v: Vec<Option<i64>> = Vec::new();
    let mut i: usize = 0;
    while i < total
        invariant
            total as int == (n as int) * (n as int),
            i <= total,
            v@.len() == i,
            forall|j: int| 0 <= j < i ==> v@[j] is None,
        decreases total - i,
    {
        v.push(None);
        i = i + 1;
    }
    assert(v@ =~= blank(n as int));
    v
}

impl<R: GenRand, C: CalcRoughness, P: ChangeCalcedH> HeightMap<R, C, P> {
    /// Assembles a map from already normalised parts, its grid unset.
    pub(crate) fn from_parts(size: u32, roughness: u16, seed: u64, use_clock: bool, rf: R, cf: C, pf: P) -> (m:
        HeightMap<R, C, P>)
        requires
            valid_size(size as int),
            (size as int) * (size as int) <= usize::MAX as int,
        ensures
            map_wf(m@),
            m@.size == size as int,
            m@.roughness == roughness,
            m@.seed == seed,
            m@.use_clock == use_clock,
            m@.rf == rf,
            m@.cf == cf,
            m@.pf == pf,
            m@.grid == blank(size as int),
    {
        proof {
            lemma_valid_size_bounds(size as int);
        }
        let map = blank_grid(size);
        HeightMap {
            map,
            size,
            roughness,
            seed,
            use_clock_seed: use_clock,
            gen_rand_fn: rf,
            calc_roughness_fn: cf,
            change_calced_h_fn: pf,
        }
    }
}

impl HeightMap<DefaultGenRand, DefaultCalcRoughness, DefaultChangeCalcedH> {
    /// A map with default settings: a clock-drawn seed, identity hooks,
    /// and a level-1 diamond-square pre-fill. The requested side length
    /// snaps to the nearest valid value; the requested roughness (in
    /// `HEIGHT_ONE` units) is clamped to `[0, HEIGHT_ONE]` by magnitude.
    pub fn new(size: i32, roughness: i64) -> (m: Self)
        ensures
            map_wf(m@),
            m@.size == fit_size_spec(snap_size_spec(size as int)),
            m@.roughness == clamp_rough_spec(roughness as int),
            m@.use_clock == false,
            m@.rf == DefaultGenRand,
            m@.cf == DefaultCalcRoughness,
            m@.pf == DefaultChangeCalcedH,
            m@.grid == init_spec(
                view_params(m@),
                blank(m@.size),
                clamp_lvl(m@.size, 1),
                seed_step_spec(m@.size, 1),
                crate::InitBy::DiamondSquare,
            ),
    {
        let seed = crate::noise::std_rand_u64(clock_u64());
        let s = fit_size(snap_size(size));
        let mut m = Self::from_parts(
            s,
            clamp_rough(roughness),
            seed,
            false,
            DefaultGenRand,
            DefaultCalcRoughness,
            DefaultChangeCalcedH,
        );
        m.init(1, crate::InitBy::DiamondSquare);
        m
    }

    /// As `new`, but with the seed derived from a caller string by the
    /// seahash digest, so the whole map is a function of the arguments.
    pub fn new_with_seed(size: i32, roughness: i64, seed: &str) -> (m: Self)
        ensures
            map_wf(m@),
            m@.size == fit_size_spec(snap_size_spec(size as int)),
            m@.roughness == clamp_rough_spec(roughness as int),
            m@.use_clock == false,
            m@.seed == crate::noise::seahash_of(seed.spec_bytes()),
            m@.rf == DefaultGenRand,
            m@.cf == DefaultCalcRoughness,
            m@.pf == DefaultChangeCalcedH,
            m@.grid == init_spec(
                view_params(m@),
                blank(m@.size),
                clamp_lvl(m@.size, 1),
                seed_step_spec(m@.size, 1),
                crate::InitBy::DiamondSquare,
            ),
    {
        let sd = crate::noise::hash_bytes(seed.as_bytes());
        let s = fit_size(snap_size(size));
        let mut m = Self::from_parts(
            s,
            clamp_rough(roughness),
            sd,
            false,
            DefaultGenRand,
            DefaultCalcRoughness,
            DefaultChangeCalcedH,
        );
        m.init(1, crate::InitBy::DiamondSquare);
        m
    }
}

impl Default for HeightMap<DefaultGenRand, DefaultCalcRoughness, DefaultChangeCalcedH> {
    /// The smallest map, entirely unset, roughness zero, a clock-drawn
    /// seed and identity hooks.
    fn default() -> (m: Self)
        ensures
            map_wf(m@),
            m@.size == 9,
            m@.roughness == 0,
            m@.use_clock == false,
            m@.grid == blank(9),
            m@.rf == DefaultGenRand,
            m@.cf == DefaultCalcRoughness,
            m@.pf == DefaultChangeCalcedH,
    {
        let seed = crate::noise::std_rand_u64(clock_u64());
        proof {
            vstd::arithmetic::power2::lemma2_to64();
            assert(valid_size(9)) by {
                assert(9int == vstd::arithmetic::power2::pow2(3) + 1);
            };
        }
        HeightMap::from_parts(
            9,
            0,
            seed,
            false,
            DefaultGenRand,
            DefaultCalcRoughness,
            DefaultChangeCalcedH,
        )
    }
}

/// One row of an area read: the cells of row `y` from `x` up to `x1`,
/// with their coordinates.
pub open spec fn get_area_row(grid: Seq<Option<i64>>, size: int, y: int, x: int, x1: int) -> Seq<
    (i32, i32, Option<i64>),
>
    decreases (if x1 - x >= 0 { x1 - x } else { 0int }),
{
    if x >= x1 {
        Seq::empty()
    } else {
        seq![((x as i32, y as i32, cell(grid, size, x, y)))] + get_area_row(grid, size, y, x + 1, x1)
    }
}

/// An area read: rows `y` up to `y1`, top to bottom, left to right.
pub open spec fn get_area_rows(
    grid: Seq<Option<i64>>,
    size: int,
    y: int,
    y1: int,
    x0: int,
    x1: int,
) -> Seq<(i32, i32, Option<i64>)>
    decreases (if y1 - y >= 0 { y1 - y } else { 0int }),
{
    if y >= y1 {
        Seq::empty()
    } else {
        get_area_row(grid, size, y, x0, x1) + get_area_rows(grid, size, y + 1, y1, x0, x1)
    }
}

/// One row of an area write: stores `h` in each cell and collects the
/// previous values; returns the collected row and the written grid.
pub open spec fn set_area_row(
    grid: Seq<Option<i64>>,
    size: int,
    h: i64,
    y: int,
    x: int,
    x1: int,
) -> (Seq<(i32, i32, Option<i64>)>, Seq<Option<i64>>)
    decreases (if x1 - x >= 0 { x1 - x } else { 0int }),
{
    if x >= x1 {
        (Seq::empty(), grid)
    } else {
        let prev = cell(grid, size, x, y);
        let r = set_area_row(grid.update(y * size + x, Some(h)), size, h, y, x + 1, x1);
        (seq![((x as i32, y as i32, prev))] + r.0, r.1)
    }
}

/// An area write, row-major.
pub open spec fn set_area_rows(
    grid: Seq<Option<i64>>,
    size: int,
    h: i64,
    y: int,
    y1: int,
    x0: int,
    x1: int,
) -> (Seq<(i32, i32, Option<i64>)>, Seq<Option<i64>>)
    decreases (if y1 - y >= 0 { y1 - y } else { 0int }),
{
    if y >= y1 {
        (Seq::empty(), grid)
    } else {
        let r1 = set_area_row(grid, size, h, y, x0, x1);
        let r2 = set_area_rows(r1.1, size, h, y + 1, y1, x0, x1);
        (r1.0 + r2.0, r2.1)
    }
}

/// One row of an area generation: `gen` at each cell in turn, each call
/// seeing the grid the previous one left.
pub open spec fn gen_area_row<R: GenRand, C: CalcRoughness, P: ChangeCalcedH>(
    p: ResolveParams<R, C, P>,
    grid: Seq<Option<i64>>,
    y: int,
    x: int,
    x1: int,
) -> (Seq<(i32, i32, Option<i64>)>, Seq<Option<i64>>)
    decreases (if x1 - x >= 0 { x1 - x } else { 0int }),
{
    if x >= x1 {
        (Seq::empty(), grid)
    } else {
        let g = gen_spec(p, grid, x, y);
        let r = gen_area_row(p, g.0, y, x + 1, x1);
        (seq![((x as i32, y as i32, g.1))] + r.0, r.1)
    }
}

/// An area generation, row-major.
pub open spec fn gen_area_rows<R: GenRand, C: CalcRoughness, P: ChangeCalcedH>(
    p: ResolveParams<R, C, P>,
    grid: Seq<Option<i64>>,
    y: int,
    y1: int,
    x0: int,
    x1: int,
) -> (Seq<(i32, i32, Option<i64>)>, Seq<Option<i64>>)
    decreases (if y1 - y >= 0 { y1 - y } else { 0int }),
{
    if y >= y1 {
        (Seq::empty(), grid)
    } else {
        let r1 = gen_area_row(p, grid, y, x0, x1);
        let r2 = gen_area_rows(p, r1.1, y + 1, y1, x0, x1);
        (r1.0 + r2.0, r2.1)
    }
}

/// One live frame of the iterative resolver.
#[derive(Clone, Copy)]
struct Frame {
    x: u32,
    y: u32,
    step: u32,
    diamond: bool,
    idx: u8,
    h0: i64,
    h1: i64,
    h2: i64,
    h3: i64,
    force: bool,
}

/// The abstract value of a live frame.
spec fn frame_view(f: Frame) -> FrameSpec {
    FrameSpec {
        x: f.x as int,
        y: f.y as int,
        step: f.step as int,
        diamond: f.diamond,
        idx: f.idx as int,
        h0: f.h0 as int,
        h1: f.h1 as int,
        h2: f.h2 as int,
        h3: f.h3 as int,
        force: f.force,
    }
}

/// The abstract value of the live stack.
spec fn frames_view(s: Seq<Frame>) -> Seq<FrameSpec> {
    s.map_values(|f: Frame| frame_view(f))
}

impl<R: GenRand, C: CalcRoughness, P: ChangeCalcedH> HeightMap<R, C, P> {
    /// The iterative resolver: drives the frame stack until the root's
    /// height is computed or the fuel cap ends a dependency chain that
    /// never bottoms out. Returns the resolved height and whether the
    /// resolution completed.
    fn resolve(&mut self, xw: u32, yw: u32, force: bool) -> (r: (Option<i64>, bool))
        requires
            map_wf(old(self)@),
            xw < old(self)@.size,
            yw < old(self)@.size,
            corners_set(old(self)@.grid, old(self)@.size),
            !is_corner(xw as int, yw as int, old(self)@.size),
        ensures
            map_wf(final(self)@),
            same_config(old(self)@, final(self)@),
            grid_extends(
                old(self)@.grid,
                final(self)@.grid,
                if force {
                    yw as int * old(self)@.size + xw as int
                } else {
                    -1int
                },
            ),
            corners_set(final(self)@.grid, final(self)@.size),
            !old(self)@.use_clock ==> ({
                let st = run_resolver(
                    view_params(old(self)@),
                    ResolveState {
                        grid: old(self)@.grid,
                        frames: seq![init_frame(xw as int, yw as int, force)],
                    },
                    fuel_for(old(self)@.size),
                );
                &&& final(self)@.grid == st.grid
                &&& r.1 == (st.frames.len() == 0)
                &&& r.0 == (if st.frames.len() == 0 {
                    cell(st.grid, old(self)@.size, xw as int, yw as int)
                } else {
                    Option::<i64>::None
                })
            }),
    {
        proof {
            lemma_valid_size_bounds(self@.size);
        }
        let size = self.size;
        let ghost p = view_params(self@);
        let ghost g0 = self.map@;
        let ghost st0 = ResolveState {
            grid: g0,
            frames: seq![init_frame(xw as int, yw as int, force)],
        };
        let ghost ex: int = if force {
            yw as int * p.size + xw as int
        } else {
            -1int
        };
        assert(!(xw == 0 && yw == 0));
        let (sp, dm) = coords::calc_step(xw, yw);
        let mut stack: Vec<Frame> = Vec::new();
        stack.push(
            Frame { x: xw, y: yw, step: sp, diamond: dm, idx: 0, h0: 0, h1: 0, h2: 0, h3: 0, force },
        );
        proof {
            assert(frames_view(stack@) =~= seq![init_frame(xw as int, yw as int, force)]);
            assert(16 * p.size * p.size + 256 <= u64::MAX) by (nonlinear_arith)
                requires
                    9 <= p.size <= 536_870_913,
            ;
            if force {
                lemma_cell_index(xw as int, yw as int, p.size);
            }
        }
        let fuel0: u64 = 16 * (size as u64) * (size as u64) + 256;
        let mut fuel: u64 = fuel0;
        while stack.len() > 0 && fuel > 0
            invariant
                map_wf(self@),
                same_config(old(self)@, self@),
                p == view_params(old(self)@),
                g0 == old(self)@.grid,
                st0 == (ResolveState {
                    grid: g0,
                    frames: seq![init_frame(xw as int, yw as int, force)],
                }),
                ex == if force {
                    yw as int * p.size + xw as int
                } else {
                    -1int
                },
                size == self.size,
                self@.size == p.size,
                9 <= p.size <= 536_870_913,
                fuel <= fuel0,
                fuel0 as nat == fuel_for(p.size),
                state_inv(p.size, ResolveState { grid: self@.grid, frames: frames_view(stack@) }),
                forall|i: int|
                    0 <= i < stack@.len() ==> (#[trigger] stack@[i]).step < 0x8000_0000,
                forall|k: int|
                    0 <= k < stack@.len() && (#[trigger] stack@[k]).force ==> k == 0 && stack@[k].x
                        == xw && stack@[k].y == yw && force,
                grid_extends(g0, self@.grid, ex),
                corners_set(self@.grid, p.size),
                !old(self)@.use_clock ==> (ResolveState {
                    grid: self@.grid,
                    frames: frames_view(stack@),
                }) == run_resolver(p, st0, (fuel0 - fuel) as nat),
            decreases fuel,
        {
            let ghost pre = ResolveState { grid: self@.grid, frames: frames_view(stack@) };
            let fl = stack.len();
            let fr = stack[fl - 1];
            proof {
                assert(frame_view(fr) == frames_view(stack@)[fl - 1]);
                assert(frame_view(fr) == pre.frames.last());
            }
            let (nx, ny) = coords::dep_coord(fr.x, fr.y, fr.step, fr.idx, fr.diamond, size);
            let c = self.get_cell(nx, ny);
            proof {
                lemma_cell_index(nx as int, ny as int, p.size);
            }
            if let Some(v) = c {
                if fr.idx == 3 {
                    let hv = self.calc_h(fr.x, fr.y, fr.h0, fr.h1, fr.h2, v);
                    proof {
                        assert(view_params(self@) == p);
                        lemma_cell_index(fr.x as int, fr.y as int, p.size);
                    }
                    let cur = self.get_cell(fr.x, fr.y);
                    if fr.force || cur.is_none() {
                        self.set_cell(fr.x, fr.y, Some(hv));
                    }
                    let _popped = stack.pop();
                    proof {
                        assert(frames_view(stack@) =~= pre.frames.drop_last());
                        if !old(self)@.use_clock {
                            assert(hv == blend_spec(
                                p,
                                fr.x,
                                fr.y,
                                fill_slot(pre.frames.last(), v as int).h0,
                                fill_slot(pre.frames.last(), v as int).h1,
                                fill_slot(pre.frames.last(), v as int).h2,
                                fill_slot(pre.frames.last(), v as int).h3,
                            ));
                            assert(ResolveState {
                                grid: self@.grid,
                                frames: frames_view(stack@),
                            } == resolve_step(p, pre));
                        }
                    }
                } else {
                    let nf = Frame {
                        idx: fr.idx + 1,
                        h0: if fr.idx == 0 {
                            v
                        } else {
                            fr.h0
                        },
                        h1: if fr.idx == 1 {
                            v
                        } else {
                            fr.h1
                        },
                        h2: if fr.idx == 2 {
                            v
                        } else {
                            fr.h2
                        },
                        ..fr
                    };
                    stack.set(fl - 1, nf);
                    proof {
                        assert(frame_view(nf) == fill_slot(pre.frames.last(), v as int));
                        assert(frames_view(stack@) =~= pre.frames.update(
                            pre.frames.len() - 1,
                            fill_slot(pre.frames.last(), v as int),
                        ));
                        if !old(self)@.use_clock {
                            assert(ResolveState {
                                grid: self@.grid,
                                frames: frames_view(stack@),
                            } == resolve_step(p, pre));
                        }
                    }
                }
            } else {
                assert(!(nx == 0 && ny == 0));
                let (s2, d2) = coords::calc_step(nx, ny);
                stack.push(
                    Frame {
                        x: nx,
                        y: ny,
                        step: s2,
                        diamond: d2,
                        idx: 0,
                        h0: 0,
                        h1: 0,
                        h2: 0,
                        h3: 0,
                        force: false,
                    },
                );
                proof {
                    assert(frames_view(stack@) =~= pre.frames.push(
                        init_frame(nx as int, ny as int, false),
                    ));
                    if !old(self)@.use_clock {
                        assert(ResolveState {
                            grid: self@.grid,
                            frames: frames_view(stack@),
                        } == resolve_step(p, pre));
                    }
                }
            }
            fuel = fuel - 1;
            proof {
                lemma_cell_index(0, 0, p.size);
                lemma_cell_index(p.size - 1, 0, p.size);
                lemma_cell_index(0, p.size - 1, p.size);
                lemma_cell_index(p.size - 1, p.size - 1, p.size);
                if !old(self)@.use_clock {
                    let it0 = (fuel0 - fuel - 1) as nat;
                    lemma_run_compose(p, st0, it0, 1);
                    assert(pre.frames.len() > 0);
                    assert(run_resolver(p, resolve_step(p, pre), 0) == resolve_step(p, pre));
                    assert(run_resolver(p, pre, 1) == resolve_step(p, pre));
                    assert((fuel0 - fuel) as nat == it0 + 1);
                }
            }
        }
        let ghost itf = (fuel0 - fuel) as nat;
        if stack.len() == 0 {
            let out = self.get_cell(xw, yw);
            proof {
                if !old(self)@.use_clock {
                    lemma_run_compose(p, st0, itf, (fuel_for(p.size) - itf) as nat);
                }
            }
            (out, true)
        } else {
            proof {
                if !old(self)@.use_clock {
                    assert(itf == fuel_for(p.size));
                }
            }
            (None, false)
        }
    }

    /// Returns the height at `(x, y)`, wrapping the coordinates onto the
    /// torus first. An unset cell reads as `None`.
    pub fn get(&self, x: i32, y: i32) -> (r: Option<i64>)
        requires
            map_wf(self@),
        ensures
            r == cell(
                self@.grid,
                self@.size,
                wrap_spec(x as int, self@.size),
                wrap_spec(y as int, self@.size),
            ),
    {
        proof {
            lemma_valid_size_bounds(self@.size);
        }
        let xw = coords::wrap(x as i64, self.size);
        let yw = coords::wrap(y as i64, self.size);
        self.get_cell(xw, yw)
    }

    /// Stores `h` at `(x, y)` (wrapped) and returns the previous value.
    pub fn set(&mut self, x: i32, y: i32, h: Option<i64>) -> (prev: Option<i64>)
        requires
            map_wf(old(self)@),
            h is Some ==> -HEIGHT_LIMIT <= h->0 <= HEIGHT_LIMIT,
        ensures
            map_wf(final(self)@),
            same_config(old(self)@, final(self)@),
            final(self)@.grid == old(self)@.grid.update(
                wrap_spec(y as int, old(self)@.size) * old(self)@.size + wrap_spec(
                    x as int,
                    old(self)@.size,
                ),
                h,
            ),
            prev == cell(
                old(self)@.grid,
                old(self)@.size,
                wrap_spec(x as int, old(self)@.size),
                wrap_spec(y as int, old(self)@.size),
            ),
    {
        proof {
            lemma_valid_size_bounds(self@.size);
        }
        let xw = coords::wrap(x as i64, self.size);
        let yw = coords::wrap(y as i64, self.size);
        let prev = self.get_cell(xw, yw);
        self.set_cell(xw, yw, h);
        prev
    }

    /// Reads a cell through the plain wrap, an unset one as height zero.
    fn read0(&self, x: i64, y: i64) -> (h: i64)
        requires
            map_wf(self@),
            -0x1_0000_0000 < x < 0x1_0000_0000,
            -0x1_0000_0000 < y < 0x1_0000_0000,
        ensures
            h as int == read_or0(self@.grid, self@.size, x as int, y as int),
            -HEIGHT_LIMIT <= h <= HEIGHT_LIMIT,
    {
        proof {
            lemma_valid_size_bounds(self@.size);
        }
        let xw = coords::wrap(x, self.size);
        let yw = coords::wrap(y, self.size);
        proof {
            lemma_cell_index(xw as int, yw as int, self@.size);
        }
        match self.get_cell(xw, yw) {
            Some(v) => v,
            None => 0,
        }
    }

    /// Reads a cell through the square step's boundary nudge and the
    /// wrap.
    fn get_for_square(&self, x: i64, y: i64) -> (r: Option<i64>)
        requires
            map_wf(self@),
            -0x1_0000_0000 < x < 0x1_0000_0000,
            -0x1_0000_0000 < y < 0x1_0000_0000,
        ensures
            r == cell(
                self@.grid,
                self@.size,
                wrap_spec(coords::nudge_spec(x as int, self@.size), self@.size),
                wrap_spec(coords::nudge_spec(y as int, self@.size), self@.size),
            ),
    {
        proof {
            lemma_valid_size_bounds(self@.size);
        }
        let xn = coords::nudge(x, self.size);
        let yn = coords::nudge(y, self.size);
        let xw = coords::wrap(xn, self.size);
        let yw = coords::wrap(yn, self.size);
        self.get_cell(xw, yw)
    }

    /// Reads a cell as `get_for_square` does, an unset one as height
    /// zero.
    fn read_sq0(&self, x: i64, y: i64) -> (h: i64)
        requires
            map_wf(self@),
            -0x1_0000_0000 < x < 0x1_0000_0000,
            -0x1_0000_0000 < y < 0x1_0000_0000,
        ensures
            h as int == read_sq_or0(self@.grid, self@.size, x as int, y as int),
            -HEIGHT_LIMIT <= h <= HEIGHT_LIMIT,
    {
        proof {
            lemma_valid_size_bounds(self@.size);
            lemma_cell_index(
                wrap_spec(coords::nudge_spec(x as int, self@.size), self@.size),
                wrap_spec(coords::nudge_spec(y as int, self@.size), self@.size),
                self@.size,
            );
        }
        match self.get_for_square(x, y) {
            Some(v) => v,
            None => 0,
        }
    }

    /// Sets one corner from its salted hash key.
    fn set_corner_cell(&mut self, x: u32, y: u32)
        requires
            map_wf(old(self)@),
            x < old(self)@.size,
            y < old(self)@.size,
        ensures
            map_wf(final(self)@),
            same_config(old(self)@, final(self)@),
            final(self)@.grid == set_corner(
                old(self)@.grid,
                old(self)@.size,
                x as int,
                y as int,
                old(self)@.seed,
            ),
    {
        let a = self.seed & 0xFFFF;
        let b = self.seed & 0xFFFF_0000;
        let c = self.seed & 0xFFFF_0000_0000;
        let d = self.seed & 0xFFFF_0000_0000_0000;
        let key = crate::noise::corner_key_bytes(x, y);
        let hv = crate::noise::hash_seeded_bytes(key.as_slice(), a, b, c, d);
        let h = crate::height::to_range(0, HEIGHT_ONE, #[verifier::truncate] (hv as u16));
        self.set_cell(x, y, Some(h));
    }

    /// Eagerly pre-fills the grid: hash the corners and run the chosen
    /// number of diamond-square levels, fill a hashed sub-lattice, or do
    /// nothing, per the strategy.
    pub(crate) fn init(&mut self, lvl: u8, init_by: crate::InitBy)
        requires
            map_wf(old(self)@),
        ensures
            map_wf(final(self)@),
            same_config(old(self)@, final(self)@),
            !old(self)@.use_clock ==> final(self)@.grid == init_spec(
                view_params(old(self)@),
                old(self)@.grid,
                clamp_lvl(old(self)@.size, lvl),
                seed_step_spec(old(self)@.size, lvl),
                init_by,
            ),
    {
        proof {
            lemma_valid_size_bounds(self@.size);
        }
        let ghost p = view_params(self@);
        let size = self.size;
        let maxc = size - 1;
        // The deepest level: the exponent of the maximum coordinate.
        let ghost kk = choose|k: nat|
            3 <= k <= 29 && self@.size == vstd::arithmetic::power2::pow2(k) + 1;
        let mut max_lvl: u8 = 0;
        let mut pw: u32 = 1;
        proof {
            vstd::arithmetic::power2::lemma2_to64();
        }
        while pw < maxc
            invariant
                pw as nat == vstd::arithmetic::power2::pow2(max_lvl as nat),
                max_lvl <= kk,
                maxc as nat == vstd::arithmetic::power2::pow2(kk),
                3 <= kk <= 29,
            decreases maxc - pw,
        {
            proof {
                vstd::arithmetic::power2::lemma_pow2_pos(max_lvl as nat);
                if max_lvl as nat == kk {
                    assert(false);
                }
                vstd::arithmetic::power2::lemma_pow2_unfold((max_lvl + 1) as nat);
                if ((max_lvl + 1) as nat) < kk {
                    vstd::arithmetic::power2::lemma_pow2_strictly_increases(
                        (max_lvl + 1) as nat,
                        kk,
                    );
                }
                assert(2 * pw <= maxc);
            }
            pw = 2 * pw;
            max_lvl = max_lvl + 1;
        }
        proof {
            if (max_lvl as nat) < kk {
                vstd::arithmetic::power2::lemma_pow2_strictly_increases(max_lvl as nat, kk);
            }
            assert(max_lvl as nat == kk);
            assert(size_level(p.size) == kk) by {
                let k2 = size_level(p.size);
                assert(vstd::arithmetic::power2::pow2(k2) == p.size - 1);
                if k2 < kk {
                    vstd::arithmetic::power2::lemma_pow2_strictly_increases(k2, kk);
                }
                if kk < k2 {
                    vstd::arithmetic::power2::lemma_pow2_strictly_increases(kk, k2);
                }
            };
        }
        let lvl_c: u8 = if lvl > max_lvl {
            max_lvl
        } else {
            lvl
        };
        match init_by {
            crate::InitBy::DiamondSquare => {
                self.set_corner_cell(0, 0);
                self.set_corner_cell(maxc, 0);
                self.set_corner_cell(0, maxc);
                self.set_corner_cell(maxc, maxc);
                proof {
                    assert(self@.grid == init_corners(old(self)@.grid, p.size, p.seed));
                }
                let ghost g_corners = self@.grid;
                let ghost tgt = ds_levels(
                    p,
                    g_corners,
                    lvl_c as nat,
                    maxc as int,
                    (maxc as int) / 2,
                );
                let mut step: u32 = maxc;
                let mut shift: u32 = step / 2;
                let mut l: u8 = 0;
                while l < lvl_c
                    invariant
                        map_wf(self@),
                        same_config(old(self)@, self@),
                        p == view_params(old(self)@),
                        self@.size == p.size,
                        9 <= p.size <= 536_870_913,
                        size == self.size,
                        maxc == size - 1,
                        l <= lvl_c,
                        lvl_c as nat <= kk <= 29,
                        maxc as nat == vstd::arithmetic::power2::pow2(kk),
                        step as nat == vstd::arithmetic::power2::pow2((kk - l) as nat),
                        shift == step / 2,
                        !old(self)@.use_clock ==> tgt == ds_levels(
                            p,
                            self@.grid,
                            (lvl_c - l) as nat,
                            step as int,
                            shift as int,
                        ),
                    decreases lvl_c - l,
                {
                    proof {
                        vstd::arithmetic::power2::lemma2_to64();
                        vstd::arithmetic::power2::lemma_pow2_unfold((kk - l) as nat);
                        if ((kk - l) as nat) < 1 {
                            assert(false);
                        }
                        vstd::arithmetic::power2::lemma_pow2_pos(((kk - l) - 1) as nat);
                        if ((kk - l) as nat) < 29 {
                            vstd::arithmetic::power2::lemma_pow2_strictly_increases(
                                (kk - l) as nat,
                                29,
                            );
                        }
                        assert(2 <= step <= 0x2000_0000);
                        assert(step % 2 == 0);
                    }
                    let stp_l: u32 = step;
                    let shf: u32 = shift;
                    let ghost l0 = l;
                    // Diamond pass: rows offset by `shf`, stride `stp_l`.
                    let ghost d_tgt = ds_diamond_rows(
                        p,
                        self@.grid,
                        shf as int,
                        stp_l as int,
                        shf as int,
                    );
                    let mut y: u32 = shf;
                    while y < size
                        invariant
                            map_wf(self@),
                            same_config(old(self)@, self@),
                            p == view_params(old(self)@),
                            self@.size == p.size,
                            size == self.size,
                            9 <= p.size <= 536_870_913,
                            1 <= shf < 0x4000_0000,
                            1 <= stp_l < 0x8000_0000,
                            !old(self)@.use_clock ==> d_tgt == ds_diamond_rows(
                                p,
                                self@.grid,
                                y as int,
                                stp_l as int,
                                shf as int,
                            ),
                        decreases size + stp_l - y,
                    {
                        let ghost r_tgt = ds_diamond_row(
                            p,
                            self@.grid,
                            y as int,
                            shf as int,
                            stp_l as int,
                            shf as int,
                        );
                        let mut x: u32 = shf;
                        while x < size
                            invariant
                                map_wf(self@),
                                same_config(old(self)@, self@),
                                p == view_params(old(self)@),
                                self@.size == p.size,
                                size == self.size,
                                9 <= p.size <= 536_870_913,
                                1 <= shf < 0x4000_0000,
                                1 <= stp_l < 0x8000_0000,
                                y < size,
                                !old(self)@.use_clock ==> r_tgt == ds_diamond_row(
                                    p,
                                    self@.grid,
                                    y as int,
                                    x as int,
                                    stp_l as int,
                                    shf as int,
                                ),
                            decreases size + stp_l - x,
                        {
                            let h0 = self.read0(x as i64 + shf as i64, y as i64 - shf as i64);
                            let h1 = self.read0(x as i64 + shf as i64, y as i64 + shf as i64);
                            let h2 = self.read0(x as i64 - shf as i64, y as i64 + shf as i64);
                            let h3 = self.read0(x as i64 - shf as i64, y as i64 - shf as i64);
                            let hv = self.calc_h(x, y, h0, h1, h2, h3);
                            proof {
                                assert(view_params(self@) == p);
                            }
                            self.set_cell(x, y, Some(hv));
                            x = x + stp_l;
                        }
                        y = y + stp_l;
                    }
                    // Square pass: stride `shf`, neighbours at `shf`.
                    let ghost s_tgt = ds_square_rows(
                        p,
                        self@.grid,
                        0,
                        shf as int,
                        shf as int,
                    );
                    let mut y2: u32 = 0;
                    while y2 < size
                        invariant
                            map_wf(self@),
                            same_config(old(self)@, self@),
                            p == view_params(old(self)@),
                            self@.size == p.size,
                            size == self.size,
                            9 <= p.size <= 536_870_913,
                            1 <= shf < 0x4000_0000,
                            !old(self)@.use_clock ==> s_tgt == ds_square_rows(
                                p,
                                self@.grid,
                                y2 as int,
                                shf as int,
                                shf as int,
                            ),
                        decreases size + shf - y2,
                    {
                        let ghost sr_tgt = ds_square_row(
                            p,
                            self@.grid,
                            y2 as int,
                            0,
                            shf as int,
                            shf as int,
                        );
                        let mut x2: u32 = 0;
                        while x2 < size
                            invariant
                                map_wf(self@),
                                same_config(old(self)@, self@),
                                p == view_params(old(self)@),
                                self@.size == p.size,
                                size == self.size,
                                9 <= p.size <= 536_870_913,
                                1 <= shf < 0x4000_0000,
                                y2 < size,
                                !old(self)@.use_clock ==> sr_tgt == ds_square_row(
                                    p,
                                    self@.grid,
                                    y2 as int,
                                    x2 as int,
                                    shf as int,
                                    shf as int,
                                ),
                            decreases size + shf - x2,
                        {
                            if self.get_cell(x2, y2).is_none() {
                                let h0 = self.read_sq0(x2 as i64, y2 as i64 - shf as i64);
                                let h1 = self.read_sq0(x2 as i64 + shf as i64, y2 as i64);
                                let h2 = self.read_sq0(x2 as i64, y2 as i64 + shf as i64);
                                let h3 = self.read_sq0(x2 as i64 - shf as i64, y2 as i64);
                                let hv = self.calc_h(x2, y2, h0, h1, h2, h3);
                                proof {
                                    assert(view_params(self@) == p);
                                }
                                self.set_cell(x2, y2, Some(hv));
                            }
                            x2 = x2 + shf;
                        }
                        y2 = y2 + shf;
                    }
                    proof {
                        vstd::arithmetic::power2::lemma_pow2_unfold((kk - l) as nat);
                    }
                    step = shf;
                    shift = shf / 2;
                    l = l + 1;
                }
            },
            crate::InitBy::Seed => {
                let a = self.seed & 0xFFFF;
                let b = self.seed & 0xFFFF_0000;
                let c = self.seed & 0xFFFF_0000_0000;
                let d = self.seed & 0xFFFF_0000_0000_0000;
                let mut stp: u32 = maxc;
                let mut i: u8 = 1;
                if lvl_c <= 1 {
                    stp = 1;
                } else {
                    while i < lvl_c
                        invariant
                            1 <= i <= lvl_c,
                            1 < lvl_c,
                            lvl_c as nat <= kk <= 29,
                            maxc as nat == vstd::arithmetic::power2::pow2(kk),
                            stp as nat == vstd::arithmetic::power2::pow2((kk - i + 1) as nat),
                        decreases lvl_c - i,
                    {
                        proof {
                            vstd::arithmetic::power2::lemma_pow2_unfold((kk - i + 1) as nat);
                        }
                        stp = stp / 2;
                        i = i + 1;
                    }
                }
                proof {
                    if lvl_c > 1 {
                        vstd::arithmetic::power2::lemma_pow2_subtracts(
                            (lvl_c - 1) as nat,
                            kk,
                        );
                        assert(stp as int == seed_step_spec(p.size, lvl));
                    } else {
                        assert(stp as int == seed_step_spec(p.size, lvl));
                    }
                    assert(1 <= stp < 0x4000_0000) by {
                        if lvl_c > 1 {
                            vstd::arithmetic::power2::lemma_pow2_pos((kk - lvl_c + 2) as nat);
                            if ((kk - lvl_c + 2) as nat) < kk {
                                vstd::arithmetic::power2::lemma_pow2_strictly_increases(
                                    (kk - lvl_c + 2) as nat,
                                    kk,
                                );
                            }
                        }
                    };
                }
                let ghost se_tgt = seed_rows(self@.grid, p.size, p.seed, 0, stp as int, 0);
                let mut num: u64 = 0;
                let mut y: u32 = 0;
                while y < size
                    invariant
                        map_wf(self@),
                        same_config(old(self)@, self@),
                        p == view_params(old(self)@),
                        self@.size == p.size,
                        size == self.size,
                        9 <= p.size <= 536_870_913,
                        1 <= stp < 0x4000_0000,
                        num as int <= (y as int) * p.size,
                        a == salt_a(p.seed),
                        b == salt_b(p.seed),
                        c == salt_c(p.seed),
                        d == salt_d(p.seed),
                        se_tgt == seed_rows(
                            self@.grid,
                            p.size,
                            p.seed,
                            y as int,
                            stp as int,
                            num as nat,
                        ),
                    decreases size + stp - y,
                {
                    let ghost row_r = seed_row(
                        self@.grid,
                        p.size,
                        p.seed,
                        y as int,
                        0,
                        stp as int,
                        num as nat,
                    );
                    let mut x: u32 = 0;
                    while x < size
                        invariant
                            map_wf(self@),
                            same_config(old(self)@, self@),
                            p == view_params(old(self)@),
                            self@.size == p.size,
                            size == self.size,
                            9 <= p.size <= 536_870_913,
                            1 <= stp < 0x4000_0000,
                            num as int <= (y as int) * p.size + (x as int),
                            (x as int) < p.size + stp,
                            y < size,
                            a == salt_a(p.seed),
                            b == salt_b(p.seed),
                            c == salt_c(p.seed),
                            d == salt_d(p.seed),
                            row_r == seed_row(
                                self@.grid,
                                p.size,
                                p.seed,
                                y as int,
                                x as int,
                                stp as int,
                                num as nat,
                            ),
                        decreases size + stp - x,
                    {
                        proof {
                            assert(num as int + 1 <= 0x1000_0000_0000_0000) by (nonlinear_arith)
                                requires
                                    num as int <= (y as int) * p.size + (x as int),
                                    0 <= y < p.size,
                                    0 <= x < p.size,
                                    p.size <= 536_870_913,
                            ;
                        }
                        let mut key: Vec<u8> = Vec::new();
                        crate::noise::push_dec(&mut key, num);
                        let hv = crate::noise::hash_seeded_bytes(key.as_slice(), a, b, c, d);
                        let h = crate::height::to_range(
                            0,
                            HEIGHT_ONE,
                            #[verifier::truncate] (hv as u16),
                        );
                        self.set_cell(x, y, Some(h));
                        num = num + 1;
                        x = x + stp;
                    }
                    proof {
                        assert(num as int <= ((y + stp) as int) * p.size) by (nonlinear_arith)
                            requires
                                num as int <= (y as int) * p.size + (x as int),
                                (x as int) < p.size + stp,
                                stp >= 1,
                                p.size >= 9,
                                y >= 0,
                        ;
                    }
                    y = y + stp;
                }
            },
            crate::InitBy::NoFill => {
            },
        }
    }

    /// Returns the height at `(x, y)` (wrapped), generating it through
    /// the resolver if it is not stored yet. The flag says whether a
    /// fresh value was computed. A corner is only ever read, and with an
    /// unset corner anywhere nothing can be generated: `(None, false)`.
    pub fn gen(&mut self, x: i32, y: i32) -> (r: (Option<i64>, bool))
        requires
            map_wf(old(self)@),
        ensures
            map_wf(final(self)@),
            same_config(old(self)@, final(self)@),
            grid_extends(old(self)@.grid, final(self)@.grid, -1),
            forall|cx: int, cy: int|
                0 <= cx < old(self)@.size && 0 <= cy < old(self)@.size && is_corner(
                    cx,
                    cy,
                    old(self)@.size,
                ) ==> #[trigger] cell(final(self)@.grid, final(self)@.size, cx, cy) == cell(
                    old(self)@.grid,
                    old(self)@.size,
                    cx,
                    cy,
                ),
            !old(self)@.use_clock ==> ({
                let g = gen_spec(
                    view_params(old(self)@),
                    old(self)@.grid,
                    x as int,
                    y as int,
                );
                &&& final(self)@.grid == g.0
                &&& r.0 == g.1
                &&& r.1 == g.2
            }),
    {
        proof {
            lemma_valid_size_bounds(self@.size);
            lemma_cell_index(0, 0, self@.size);
            lemma_cell_index(self@.size - 1, 0, self@.size);
            lemma_cell_index(0, self@.size - 1, self@.size);
            lemma_cell_index(self@.size - 1, self@.size - 1, self@.size);
        }
        let size = self.size;
        let xw = coords::wrap(x as i64, size);
        let yw = coords::wrap(y as i64, size);
        let m = size - 1;
        if (xw == 0 || xw == m) && (yw == 0 || yw == m) {
            (self.get_cell(xw, yw), false)
        } else {
            let cur = self.get_cell(xw, yw);
            if let Some(v) = cur {
                (Some(v), false)
            } else if !self.corners_ok() {
                (None, false)
            } else {
                self.resolve(xw, yw, false)
            }
        }
    }

    /// Recomputes the height at `(x, y)` (wrapped) unconditionally,
    /// reusing stored dependency values, and returns the previous and
    /// the new height. A corner is never recomputed: it reports its
    /// stored value twice.
    pub fn regen(&mut self, x: i32, y: i32) -> (r: (Option<i64>, Option<i64>))
        requires
            map_wf(old(self)@),
        ensures
            map_wf(final(self)@),
            same_config(old(self)@, final(self)@),
            grid_extends(
                old(self)@.grid,
                final(self)@.grid,
                wrap_spec(y as int, old(self)@.size) * old(self)@.size + wrap_spec(
                    x as int,
                    old(self)@.size,
                ),
            ),
            !old(self)@.use_clock ==> ({
                let g = regen_spec(
                    view_params(old(self)@),
                    old(self)@.grid,
                    x as int,
                    y as int,
                );
                &&& final(self)@.grid == g.0
                &&& r.0 == g.1
                &&& r.1 == g.2
            }),
    {
        proof {
            lemma_valid_size_bounds(self@.size);
        }
        let size = self.size;
        let xw = coords::wrap(x as i64, size);
        let yw = coords::wrap(y as i64, size);
        let m = size - 1;
        let prev = self.get_cell(xw, yw);
        if (xw == 0 || xw == m) && (yw == 0 || yw == m) {
            (prev, prev)
        } else if !self.corners_ok() {
            (prev, None)
        } else {
            let (res, _done) = self.resolve(xw, yw, true);
            (prev, res)
        }
    }

    /// Reads the rectangle `[x0, x1) x [y0, y1)`, row-major.
    fn get_area_inner(&self, x0: u32, y0: u32, x1: u32, y1: u32) -> (r: Vec<
        (i32, i32, Option<i64>),
    >)
        requires
            map_wf(self@),
            x1 <= self@.size,
            y1 <= self@.size,
            x0 < self@.size,
            y0 < self@.size,
        ensures
            r@ == get_area_rows(
                self@.grid,
                self@.size,
                y0 as int,
                y1 as int,
                x0 as int,
                x1 as int,
            ),
    {
        proof {
            lemma_valid_size_bounds(self@.size);
        }
        let ghost whole = get_area_rows(
            self@.grid,
            self@.size,
            y0 as int,
            y1 as int,
            x0 as int,
            x1 as int,
        );
        let mut area: Vec<(i32, i32, Option<i64>)> = Vec::new();
        let mut y = y0;
        while y < y1
            invariant
                map_wf(self@),
                x1 <= self@.size,
                y1 <= self@.size,
                9 <= self@.size <= 536_870_913,
                whole == area@ + get_area_rows(
                    self@.grid,
                    self@.size,
                    y as int,
                    y1 as int,
                    x0 as int,
                    x1 as int,
                ),
            decreases y1 - y,
        {
            let mut x = x0;
            while x < x1
                invariant
                    map_wf(self@),
                    x1 <= self@.size,
                    y1 <= self@.size,
                    9 <= self@.size <= 536_870_913,
                    y < y1,
                    whole == area@ + get_area_row(
                        self@.grid,
                        self@.size,
                        y as int,
                        x as int,
                        x1 as int,
                    ) + get_area_rows(
                        self@.grid,
                        self@.size,
                        y as int + 1,
                        y1 as int,
                        x0 as int,
                        x1 as int,
                    ),
                decreases x1 - x,
            {
                let c = self.get_cell(x, y);
                let ghost pre = area@;
                area.push((x as i32, y as i32, c));
                proof {
                    assert(pre + get_area_row(
                        self@.grid,
                        self@.size,
                        y as int,
                        x as int,
                        x1 as int,
                    ) + get_area_rows(
                        self@.grid,
                        self@.size,
                        y as int + 1,
                        y1 as int,
                        x0 as int,
                        x1 as int,
                    ) =~= area@ + get_area_row(
                        self@.grid,
                        self@.size,
                        y as int,
                        x as int + 1,
                        x1 as int,
                    ) + get_area_rows(
                        self@.grid,
                        self@.size,
                        y as int + 1,
                        y1 as int,
                        x0 as int,
                        x1 as int,
                    ));
                }
                x = x + 1;
            }
            y = y + 1;
        }
        proof {
            assert(area@ =~= whole);
        }
        area
    }

    /// Writes `h` over the rectangle `[x0, x1) x [y0, y1)`, row-major,
    /// collecting the previous values.
    fn set_area_inner(&mut self, h: i64, x0: u32, y0: u32, x1: u32, y1: u32) -> (r: Vec<
        (i32, i32, Option<i64>),
    >)
        requires
            map_wf(old(self)@),
            x1 <= old(self)@.size,
            y1 <= old(self)@.size,
            -HEIGHT_LIMIT <= h <= HEIGHT_LIMIT,
        ensures
            map_wf(final(self)@),
            same_config(old(self)@, final(self)@),
            (r@, final(self)@.grid) == set_area_rows(
                old(self)@.grid,
                old(self)@.size,
                h,
                y0 as int,
                y1 as int,
                x0 as int,
                x1 as int,
            ),
    {
        proof {
            lemma_valid_size_bounds(self@.size);
        }
        let ghost whole = set_area_rows(
            self@.grid,
            self@.size,
            h,
            y0 as int,
            y1 as int,
            x0 as int,
            x1 as int,
        );
        let ghost sz = self@.size;
        let mut area: Vec<(i32, i32, Option<i64>)> = Vec::new();
        let mut y = y0;
        while y < y1
            invariant
                map_wf(self@),
                same_config(old(self)@, self@),
                sz == self@.size,
                x1 <= sz,
                y1 <= sz,
                9 <= sz <= 536_870_913,
                -HEIGHT_LIMIT <= h <= HEIGHT_LIMIT,
                whole == ({
                    let r = set_area_rows(self@.grid, sz, h, y as int, y1 as int, x0 as int, x1 as int);
                    (area@ + r.0, r.1)
                }),
            decreases y1 - y,
        {
            let mut x = x0;
            while x < x1
                invariant
                    map_wf(self@),
                    same_config(old(self)@, self@),
                    sz == self@.size,
                    x1 <= sz,
                    y1 <= sz,
                    9 <= sz <= 536_870_913,
                    -HEIGHT_LIMIT <= h <= HEIGHT_LIMIT,
                    y < y1,
                    whole == ({
                        let r1 = set_area_row(self@.grid, sz, h, y as int, x as int, x1 as int);
                        let r2 = set_area_rows(r1.1, sz, h, y as int + 1, y1 as int, x0 as int, x1 as int);
                        (area@ + r1.0 + r2.0, r2.1)
                    }),
                decreases x1 - x,
            {
                let prev = self.get_cell(x, y);
                self.set_cell(x, y, Some(h));
                let ghost pre = area@;
                area.push((x as i32, y as i32, prev));
                proof {
                    let r1 = set_area_row(self@.grid, sz, h, y as int, x as int + 1, x1 as int);
                    let r2 = set_area_rows(
                        r1.1,
                        sz,
                        h,
                        y as int + 1,
                        y1 as int,
                        x0 as int,
                        x1 as int,
                    );
                    assert(whole.0 =~= area@ + r1.0 + r2.0);
                }
                x = x + 1;
            }
            y = y + 1;
        }
        proof {
            assert(area@ =~= whole.0);
        }
        area
    }

    /// Generates the rectangle `[x0, x1) x [y0, y1)`, row-major,
    /// collecting each `gen`'s returned height.
    fn gen_area_inner(&mut self, x0: u32, y0: u32, x1: u32, y1: u32) -> (r: Vec<
        (i32, i32, Option<i64>),
    >)
        requires
            map_wf(old(self)@),
            x1 <= old(self)@.size,
            y1 <= old(self)@.size,
        ensures
            map_wf(final(self)@),
            same_config(old(self)@, final(self)@),
            grid_extends(old(self)@.grid, final(self)@.grid, -1),
            !old(self)@.use_clock ==> (r@, final(self)@.grid) == gen_area_rows(
                view_params(old(self)@),
                old(self)@.grid,
                y0 as int,
                y1 as int,
                x0 as int,
                x1 as int,
            ),
    {
        proof {
            lemma_valid_size_bounds(self@.size);
        }
        let ghost p = view_params(self@);
        let ghost g0 = self@.grid;
        let ghost whole = gen_area_rows(p, g0, y0 as int, y1 as int, x0 as int, x1 as int);
        let ghost sz = self@.size;
        let mut area: Vec<(i32, i32, Option<i64>)> = Vec::new();
        let mut y = y0;
        while y < y1
            invariant
                map_wf(self@),
                same_config(old(self)@, self@),
                p == view_params(old(self)@),
                p == view_params(self@),
                sz == self@.size,
                x1 <= sz,
                y1 <= sz,
                9 <= sz <= 536_870_913,
                grid_extends(g0, self@.grid, -1),
                g0 == old(self)@.grid,
                !old(self)@.use_clock ==> whole == ({
                    let r = gen_area_rows(p, self@.grid, y as int, y1 as int, x0 as int, x1 as int);
                    (area@ + r.0, r.1)
                }),
            decreases y1 - y,
        {
            let mut x = x0;
            while x < x1
                invariant
                    map_wf(self@),
                    same_config(old(self)@, self@),
                    p == view_params(old(self)@),
                    p == view_params(self@),
                    sz == self@.size,
                    x1 <= sz,
                    y1 <= sz,
                    9 <= sz <= 536_870_913,
                    y < y1,
                    grid_extends(g0, self@.grid, -1),
                    g0 == old(self)@.grid,
                    !old(self)@.use_clock ==> whole == ({
                        let r1 = gen_area_row(p, self@.grid, y as int, x as int, x1 as int);
                        let r2 = gen_area_rows(p, r1.1, y as int + 1, y1 as int, x0 as int, x1 as int);
                        (area@ + r1.0 + r2.0, r2.1)
                    }),
                decreases x1 - x,
            {
                let ghost gpre = self@.grid;
                let g = self.gen(x as i32, y as i32);
                let ghost pre = area@;
                area.push((x as i32, y as i32, g.0));
                proof {
                    if !old(self)@.use_clock {
                        let r1 = gen_area_row(p, self@.grid, y as int, x as int + 1, x1 as int);
                        let r2 = gen_area_rows(
                            p,
                            r1.1,
                            y as int + 1,
                            y1 as int,
                            x0 as int,
                            x1 as int,
                        );
                        assert(whole.0 =~= area@ + r1.0 + gen_area_rows(
                            p,
                            r1.1,
                            y as int + 1,
                            y1 as int,
                            x0 as int,
                            x1 as int,
                        ).0);
                    }
                }
                x = x + 1;
            }
            y = y + 1;
        }
        proof {
            if !old(self)@.use_clock {
                assert(area@ =~= whole.0);
            }
        }
        area
    }

    /// Reads an axis-aligned rectangle of cells, the corners wrapped,
    /// the rows top to bottom and each row left to right; the lower
    /// bounds are inclusive and the upper ones exclusive.
    pub fn get_area(&self, top_left: (i32, i32), bottom_right: (i32, i32)) -> (r: Vec<
        (i32, i32, Option<i64>),
    >)
        requires
            map_wf(self@),
        ensures
            r@ == get_area_rows(
                self@.grid,
                self@.size,
                wrap_spec(top_left.1 as int, self@.size),
                wrap_spec(bottom_right.1 as int, self@.size),
                wrap_spec(top_left.0 as int, self@.size),
                wrap_spec(bottom_right.0 as int, self@.size),
            ),
    {
        proof {
            lemma_valid_size_bounds(self@.size);
        }
        let x0 = coords::wrap(top_left.0 as i64, self.size);
        let y0 = coords::wrap(top_left.1 as i64, self.size);
        let x1 = coords::wrap(bottom_right.0 as i64, self.size);
        let y1 = coords::wrap(bottom_right.1 as i64, self.size);
        self.get_area_inner(x0, y0, x1, y1)
    }

    /// Writes one height over an axis-aligned rectangle (corners
    /// wrapped, upper bounds exclusive) and collects the previous
    /// values, row-major.
    pub fn set_area(&mut self, h: i64, top_left: (i32, i32), bottom_right: (i32, i32)) -> (r: Vec<
        (i32, i32, Option<i64>),
    >)
        requires
            map_wf(old(self)@),
            -HEIGHT_LIMIT <= h <= HEIGHT_LIMIT,
        ensures
            map_wf(final(self)@),
            same_config(old(self)@, final(self)@),
            (r@, final(self)@.grid) == set_area_rows(
                old(self)@.grid,
                old(self)@.size,
                h,
                wrap_spec(top_left.1 as int, old(self)@.size),
                wrap_spec(bottom_right.1 as int, old(self)@.size),
                wrap_spec(top_left.0 as int, old(self)@.size),
                wrap_spec(bottom_right.0 as int, old(self)@.size),
            ),
    {
        proof {
            lemma_valid_size_bounds(self@.size);
        }
        let x0 = coords::wrap(top_left.0 as i64, self.size);
        let y0 = coords::wrap(top_left.1 as i64, self.size);
        let x1 = coords::wrap(bottom_right.0 as i64, self.size);
        let y1 = coords::wrap(bottom_right.1 as i64, self.size);
        self.set_area_inner(h, x0, y0, x1, y1)
    }

    /// Generates an axis-aligned rectangle (corners wrapped, upper
    /// bounds exclusive) cell by cell, row-major, and collects each
    /// returned height.
    pub fn gen_area(&mut self, top_left: (i32, i32), bottom_right: (i32, i32)) -> (r: Vec<
        (i32, i32, Option<i64>),
    >)
        requires
            map_wf(old(self)@),
        ensures
            map_wf(final(self)@),
            same_config(old(self)@, final(self)@),
            grid_extends(old(self)@.grid, final(self)@.grid, -1),
            !old(self)@.use_clock ==> (r@, final(self)@.grid) == gen_area_rows(
                view_params(old(self)@),
                old(self)@.grid,
                wrap_spec(top_left.1 as int, old(self)@.size),
                wrap_spec(bottom_right.1 as int, old(self)@.size),
                wrap_spec(top_left.0 as int, old(self)@.size),
                wrap_spec(bottom_right.0 as int, old(self)@.size),
            ),
    {
        proof {
            lemma_valid_size_bounds(self@.size);
        }
        let x0 = coords::wrap(top_left.0 as i64, self.size);
        let y0 = coords::wrap(top_left.1 as i64, self.size);
        let x1 = coords::wrap(bottom_right.0 as i64, self.size);
        let y1 = coords::wrap(bottom_right.1 as i64, self.size);
        self.gen_area_inner(x0, y0, x1, y1)
    }

    /// Reads the whole grid, row-major.
    pub fn get_all(&self) -> (r: Vec<(i32, i32, Option<i64>)>)
        requires
            map_wf(self@),
        ensures
            r@ == get_area_rows(self@.grid, self@.size, 0, self@.size, 0, self@.size),
    {
        proof {
            lemma_valid_size_bounds(self@.size);
        }
        self.get_area_inner(0, 0, self.size, self.size)
    }

    /// Writes one height over the whole grid, row-major, collecting the
    /// previous values.
    pub fn set_all(&mut self, h: i64) -> (r: Vec<(i32, i32, Option<i64>)>)
        requires
            map_wf(old(self)@),
            -HEIGHT_LIMIT <= h <= HEIGHT_LIMIT,
        ensures
            map_wf(final(self)@),
            same_config(old(self)@, final(self)@),
            (r@, final(self)@.grid) == set_area_rows(
                old(self)@.grid,
                old(self)@.size,
                h,
                0,
                old(self)@.size,
                0,
                old(self)@.size,
            ),
    {
        proof {
            lemma_valid_size_bounds(self@.size);
        }
        self.set_area_inner(h, 0, 0, self.size, self.size)
    }

    /// Generates every cell of the grid, row-major.
    pub fn gen_all(&mut self) -> (r: Vec<(i32, i32, Option<i64>)>)
        requires
            map_wf(old(self)@),
        ensures
            map_wf(final(self)@),
            same_config(old(self)@, final(self)@),
            grid_extends(old(self)@.grid, final(self)@.grid, -1),
            !old(self)@.use_clock ==> (r@, final(self)@.grid) == gen_area_rows(
                view_params(old(self)@),
                old(self)@.grid,
                0,
                old(self)@.size,
                0,
                old(self)@.size,
            ),
    {
        proof {
            lemma_valid_size_bounds(self@.size);
        }
        self.gen_area_inner(0, 0, self.size, self.size)
    }
}

/// Determinism: two maps independently built from the same requested
/// size, roughness and seed string (that is, two views each satisfying
/// `new_with_seed`'s postconditions for the same inputs) are equal in
/// every field, and with the clock source off everything `gen` returns
/// and stores is a function of that value alone — so fully generating
/// both gives bit-identical grids.
pub proof fn lemma_gen_deterministic(
    v1: MapView<DefaultGenRand, DefaultCalcRoughness, DefaultChangeCalcedH>,
    v2: MapView<DefaultGenRand, DefaultCalcRoughness, DefaultChangeCalcedH>,
    size: i32,
    roughness: i64,
    key: Seq<u8>,
)
    requires
        v1.size == fit_size_spec(snap_size_spec(size as int)),
        v1.roughness == clamp_rough_spec(roughness as int),
        v1.seed == crate::noise::seahash_of(key),
        v1.use_clock == false,
        v1.grid == init_spec(
            view_params(v1),
            blank(v1.size),
            clamp_lvl(v1.size, 1),
            seed_step_spec(v1.size, 1),
            crate::InitBy::DiamondSquare,
        ),
        v2.size == fit_size_spec(snap_size_spec(size as int)),
        v2.roughness == clamp_rough_spec(roughness as int),
        v2.seed == crate::noise::seahash_of(key),
        v2.use_clock == false,
        v2.grid == init_spec(
            view_params(v2),
            blank(v2.size),
            clamp_lvl(v2.size, 1),
            seed_step_spec(v2.size, 1),
            crate::InitBy::DiamondSquare,
        ),
    ensures
        v1 == v2,
        forall|x: int, y: int| #[trigger]
            gen_spec(view_params(v1), v1.grid, x, y) == gen_spec(view_params(v2), v2.grid, x, y),
{
    assert(view_params(v1) == view_params(v2));
    assert(v1 == v2);
}

/// Corner stability: `gen` reads the four corner cells but never
/// changes one, whatever it is asked to generate.
pub proof fn lemma_gen_corner_stable<R: GenRand, C: CalcRoughness, P: ChangeCalcedH>(
    v: MapView<R, C, P>,
    x: int,
    y: int,
    cx: int,
    cy: int,
)
    requires
        map_wf(v),
        is_corner(cx, cy, v.size),
        0 <= cx < v.size,
        0 <= cy < v.size,
    ensures
        cell(gen_spec(view_params(v), v.grid, x, y).0, v.size, cx, cy) == cell(
            v.grid,
            v.size,
            cx,
            cy,
        ),
{
    lemma_valid_size_bounds(v.size);
    let p = view_params(v);
    let xw = wrap_spec(x, p.size);
    let yw = wrap_spec(y, p.size);
    lemma_cell_index(cx, cy, p.size);
    if !is_corner(xw, yw, p.size) && cell(v.grid, p.size, xw, yw) is None && corners_set(
        v.grid,
        p.size,
    ) {
        let st0 = ResolveState { grid: v.grid, frames: seq![init_frame(xw, yw, false)] };
        lemma_run_preserves(p, st0, fuel_for(p.size), -1);
        assert(cell(v.grid, p.size, cx, cy) is Some);
    }
}

/// Idempotence of `gen`: a call that computed a fresh value leaves it
/// stored, so an immediate second call at the same coordinates returns
/// the same height with the fresh flag down and changes nothing.
pub proof fn lemma_gen_idempotent<R: GenRand, C: CalcRoughness, P: ChangeCalcedH>(
    v: MapView<R, C, P>,
    x: int,
    y: int,
)
    requires
        map_wf(v),
    ensures
        ({
            let g1 = gen_spec(view_params(v), v.grid, x, y);
            g1.2 ==> gen_spec(view_params(v), g1.0, x, y) == (g1.0, g1.1, false)
        }),
{
    lemma_valid_size_bounds(v.size);
    let p = view_params(v);
    let g1 = gen_spec(p, v.grid, x, y);
    let xw = wrap_spec(x, p.size);
    let yw = wrap_spec(y, p.size);
    if g1.2 {
        let st0 = ResolveState { grid: v.grid, frames: seq![init_frame(xw, yw, false)] };
        lemma_run_preserves(p, st0, fuel_for(p.size), -1);
        lemma_cell_index(xw, yw, p.size);
        assert(cell(g1.0, p.size, xw, yw) is Some);
    }
}

/// The range property: with an identity post hook, a `gen` on a map
/// whose set cells all lie on the unit scale `[0, HEIGHT_ONE]` leaves
/// every cell it stores on that scale too.
pub proof fn lemma_gen_range<R: GenRand, C: CalcRoughness, P: ChangeCalcedH>(
    v: MapView<R, C, P>,
    x: int,
    y: int,
)
    requires
        map_wf(v),
        crate::model::post_identity(v.pf),
        forall|i: int|
            0 <= i < v.grid.len() && #[trigger] v.grid[i] is Some ==> 0 <= v.grid[i]->0
                <= HEIGHT_ONE,
    ensures
        ({
            let g1 = gen_spec(view_params(v), v.grid, x, y);
            forall|i: int|
                0 <= i < g1.0.len() && #[trigger] g1.0[i] is Some ==> 0 <= g1.0[i]->0 <= HEIGHT_ONE
        }),
{
    lemma_valid_size_bounds(v.size);
    let p = view_params(v);
    let xw = wrap_spec(x, p.size);
    let yw = wrap_spec(y, p.size);
    if !is_corner(xw, yw, p.size) && cell(v.grid, p.size, xw, yw) is None && corners_set(
        v.grid,
        p.size,
    ) {
        let st0 = ResolveState { grid: v.grid, frames: seq![init_frame(xw, yw, false)] };
        crate::model::lemma_run_range(p, st0, fuel_for(p.size), -1);
    }
}

/// The toroidal wrap: reading at coordinates shifted by any whole
/// number of grid periods reads the same cell, so
/// `get(x + k*size, y + k*size)` equals `get(x, y)`.
pub proof fn lemma_get_toroidal(grid: Seq<Option<i64>>, size: int, x: int, y: int, k: int)
    requires
        size > 0,
    ensures
        cell(grid, size, wrap_spec(x + k * size, size), wrap_spec(y + k * size, size)) == cell(
            grid,
            size,
            wrap_spec(x, size),
            wrap_spec(y, size),
        ),
{
    vstd::arithmetic::div_mod::lemma_mod_multiples_vanish(k, x, size);
    vstd::arithmetic::div_mod::lemma_mod_multiples_vanish(k, y, size);
}

} // verus!

