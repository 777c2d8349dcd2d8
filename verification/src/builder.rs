//! A builder for maps whose settings go beyond `new`'s defaults: a
//! string seed or the clock, the initialisation strategy and level, and
//! custom hooks.

use vstd::prelude::*;
use vstd::string::StringSliceAdditionalSpecFns;

use crate::InitBy;
use crate::hooks::CalcRoughness;
use crate::hooks::ChangeCalcedH;
use crate::hooks::DefaultCalcRoughness;
use crate::hooks::DefaultChangeCalcedH;
use crate::hooks::DefaultGenRand;
use crate::hooks::GenRand;
use crate::map::HeightMap;
use crate::map::blank;
use crate::map::clamp_lvl;
use crate::map::clamp_rough;
use crate::map::clamp_rough_spec;
use crate::map::fit_size;
use crate::map::fit_size_spec;
use crate::map::init_spec;
use crate::map::map_wf;
use crate::map::seed_step_spec;
use crate::map::snap_size;
use crate::map::snap_size_spec;
use crate::map::valid_size;
use crate::map::view_params;
use crate::noise::clock_u64;
use crate::noise::hash_bytes;
use crate::noise::seahash_of;
use crate::noise::std_rand_u64;

verus! {

/// Collects a map's settings before building it. The side length and
/// roughness are normalised on entry; each other setting has a method
/// named after the field it sets.
pub struct Builder<R: GenRand, C: CalcRoughness, P: ChangeCalcedH> {
    /// The side length, already snapped to a valid value.
    pub size: u32,
    /// The seed, from the clock until `seed` derives one from a string.
    pub seed: u64,
    /// The roughness, already clamped onto `[0, HEIGHT_ONE]`.
    pub roughness: u16,
    /// Whether heights are jittered from the clock instead of the seed.
    pub use_clock_seed: bool,
    /// The jitter-seed hook.
    pub gen_rand_fn: R,
    /// The roughness hook.
    pub calc_roughness_fn: C,
    /// The post hook.
    pub change_calced_h_fn: P,
    /// The eager initialisation level.
    pub init_lvl: u8,
    /// The eager initialisation strategy.
    pub init_by: InitBy,
}

impl Builder<DefaultGenRand, DefaultCalcRoughness, DefaultChangeCalcedH> {
    /// A builder with the defaults of `HeightMap::new`: a clock seed,
    /// identity hooks, and a level-1 diamond-square pre-fill.
    pub fn new(size: i32, roughness: i64) -> (b: Self)
        ensures
            b.size as int == fit_size_spec(snap_size_spec(size as int)),
            valid_size(b.size as int),
            (b.size as int) * (b.size as int) <= usize::MAX as int,
            b.roughness == clamp_rough_spec(roughness as int),
            b.use_clock_seed == false,
            b.init_lvl == 1,
            b.init_by == InitBy::DiamondSquare,
            b.gen_rand_fn == DefaultGenRand,
            b.calc_roughness_fn == DefaultCalcRoughness,
            b.change_calced_h_fn == DefaultChangeCalcedH,
    {
        let s = fit_size(snap_size(size));
        Builder {
            size: s,
            seed: std_rand_u64(clock_u64()),
            roughness: clamp_rough(roughness),
            use_clock_seed: false,
            gen_rand_fn: DefaultGenRand,
            calc_roughness_fn: DefaultCalcRoughness,
            change_calced_h_fn: DefaultChangeCalcedH,
            init_lvl: 1,
            init_by: InitBy::DiamondSquare,
        }
    }
}

impl Default for Builder<DefaultGenRand, DefaultCalcRoughness, DefaultChangeCalcedH> {
    /// The builder of the smallest map: roughness zero, a clock seed,
    /// identity hooks, a level-1 diamond-square pre-fill.
    fn default() -> (b: Self)
        ensures
            b.size == 9,
            valid_size(b.size as int),
            (b.size as int) * (b.size as int) <= usize::MAX as int,
            b.roughness == 0,
            b.use_clock_seed == false,
            b.init_lvl == 1,
            b.init_by == InitBy::DiamondSquare,
            b.gen_rand_fn == DefaultGenRand,
            b.calc_roughness_fn == DefaultCalcRoughness,
            b.change_calced_h_fn == DefaultChangeCalcedH,
    {
        proof {
            vstd::arithmetic::power2::lemma2_to64();
            assert(valid_size(9)) by {
                assert(9int == vstd::arithmetic::power2::pow2(3) + 1);
            };
        }
        Builder {
            size: 9,
            seed: std_rand_u64(clock_u64()),
            roughness: 0,
            use_clock_seed: false,
            gen_rand_fn: DefaultGenRand,
            calc_roughness_fn: DefaultCalcRoughness,
            change_calced_h_fn: DefaultChangeCalcedH,
            init_lvl: 1,
            init_by: InitBy::DiamondSquare,
        }
    }
}

impl<R: GenRand, C: CalcRoughness, P: ChangeCalcedH> Builder<R, C, P> {
    /// Derives the seed from a caller string by the seahash digest.
    pub fn seed(self, seed: &str) -> (b: Self)
        ensures
            b == (Builder { seed: seahash_of(seed.spec_bytes()), ..self }),
    {
        Builder { seed: hash_bytes(seed.as_bytes()), ..self }
    }

    /// Chooses whether heights are jittered from the clock instead of
    /// the seed.
    pub fn use_clock_seed(self, by_clock: bool) -> (b: Self)
        ensures
            b == (Builder { use_clock_seed: by_clock, ..self }),
    {
        Builder { use_clock_seed: by_clock, ..self }
    }

    /// Supplies the jitter-seed hook used during height generation. No
    /// effect if `use_clock_seed` is set.
    pub fn gen_rand_fn<R2: GenRand>(self, f: R2) -> (b: Builder<R2, C, P>)
        ensures
            b.size == self.size,
            b.seed == self.seed,
            b.roughness == self.roughness,
            b.use_clock_seed == self.use_clock_seed,
            b.gen_rand_fn == f,
            b.calc_roughness_fn == self.calc_roughness_fn,
            b.change_calced_h_fn == self.change_calced_h_fn,
            b.init_lvl == self.init_lvl,
            b.init_by == self.init_by,
    {
        Builder {
            size: self.size,
            seed: self.seed,
            roughness: self.roughness,
            use_clock_seed: self.use_clock_seed,
            gen_rand_fn: f,
            calc_roughness_fn: self.calc_roughness_fn,
            change_calced_h_fn: self.change_calced_h_fn,
            init_lvl: self.init_lvl,
            init_by: self.init_by,
        }
    }

    /// Supplies the roughness hook.
    pub fn calc_roughness_fn<C2: CalcRoughness>(self, f: C2) -> (b: Builder<R, C2, P>)
        ensures
            b.size == self.size,
            b.seed == self.seed,
            b.roughness == self.roughness,
            b.use_clock_seed == self.use_clock_seed,
            b.gen_rand_fn == self.gen_rand_fn,
            b.calc_roughness_fn == f,
            b.change_calced_h_fn == self.change_calced_h_fn,
            b.init_lvl == self.init_lvl,
            b.init_by == self.init_by,
    {
        Builder {
            size: self.size,
            seed: self.seed,
            roughness: self.roughness,
            use_clock_seed: self.use_clock_seed,
            gen_rand_fn: self.gen_rand_fn,
            calc_roughness_fn: f,
            change_calced_h_fn: self.change_calced_h_fn,
            init_lvl: self.init_lvl,
            init_by: self.init_by,
        }
    }

    /// Supplies the post hook applied to every freshly blended height.
    pub fn change_calced_h_fn<P2: ChangeCalcedH>(self, f: P2) -> (b: Builder<R, C, P2>)
        ensures
            b.size == self.size,
            b.seed == self.seed,
            b.roughness == self.roughness,
            b.use_clock_seed == self.use_clock_seed,
            b.gen_rand_fn == self.gen_rand_fn,
            b.calc_roughness_fn == self.calc_roughness_fn,
            b.change_calced_h_fn == f,
            b.init_lvl == self.init_lvl,
            b.init_by == self.init_by,
    {
        Builder {
            size: self.size,
            seed: self.seed,
            roughness: self.roughness,
            use_clock_seed: self.use_clock_seed,
            gen_rand_fn: self.gen_rand_fn,
            calc_roughness_fn: self.calc_roughness_fn,
            change_calced_h_fn: f,
            init_lvl: self.init_lvl,
            init_by: self.init_by,
        }
    }

    /// Sets the eager initialisation level.
    pub fn init_lvl(self, lvl: u8) -> (b: Self)
        ensures
            b == (Builder { init_lvl: lvl, ..self }),
    {
        Builder { init_lvl: lvl, ..self }
    }

    /// Sets the eager initialisation strategy.
    pub fn init_by(self, by: InitBy) -> (b: Self)
        ensures
            b == (Builder { init_by: by, ..self }),
    {
        Builder { init_by: by, ..self }
    }

    /// Builds the map: allocates the grid and runs the chosen eager
    /// initialisation.
    pub fn build(self) -> (m: HeightMap<R, C, P>)
        requires
            valid_size(self.size as int),
            (self.size as int) * (self.size as int) <= usize::MAX as int,
        ensures
            map_wf(m@),
            m@.size == self.size as int,
            m@.roughness == self.roughness,
            m@.seed == self.seed,
            m@.use_clock == self.use_clock_seed,
            m@.rf == self.gen_rand_fn,
            m@.cf == self.calc_roughness_fn,
            m@.pf == self.change_calced_h_fn,
            !self.use_clock_seed ==> m@.grid == init_spec(
                view_params(m@),
                blank(m@.size),
                clamp_lvl(m@.size, self.init_lvl),
                seed_step_spec(m@.size, self.init_lvl),
                self.init_by,
            ),
    {
        let mut m = HeightMap::from_parts(
            self.size,
            self.roughness,
            self.seed,
            self.use_clock_seed,
            self.gen_rand_fn,
            self.calc_roughness_fn,
            self.change_calced_h_fn,
        );
        m.init(self.init_lvl, self.init_by);
        m
    }
}

} // verus!
