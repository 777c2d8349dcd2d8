//! A lazily evaluated heightfield on a toroidal grid, generated with the
//! diamond-square algorithm. Heights are fixed-point values: `HEIGHT_ONE`
//! units stand for a height of one.

use vstd::prelude::*;

pub use builder::Builder;
pub use map::HeightMap;

pub mod builder;
pub mod coords;
pub mod height;
pub mod hooks;
pub mod map;
pub mod model;
pub mod noise;

verus! {

/// The smallest side length a map can have. A requested size below this
/// value is raised to it.
pub const MIN_SIZE: i32 = 9;

/// The largest side length a map can have. A requested size above this
/// value is lowered to it.
pub const MAX_SIZE: i32 = 536_870_913;

/// The eager initialisation strategies a map can be built with.
#[derive(Debug, PartialEq, Eq, Clone, Copy, Structural)]
pub enum InitBy {
    /// Hash the four corners, then pre-fill the diamond-square lattice
    /// down to the chosen level.
    DiamondSquare,
    /// Fill a uniform sub-lattice with hashed values keyed by the order
    /// of visitation.
    Seed,
    /// Leave the whole grid unset.
    NoFill,
}

} // verus!
