use lazy_diamond_square as lds;
use lds::Builder;
use lds::HeightMap;
use lds::InitBy;

use tinyrand::Rand;
use tinyrand::Seeded;

/// Determinism: equal parameters give bit-identical fully generated
/// grids.
#[test]
fn determinism() {
    let mut m1 = HeightMap::new_with_seed(9, 9830, "same");
    let mut m2 = HeightMap::new_with_seed(9, 9830, "same");
    m1.gen_all();
    m2.gen_all();
    let a = m1.get_all();
    let b = m2.get_all();
    assert_eq!(a.len(), 81);
    assert_eq!(a, b);
    for (_, _, h) in a {
        assert!(h.is_some());
    }
}

/// Corner stability: generation never moves a corner.
#[test]
fn corner_stability() {
    let mut map = HeightMap::new_with_seed(9, 9830, "corners");
    let corners = [(0, 0), (8, 0), (0, 8), (8, 8)];
    let before: Vec<Option<i64>> = corners.iter().map(|&(x, y)| map.get(x, y)).collect();
    map.gen(3, 5);
    map.gen_all();
    map.regen(4, 4);
    let after: Vec<Option<i64>> = corners.iter().map(|&(x, y)| map.get(x, y)).collect();
    assert_eq!(before, after);
}

/// Lazy/eager equivalence: generating every cell lazily from a map that
/// holds only the eager map's corner values reproduces the eager grid.
#[test]
fn lazy_eager_equivalence() {
    let eager = Builder::new(9, 9830).seed("equivalence").init_lvl(3).init_by(InitBy::DiamondSquare).build();
    // Level 3 on a 9-sided map fills every cell eagerly.
    for y in 0..9 {
        for x in 0..9 {
            assert!(eager.get(x, y).is_some());
        }
    }
    let mut lazy = Builder::new(9, 9830).seed("equivalence").init_by(InitBy::NoFill).build();
    for &(cx, cy) in &[(0, 0), (8, 0), (0, 8), (8, 8)] {
        lazy.set(cx, cy, eager.get(cx, cy));
    }
    for y in 0..9 {
        for x in 0..9 {
            lazy.gen(x, y);
        }
    }
    for y in 0..9 {
        for x in 0..9 {
            assert_eq!(lazy.get(x, y), eager.get(x, y), "cell ({}, {})", x, y);
        }
    }
}

/// Idempotence: `gen` returns `(v, true)` once, then `(v, false)`.
#[test]
fn gen_idempotent() {
    let mut map = HeightMap::new_with_seed(9, 9830, "idem");
    let (v1, fresh1) = map.gen(3, 4);
    let (v2, fresh2) = map.gen(3, 4);
    assert!(fresh1);
    assert!(!fresh2);
    assert!(v1.is_some());
    assert_eq!(v1, v2);
}

/// Range: with identity hooks and corner seeds on the unit scale, every
/// generated height stays in `[0, HEIGHT_ONE]`.
#[test]
fn range_property() {
    let mut map = HeightMap::new_with_seed(17, 9830, "range");
    map.gen_all();
    for (_, _, h) in map.get_all() {
        let h = h.expect("generated");
        assert!(0 <= h && h <= lds::height::HEIGHT_ONE);
    }
}

/// Toroidal wrap: `get` is periodic in both axes with period `size`.
#[test]
fn toroidal_wrap() {
    let mut map = HeightMap::new_with_seed(9, 9830, "torus");
    map.gen_all();
    for k in [-3i32, -1, 1, 2, 5] {
        for &(x, y) in &[(0, 0), (2, 3), (8, 8), (5, 1)] {
            assert_eq!(map.get(x + k * 9, y + k * 9), map.get(x, y));
        }
    }
    assert_eq!(map.get(-1, -1), map.get(8, 8));
}

/// The concrete scenario: a `MIN_SIZE` map, an explicit write, and one
/// freshly computed cell whose value follows the documented formula.
#[test]
fn concrete_scenario() {
    let mut map = HeightMap::new_with_seed(9, 9830, "scenario");
    map.set(1, 0, Some(32768));

    let corner = map.get(0, 0);
    assert!(corner.is_some());
    assert_eq!(map.gen(0, 0), (corner, false));
    assert_eq!(map.gen(1, 0), (Some(32768), false));

    // The dependencies of (2, 0): N wraps through the nudge to (2, 6),
    // then (4, 0), (2, 2) and (0, 0). Pin the unset ones so the resolver
    // performs exactly one blend, and recompute that blend here from the
    // documented pieces.
    map.set(2, 6, Some(11111));
    map.set(2, 2, Some(22222));
    assert!(map.get(4, 0).is_some());
    let h0 = map.get(2, 6).unwrap();
    let h1 = map.get(4, 0).unwrap();
    let h2 = map.get(2, 2).unwrap();
    let h3 = map.get(0, 0).unwrap();

    let js = lds::noise::jitter(2, 0, map.seed());
    let r16 = tinyrand::StdRand::seed(js).next_u16();
    let avg = lds::height::avg4(h0, h1, h2, h3);
    let expected = lds::height::mix(map.roughness(), r16, avg);

    assert_eq!(map.gen(2, 0), (Some(expected), true));
    assert_eq!(map.get(2, 0), Some(expected));
}

/// `regen` recomputes a cell from its dependencies, overwriting an
/// explicit write; at a corner it only reports the stored value.
#[test]
fn regen_overwrites() {
    let mut map = HeightMap::new_with_seed(9, 9830, "regen");
    let (v1, fresh) = map.gen(3, 4);
    assert!(fresh);
    map.set(3, 4, Some(123));
    assert_eq!(map.get(3, 4), Some(123));
    let (prev, new) = map.regen(3, 4);
    assert_eq!(prev, Some(123));
    assert_eq!(new, v1);
    assert_eq!(map.get(3, 4), v1);

    let c = map.get(0, 0);
    assert_eq!(map.regen(0, 0), (c, c));
    assert_eq!(map.get(0, 0), c);
}

/// Areas: wrapped exclusive bounds, row-major order.
#[test]
fn areas() {
    let mut map = HeightMap::new_with_seed(9, 9830, "areas");
    let got = map.get_area((0, 0), (3, 2));
    assert_eq!(got.len(), 6);
    assert_eq!(got[0], (0, 0, map.get(0, 0)));
    assert_eq!(got[3], (0, 1, map.get(0, 1)));
    assert_eq!(got[5], (2, 1, map.get(2, 1)));

    // The same rectangle through wrapped corners.
    let wrapped = map.get_area((9, 9), (12, 11));
    assert_eq!(got, wrapped);

    // An empty rectangle: the lower corner wraps below the upper one.
    assert_eq!(map.get_area((5, 5), (0, 0)).len(), 0);

    let prevs = map.set_area(77, (1, 1), (3, 3));
    assert_eq!(prevs.len(), 4);
    assert_eq!(map.get(1, 1), Some(77));
    assert_eq!(map.get(2, 2), Some(77));
    assert_eq!(map.get(3, 3), None);

    let gens = map.gen_area((1, 1), (3, 3));
    assert_eq!(gens.len(), 4);
    assert_eq!(gens[0], (1, 1, Some(77)));

    let all = map.get_all();
    assert_eq!(all.len(), 81);
    assert_eq!(all[0], (0, 0, map.get(0, 0)));

    let mut map2 = HeightMap::new_with_seed(9, 0, "areas2");
    map2.set_all(5);
    for (_, _, h) in map2.get_all() {
        assert_eq!(h, Some(5));
    }
    let gens2 = map2.gen_all();
    assert_eq!(gens2.len(), 81);
    for (_, _, h) in gens2 {
        assert_eq!(h, Some(5));
    }
}

/// A clock-jittered map still generates: structure is unaffected, only
/// the drawn values are.
#[test]
fn clock_seeded_generation() {
    let mut map = Builder::new(9, 9830).seed("clock").use_clock_seed(true).build();
    assert!(map.use_clock_seed());
    let (v, fresh) = map.gen(3, 4);
    assert!(fresh);
    assert!(v.is_some());
    assert_eq!(map.get(3, 4), v);
    let corners_before: Vec<_> = [(0, 0), (8, 0), (0, 8), (8, 8)]
        .iter()
        .map(|&(x, y)| map.get(x, y))
        .collect();
    map.gen_all();
    let corners_after: Vec<_> = [(0, 0), (8, 0), (0, 8), (8, 8)]
        .iter()
        .map(|&(x, y)| map.get(x, y))
        .collect();
    assert_eq!(corners_before, corners_after);
}

/// The builder snaps, clamps and passes every setting through.
#[test]
fn builder_settings() {
    let map = Builder::new(100, -70_000)
        .seed("builder")
        .init_lvl(2)
        .init_by(InitBy::DiamondSquare)
        .build();
    assert_eq!(map.size(), 129);
    assert_eq!(map.roughness(), 65_535);
    assert_eq!(map.seed(), seahash::hash(b"builder"));
    assert!(!map.use_clock_seed());
    assert!(map.get(0, 0).is_some());

    let bare = Builder::new(9, 0).init_by(InitBy::NoFill).build();
    for (_, _, h) in bare.get_all() {
        assert_eq!(h, None);
    }

    let mut unset = Builder::new(9, 0).init_by(InitBy::NoFill).build();
    // With a corner unset nothing can be generated.
    assert_eq!(unset.gen(3, 3), (None, false));
}
