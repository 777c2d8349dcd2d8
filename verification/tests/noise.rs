use lazy_diamond_square as lds;
use lds::Builder;
use lds::HeightMap;
use lds::InitBy;

/// The verified integer encoder matches the hardware double division
/// bit for bit.
#[test]
fn ratio_bits_match_f64() {
    let samples: Vec<u64> = (0..4096)
        .chain([60_000, 123_456, 760_485, 760_486, 760_487, 1_000_000, 1_301_081, 1_520_966])
        .collect();
    for s in samples {
        let expected = (s as f64 / 1_520_972.0).to_bits();
        assert_eq!(lds::noise::ratio_to_f64_bits(s), expected, "s = {}", s);
    }
}

/// The jitter seed matches a direct float reimplementation of the
/// documented eighty-round mix.
#[test]
fn jitter_matches_float_form() {
    for &(cx, cy, seed) in
        &[(0u32, 0u32, 1u64), (2, 0, 0xDEAD_BEEF), (7, 5, u64::MAX), (100, 3, 42)] {
        let mut x = cx as u64;
        let mut y = cy as u64;
        let mut xm7: u64 = x % 7;
        let mut xm13: u64 = x % 13;
        let mut xm1301081: u64 = x % 1301081;
        let mut ym8461: u64 = y % 8461;
        let mut ym105467: u64 = y % 105467;
        let mut ym105943: u64 = y % 105943;
        for _ in 0..80 {
            y = x.wrapping_add(seed);
            x += xm7 + xm13 + xm1301081 + ym8461 + ym105467 + ym105943;
            xm7 = x % 7;
            xm13 = x % 13;
            xm1301081 = x % 1301081;
            ym8461 = y % 8461;
            ym105467 = y % 105467;
            ym105943 = y % 105943;
        }
        let expected = seed
            ^ ((xm7 + xm13 + xm1301081 + ym8461 + ym105467 + ym105943) as f64 / 1520972.0)
                .to_bits();
        assert_eq!(lds::noise::jitter(cx, cy, seed), expected);
    }
}

/// Decimal byte strings match the standard formatter.
#[test]
fn decimal_bytes() {
    for n in [0u64, 7, 10, 99, 100, 1_234_567_890, u64::MAX] {
        let mut v: Vec<u8> = Vec::new();
        lds::noise::push_dec(&mut v, n);
        assert_eq!(v, format!("{}", n).into_bytes());
    }
    let key = lds::noise::corner_key_bytes(128, 0);
    assert_eq!(key, b"128_0".to_vec());
}

/// Corner heights come from the salted seahash of the key `"x_y"`.
#[test]
fn corner_values_from_hash() {
    let map = HeightMap::new_with_seed(9, 9830, "corners!");
    let seed = map.seed();
    let (a, b, c, d) = (
        seed & 0xFFFF,
        seed & 0xFFFF_0000,
        seed & 0xFFFF_0000_0000,
        seed & 0xFFFF_0000_0000_0000,
    );
    for (x, y) in [(0u32, 0u32), (8, 0), (0, 8), (8, 8)] {
        let key = format!("{}_{}", x, y);
        let expected = seahash::hash_seeded(key.as_bytes(), a, b, c, d) as u16 as i64;
        assert_eq!(map.get(x as i32, y as i32), Some(expected), "corner {} {}", x, y);
    }
}

/// The `Seed` strategy keys each visited cell by its visitation index.
#[test]
fn seed_strategy_values() {
    let map = Builder::new(9, 0).seed("seeded").init_lvl(1).init_by(InitBy::Seed).build();
    let seed = map.seed();
    let (a, b, c, d) = (
        seed & 0xFFFF,
        seed & 0xFFFF_0000,
        seed & 0xFFFF_0000_0000,
        seed & 0xFFFF_0000_0000_0000,
    );
    // Level 1 visits every cell, row-major, so the index of (x, y) is
    // y * 9 + x.
    for (x, y) in [(0i32, 0i32), (1, 0), (8, 0), (0, 1), (4, 7)] {
        let num = (y * 9 + x) as u64;
        let key = format!("{}", num);
        let expected = seahash::hash_seeded(key.as_bytes(), a, b, c, d) as u16 as i64;
        assert_eq!(map.get(x, y), Some(expected), "cell {} {}", x, y);
    }
}

/// Rescaling and brightness behave at the ends and the middle.
#[test]
fn scale_helpers() {
    assert_eq!(lds::height::to_range(0, 65535, 0), 0);
    assert_eq!(lds::height::to_range(0, 65535, 65535), 65535);
    assert_eq!(lds::height::to_range(0, 65535, 12345), 12345);
    assert_eq!(lds::height::to_range(0, 100, 65535), 100);
    assert_eq!(lds::height::to_range(-100, 100, 0), -100);

    assert_eq!(lds::height::luma_of_height(0), 0);
    assert_eq!(lds::height::luma_of_height(65535), 255);
    assert_eq!(lds::height::luma_of_height(32768), 127);
    assert_eq!(lds::height::luma_of_height(-5), 0);
    assert_eq!(lds::height::luma_of_height(1_000_000), 255);

    assert_eq!(lds::height::avg4(2, 4, 6, 8), 5);
    assert_eq!(lds::height::avg4(-1, -1, -1, -1), -1);
    assert_eq!(lds::height::avg4(0, 0, 0, -1), -1);
    assert_eq!(lds::height::div_down(-7, 2), -4);
    assert_eq!(lds::height::div_down(7, 2), 3);

    // Roughness zero keeps the average; roughness one keeps the sample.
    assert_eq!(lds::height::mix(0, 999, 5000), 5000);
    assert_eq!(lds::height::mix(65535, 999, 5000), 999);
}
