use lazy_diamond_square as lds;
use lds::HeightMap;
use lds::MAX_SIZE;
use lds::MIN_SIZE;

#[test]
fn max_coord() {
    let map = HeightMap::new(MIN_SIZE, 9830);

    assert_eq!(map.max_coord(), map.size() - 1);
}

#[test]
fn get() {
    let map = HeightMap::new(MIN_SIZE, 9830);

    assert_ne!(map.get(0, 0), None);
    assert_eq!(map.get(1, 0), None);
    assert_ne!(map.get(map.max_coord() + 1, 0), None);
}

#[test]
fn set() {
    let mut map = HeightMap::new(MIN_SIZE, 9830);

    assert_ne!(map.set(0, 0, Some(32768)), None);
    assert_eq!(map.set(1, 0, Some(32768)), None);

    assert_eq!(map.get(0, 0), Some(32768));
    assert_eq!(map.get(1, 0), Some(32768));
}

#[test]
fn gen() {
    let mut map = HeightMap::new(MIN_SIZE, 9830);

    map.set(1, 0, Some(32768));

    assert_eq!(map.gen(0, 0).0, map.get(0, 0));
    assert_eq!(map.gen(1, 0).0, map.get(1, 0));
    assert_eq!(map.gen(2, 0).0, map.get(2, 0));

    assert_ne!(map.get(0, 0), None);
    assert_eq!(map.get(1, 0), Some(32768));
    assert_ne!(map.get(2, 0), None);
}

#[test]
fn size_constants() {
    assert_eq!(MIN_SIZE, 9);
    assert_eq!(MAX_SIZE, 536_870_913);
}

#[test]
fn size_snapping() {
    assert_eq!(HeightMap::new(0, 0).size(), 9);
    assert_eq!(HeightMap::new(10, 0).size(), 9);
    assert_eq!(HeightMap::new(13, 0).size(), 17);
    assert_eq!(HeightMap::new(14, 0).size(), 17);
    assert_eq!(HeightMap::new(17, 0).size(), 17);
    assert_eq!(HeightMap::new(100, 0).size(), 129);
    // The upper clamp, checked without allocating the largest map.
    assert_eq!(lds::Builder::new(i32::MAX, 0).size, MAX_SIZE as u32);
    assert_eq!(lds::Builder::new(600_000_000, 0).size, MAX_SIZE as u32);
}

#[test]
fn roughness_clamping() {
    assert_eq!(HeightMap::new(9, 9830).roughness(), 9830);
    assert_eq!(HeightMap::new(9, -5).roughness(), 5);
    assert_eq!(HeightMap::new(9, 70_000).roughness(), 65_535);
    assert_eq!(HeightMap::new(9, -70_000).roughness(), 65_535);
}

#[test]
fn seed_from_string() {
    let map = HeightMap::new_with_seed(MIN_SIZE, 9830, "Kittens!");
    assert_eq!(map.seed(), seahash::hash(b"Kittens!"));
    assert!(!map.use_clock_seed());
}
