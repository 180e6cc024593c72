use raysnail::random::{FastRng, Random};
use raysnail::shading::{Glass, SpherePdf};

#[test]
fn irange_stays_in_range() {
    let mut rng = FastRng::new();
    for _ in 0..1000 {
        let x = rng.irange(3, 7);
        assert!((3..7).contains(&x));
    }
    assert_eq!(rng.irange(5, 6), 5);
}

#[test]
fn seeded_generators_repeat() {
    let mut a = FastRng::with_seed(42);
    let mut b = FastRng::with_seed(42);
    for _ in 0..10 {
        assert_eq!(a.next_u64(), b.next_u64());
    }
}

#[test]
fn irange_hits_every_value() {
    let mut rng = FastRng::with_seed(7);
    let mut seen = [false; 4];
    for _ in 0..200 {
        seen[rng.irange(0, 4)] = true;
    }
    assert!(seen.iter().all(|s| *s));
}

#[test]
fn random_range_and_pick() {
    for _ in 0..100 {
        let x = Random::range(0..2);
        assert!(x < 2);
    }
    let v = [10, 20, 30];
    let p = *Random::pick(&v);
    assert!(v.contains(&p));
}

#[test]
fn shuffle_keeps_elements() {
    let mut v: Vec<u32> = (0..50).collect();
    Random::shuffle(&mut v);
    let mut s = v.clone();
    s.sort();
    assert_eq!(s, (0..50).collect::<Vec<u32>>());
}

#[test]
fn unit_types_construct() {
    let _ = SpherePdf::new();
    let _ = Glass {};
}
