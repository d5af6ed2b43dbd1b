use kopek::noise::{Noise, NoiseGenerator, NoiseType};
use kopek::UNITY;

#[test]
fn uniform_noise_stays_in_range() {
    let mut n = Noise::new();
    let bound = UNITY as i32;
    let mut distinct = std::collections::HashSet::new();
    for _ in 0..1000 {
        let v = n.rand_noise();
        assert!(-bound <= v && v <= bound);
        distinct.insert(v);
    }
    assert!(distinct.len() > 1);
}

#[test]
fn noise_type_codes() {
    assert_eq!(NoiseType::from_u8(0), Some(NoiseType::Silent));
    assert_eq!(NoiseType::from_u8(1), Some(NoiseType::Random));
    assert_eq!(NoiseType::from_u8(2), Some(NoiseType::White));
    assert_eq!(NoiseType::from_u8(3), None);
    assert_eq!(NoiseType::from_u8(255), None);
}

#[test]
fn generator_follows_its_kind() {
    let mut g = NoiseGenerator::new();
    assert_eq!(g.noise_type, NoiseType::Silent);
    assert_eq!(g.run(), Some(0));
    *g.noise_type_mut() = NoiseType::Random;
    let v = g.run().unwrap();
    assert!(-(UNITY as i32) <= v && v <= UNITY as i32);
    g.noise_type = NoiseType::White;
    assert_eq!(g.run(), None);
}
