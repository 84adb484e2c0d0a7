use orbiter_field::rng::{
    get_seconds, negate_u32, pcg_32, pcg_32_bound, PcgRng, PCG_SEED_MULTIPLIER,
};

#[test]
fn negate_zero_and_small() {
    assert_eq!(negate_u32(0), 0);
    assert_eq!(negate_u32(1), u32::MAX);
    assert_eq!(negate_u32(5), 4294967291);
    assert_eq!(negate_u32(5).wrapping_add(5), 0);
}

#[test]
fn seeded_state_is_seed_times_multiplier() {
    let rng: PcgRng = PcgRng::new(42);
    assert_eq!(rng.state, 42u64.wrapping_mul(PCG_SEED_MULTIPLIER));
    assert_eq!(rng.state, 15844824363445288302);
    assert_eq!(rng.increment, rng.state);
}

#[test]
fn pcg_32_known_sequence() {
    let mut rng: PcgRng = PcgRng::new(42);
    assert_eq!(pcg_32(&mut rng), 2426722415);
    assert_eq!(pcg_32(&mut rng), 605934315);
    assert_eq!(pcg_32(&mut rng), 2711954346);
    assert_eq!(pcg_32(&mut rng), 516720579);
}

#[test]
fn pcg_32_advances_state_by_the_stated_formula() {
    let mut rng: PcgRng = PcgRng { state: 1, increment: 1 };
    assert_eq!(pcg_32(&mut rng), 0);
    assert_eq!(
        rng.state,
        1u64.wrapping_mul(6_364_136_223_846_793_005).wrapping_add(1)
    );
    assert_eq!(pcg_32(&mut rng), 3837872008);
}

#[test]
fn pcg_32_deterministic_for_equal_seeds() {
    let mut a: PcgRng = PcgRng::new(7);
    let mut b: PcgRng = PcgRng::new(7);
    for _ in 0..100u32 {
        assert_eq!(pcg_32(&mut a), pcg_32(&mut b));
    }
}

#[test]
fn bounded_draws_stay_below_bound() {
    let mut rng: PcgRng = PcgRng::new(12345);
    for _ in 0..5000u32 {
        let v: u32 = pcg_32_bound(&mut rng, 768);
        assert!(v < 768);
    }
}

#[test]
fn bounded_draws_roughly_uniform() {
    let mut rng: PcgRng = PcgRng::new(12345);
    let mut buckets: [u32; 10] = [0; 10];
    for _ in 0..10000u32 {
        let v: u32 = pcg_32_bound(&mut rng, 10);
        buckets[v as usize] += 1;
    }
    for count in buckets {
        assert!(900 <= count && count <= 1100);
    }
}

#[test]
fn bounded_draw_with_bound_one_is_zero() {
    let mut rng: PcgRng = PcgRng::new(99);
    for _ in 0..100u32 {
        assert_eq!(pcg_32_bound(&mut rng, 1), 0);
    }
}

#[test]
fn clock_seconds_are_positive() {
    assert!(get_seconds() > 0);
}
