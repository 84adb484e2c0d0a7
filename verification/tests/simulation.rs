use orbiter_field::field::{
    padded_span, trail_endpoint, update, Orbiter, Point, RECT_PAD, SCALE, SPEED_INCREMENT, TRAIL,
};
use orbiter_field::rng::PcgRng;
use orbiter_field::sim::{
    reset, Simulation, RELOAD_FRAME_INTERVAL, SIZE, WINDOW_HEIGHT, WINDOW_WIDTH,
};

fn orbiter_at(x: i64, y: i64) -> Orbiter {
    Orbiter { pos: Point { x, y }, speed: Point { x: 0, y: 0 } }
}

#[test]
fn two_orbiters_exact_step() {
    // ten and twenty pixels on x, tied on y
    let mut v: Vec<Orbiter> = vec![orbiter_at(10 * SCALE, 0), orbiter_at(20 * SCALE, 0)];
    update(&mut v);
    assert_eq!(v[0].speed, Point { x: -SPEED_INCREMENT, y: 0 });
    assert_eq!(v[1].speed, Point { x: SPEED_INCREMENT, y: 0 });
    // 9.9935 and 20.0065 pixels, exactly, in fixed point
    assert_eq!(v[0].pos, Point { x: 99935, y: 0 });
    assert_eq!(v[1].pos, Point { x: 200065, y: 0 });
}

#[test]
fn tied_orbiters_do_not_move() {
    let mut v: Vec<Orbiter> = vec![orbiter_at(5, 5), orbiter_at(5, 5)];
    update(&mut v);
    assert_eq!(v[0], orbiter_at(5, 5));
    assert_eq!(v[1], orbiter_at(5, 5));
}

#[test]
fn self_pair_is_a_no_op() {
    let mut v: Vec<Orbiter> = vec![orbiter_at(123, 456)];
    update(&mut v);
    assert_eq!(v[0], orbiter_at(123, 456));
}

#[test]
fn integration_adds_the_new_velocity() {
    let mut v: Vec<Orbiter> =
        vec![Orbiter { pos: Point { x: 1000, y: 2000 }, speed: Point { x: 5, y: -7 } }];
    update(&mut v);
    assert_eq!(v[0].speed, Point { x: 5, y: -7 });
    assert_eq!(v[0].pos, Point { x: 1005, y: 1993 });
}

#[test]
fn three_orbiters_sum_their_nudges() {
    let mut v: Vec<Orbiter> =
        vec![orbiter_at(100000, 0), orbiter_at(200000, 0), orbiter_at(300000, 0)];
    update(&mut v);
    assert_eq!(v[0].speed.x, -2 * SPEED_INCREMENT);
    assert_eq!(v[1].speed.x, 0);
    assert_eq!(v[2].speed.x, 2 * SPEED_INCREMENT);
    assert_eq!(v[0].speed.y, 0);
    assert_eq!(v[1].speed.y, 0);
    assert_eq!(v[2].speed.y, 0);
}

#[test]
fn reset_zeroes_speed_and_bounds_positions() {
    let mut rng: PcgRng = PcgRng::new(2024);
    let mut v: Vec<Orbiter> =
        vec![Orbiter { pos: Point { x: -5_000_000, y: 99 }, speed: Point { x: 33, y: -44 } }; 32];
    reset(&mut v, &mut rng);
    assert_eq!(v.len(), 32);
    for o in &v {
        assert_eq!(o.speed, Point { x: 0, y: 0 });
        assert!(0 <= o.pos.x && o.pos.x < (WINDOW_WIDTH as i64) * SCALE);
        assert!(0 <= o.pos.y && o.pos.y < (WINDOW_HEIGHT as i64) * SCALE);
        assert_eq!(o.pos.x % SCALE, 0);
        assert_eq!(o.pos.y % SCALE, 0);
    }
}

#[test]
fn new_simulation_is_full_and_primed() {
    let sim: Simulation = Simulation::new(1);
    assert_eq!(sim.orbiters.len(), SIZE);
    assert_eq!(sim.reset_counter, RELOAD_FRAME_INTERVAL);
    for o in &sim.orbiters {
        assert_eq!(*o, Orbiter { pos: Point { x: 0, y: 0 }, speed: Point { x: 0, y: 0 } });
    }
}

#[test]
fn reset_cycle_has_exact_period() {
    let mut sim: Simulation = Simulation::new(77);
    // the primed counter makes the very first frame a reset
    sim.frame();
    assert_eq!(sim.reset_counter, 0);
    // then exactly RELOAD_FRAME_INTERVAL update frames follow
    for i in 1..=RELOAD_FRAME_INTERVAL {
        sim.frame();
        assert_eq!(sim.reset_counter, i);
    }
    // and the very next frame resets again
    sim.frame();
    assert_eq!(sim.reset_counter, 0);
    // a full further cycle holds exactly one reset
    let mut resets: u32 = 0;
    for _ in 0..=RELOAD_FRAME_INTERVAL {
        sim.frame();
        if sim.reset_counter == 0 {
            resets += 1;
        }
    }
    assert_eq!(resets, 1);
}

#[test]
fn frame_between_resets_is_one_update_pass() {
    let mut sim: Simulation = Simulation::new(5);
    sim.frame();
    let before: Vec<Orbiter> = sim.orbiters.clone();
    sim.frame();
    let mut expected: Vec<Orbiter> = before.clone();
    update(&mut expected);
    assert_eq!(sim.orbiters, expected);
}

#[test]
fn trail_endpoint_scales_velocity() {
    let o: Orbiter = Orbiter { pos: Point { x: 100, y: 200 }, speed: Point { x: 3, y: -4 } };
    let p: Point = trail_endpoint(&o);
    assert_eq!(p, Point { x: 100 - 3 * TRAIL, y: 200 + 4 * TRAIL });
}

#[test]
fn padded_span_orders_and_pads() {
    assert_eq!(padded_span(5, 9, 2), (3, 11));
    assert_eq!(padded_span(9, 5, 2), (3, 11));
    assert_eq!(padded_span(4, 4, RECT_PAD), (4 - RECT_PAD, 4 + RECT_PAD));
}
