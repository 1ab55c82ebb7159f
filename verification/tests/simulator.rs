use fluid_simulation::fixed::SCALE;
use fluid_simulation::{AccelerometerData, BeerSimulator, Fx};

/// A whole number of units as a fixed-point scalar.
fn fx(units: i64) -> Fx {
    Fx::from_raw(units * SCALE)
}

fn accel(x: i64, y: i64, z: i64) -> AccelerometerData {
    AccelerometerData { x: fx(x), y: fx(y), z: fx(z) }
}

#[test]
fn construction_creates_ten_resting_particles_on_the_midline() {
    let sim = BeerSimulator::new(fx(100), fx(50));
    let st = sim.get_state(None);
    assert_eq!(st.particles.len(), 10);
    for p in &st.particles {
        assert_eq!(p.y.raw, 25 * SCALE);
        assert_eq!(p.vx.raw, 0);
        assert_eq!(p.vy.raw, 0);
    }
    for (i, p) in st.particles.iter().enumerate() {
        // x_i = i * (width / 10) + width / 20
        assert_eq!(p.x.raw, (i as i64) * 10 * SCALE + 5 * SCALE);
        assert!(0 <= p.x.raw && p.x.raw <= 100 * SCALE);
    }
    for w in st.particles.windows(2) {
        assert_eq!(w[1].x.raw - w[0].x.raw, 10 * SCALE);
        assert!(w[0].x.raw < w[1].x.raw);
    }
}

#[test]
fn particles_stay_inside_the_area_under_extreme_readings() {
    let mut sim = BeerSimulator::new(fx(100), fx(100));
    let readings = [
        (-1000, -1000, 0),
        (1000, 1000, 1000),
        (-1000, 777, -3),
        (999, -999, 12),
        (0, 0, 0),
        (1, -1, 1),
    ];
    for _round in 0..20 {
        for &(x, y, z) in &readings {
            sim.update(Some(accel(x, y, z)), Fx::from_raw(16_000));
            let st = sim.get_state(None);
            assert_eq!(st.particles.len(), 10);
            for p in &st.particles {
                assert!(0 <= p.x.raw && p.x.raw <= 100 * SCALE);
                assert!(0 <= p.y.raw && p.y.raw <= 100 * SCALE);
            }
        }
    }
}

#[test]
fn reflection_at_the_left_wall_damps_the_velocity() {
    let mut sim = BeerSimulator::new(fx(100), fx(100));
    // Particle 0 starts at x = 5. Reading x = 60 gives it vx = -6, so it
    // would land at x = -1: it must stop at the wall with vx = 3.
    sim.update(Some(accel(60, 0, 0)), Fx::from_raw(16_000));
    let st = sim.get_state(None);
    assert_eq!(st.particles[0].x.raw, 0);
    assert_eq!(st.particles[0].vx.raw, 3 * SCALE);
    // Particle 1 started at x = 15 and just drifts to 9.
    assert_eq!(st.particles[1].x.raw, 9 * SCALE);
    assert_eq!(st.particles[1].vx.raw, -6 * SCALE);
}

#[test]
fn tilt_angles_are_clamped_to_their_maxima() {
    let sim = BeerSimulator::new(fx(100), fx(100));
    let st = sim.get_state(Some(accel(1000, 0, 0)));
    assert_eq!(st.tilt_z_deg.raw, -45 * SCALE);
    let st = sim.get_state(Some(accel(-1000, 0, 0)));
    assert_eq!(st.tilt_z_deg.raw, 45 * SCALE);
    let st = sim.get_state(Some(accel(0, 1000, 0)));
    assert_eq!(st.tilt_x_deg.raw, 35 * SCALE);
    let st = sim.get_state(Some(accel(0, -1000, 0)));
    assert_eq!(st.tilt_x_deg.raw, -35 * SCALE);
    // In-range readings come through unclamped: tilt = 5 * reading.
    let st = sim.get_state(Some(accel(2, -3, 0)));
    assert_eq!(st.tilt_z_deg.raw, -10 * SCALE);
    assert_eq!(st.tilt_x_deg.raw, -15 * SCALE);
}

#[test]
fn undecodable_sample_defaults_tilt_and_still_reports_particles() {
    let mut sim = BeerSimulator::new(fx(100), fx(100));
    sim.update(Some(accel(7, -4, 2)), Fx::from_raw(16_000));
    let with_sample = sim.get_state(Some(accel(7, -4, 2)));
    let without = sim.get_state(None);
    assert_eq!(without.tilt_x_deg.raw, 0);
    assert_eq!(without.tilt_z_deg.raw, 0);
    assert_eq!(without.particles.len(), 10);
    for (a, b) in without.particles.iter().zip(with_sample.particles.iter()) {
        assert_eq!(a.x.raw, b.x.raw);
        assert_eq!(a.y.raw, b.y.raw);
        assert_eq!(a.vx.raw, b.vx.raw);
        assert_eq!(a.vy.raw, b.vy.raw);
    }
}

#[test]
fn undecodable_sample_leaves_update_a_no_op() {
    let mut sim = BeerSimulator::new(fx(100), fx(100));
    sim.update(Some(accel(3, 1, 0)), Fx::from_raw(16_000));
    let before = sim.get_state(None);
    sim.update(None, Fx::from_raw(16_000));
    let after = sim.get_state(None);
    for (a, b) in before.particles.iter().zip(after.particles.iter()) {
        assert_eq!(a.x.raw, b.x.raw);
        assert_eq!(a.y.raw, b.y.raw);
        assert_eq!(a.vx.raw, b.vx.raw);
        assert_eq!(a.vy.raw, b.vy.raw);
    }
}

#[test]
fn snapshot_is_isolated_from_the_simulator() {
    let sim = BeerSimulator::new(fx(100), fx(100));
    let mut st = sim.get_state(None);
    let saved_x0 = st.particles[0].x.raw;
    st.particles[0].x = fx(93);
    st.particles.clear();
    let again = sim.get_state(None);
    assert_eq!(again.particles.len(), 10);
    assert_eq!(again.particles[0].x.raw, saved_x0);
}

#[test]
fn scenario_single_update_then_get_state() {
    let mut sim = BeerSimulator::new(fx(100), fx(100));
    let a = accel(10, 0, 0);
    sim.update(Some(a), Fx::from_raw(16_000));
    let st = sim.get_state(Some(a));
    // Raw tilt about z would be -50 degrees; it clamps to -45.
    assert_eq!(st.tilt_z_deg.raw, -45 * SCALE);
    assert_eq!(st.tilt_x_deg.raw, 0);
    // Particle 0: vx = -10 * 0.1 = -1, x drops from 5 to 4.
    assert_eq!(st.particles[0].vx.raw, -SCALE);
    assert_eq!(st.particles[0].x.raw, 4 * SCALE);
    assert!(0 <= st.particles[0].x.raw && st.particles[0].x.raw <= 100 * SCALE);
}

#[test]
fn greet_embeds_name_and_whole_dimensions() {
    let sim = BeerSimulator::new(fx(100), fx(100));
    assert_eq!(
        sim.greet("Tester"),
        "Hello from Rust WASM, Tester! Simulator ready for 100x100 area."
    );
}

#[test]
fn greet_renders_fractional_dimensions_without_trailing_zeros() {
    let sim = BeerSimulator::new(Fx::from_raw(2_500_000), Fx::from_raw(10_000_001));
    assert_eq!(
        sim.greet("x"),
        "Hello from Rust WASM, x! Simulator ready for 2.5x10.000001 area."
    );
    let sim = BeerSimulator::new(Fx::from_raw(123), Fx::from_raw(1_000_000_000));
    assert_eq!(
        sim.greet(""),
        "Hello from Rust WASM, ! Simulator ready for 0.000123x1000 area."
    );
}
