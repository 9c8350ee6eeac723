//! Tests for the glyph exporter, the orientation derivation, the analytic
//! driver, and the fixed-point scalar operations.

use flowfield::fixed::{cos_fx, floor_div, fx_add, fx_div, fx_mul, fx_sub, isqrt, FX_MAX, HALF_PI_FX, PI_FX, SCALE};
use flowfield::fluid_vec::FluidSim;
use flowfield::state::State;
use flowfield::vector::{normalize, Mat3Fx, Vec3Fx, Vector};

fn vec3(x: i64, y: i64, z: i64) -> Vec3Fx {
    Vec3Fx { x, y, z }
}

#[test]
fn fixed_ops_compute_exact_scaled_results() {
    // 1.5 * 2.0 == 3.0
    assert_eq!(fx_mul(1_500_000, 2_000_000), 3_000_000);
    // 1.0 / 4.0 == 0.25
    assert_eq!(fx_div(SCALE, 4 * SCALE), 250_000);
    assert_eq!(fx_add(300_000, -500_000), -200_000);
    assert_eq!(fx_sub(300_000, 500_000), -200_000);
}

#[test]
fn fixed_ops_saturate_at_the_range_bound() {
    assert_eq!(fx_add(FX_MAX, FX_MAX), FX_MAX);
    assert_eq!(fx_sub(-FX_MAX, FX_MAX), -FX_MAX);
    assert_eq!(fx_mul(FX_MAX, FX_MAX), FX_MAX);
}

#[test]
fn floor_div_rounds_toward_negative_infinity() {
    assert_eq!(floor_div(7, 2), 3);
    assert_eq!(floor_div(-7, 2), -4);
    assert_eq!(floor_div(-8, 2), -4);
}

#[test]
fn isqrt_brackets_the_true_root() {
    assert_eq!(isqrt(0), 0);
    assert_eq!(isqrt(1), 1);
    assert_eq!(isqrt(15), 3);
    assert_eq!(isqrt(16), 4);
    assert_eq!(isqrt(1_000_000_000_000), 1_000_000);
}

#[test]
fn cosine_hits_the_cardinal_angles() {
    assert_eq!(cos_fx(0), SCALE);
    assert_eq!(cos_fx(PI_FX), -SCALE);
    assert!(cos_fx(HALF_PI_FX).abs() < 2_000, "cos of a quarter turn: {}", cos_fx(HALF_PI_FX));
    // One full turn later the value repeats, up to the rounding of the turn
    // constant.
    let one = cos_fx(500_000);
    let again = cos_fx(500_000 + 6_283_185);
    assert!((one - again).abs() < 100);
}

#[test]
fn normalize_produces_a_unit_vector() {
    let n = normalize(vec3(3 * SCALE, 0, 4 * SCALE));
    assert_eq!(n.x, 600_000);
    assert_eq!(n.y, 0);
    assert_eq!(n.z, 800_000);
    let z = normalize(vec3(0, 0, 0));
    assert_eq!(z, vec3(0, 0, 0));
}

#[test]
fn rotation_is_identity_for_up_and_flip_for_down() {
    let up = Vector::new(vec3(0, 0, 0), vec3(0, SCALE, 0), SCALE);
    assert_eq!(up.rotation.x, vec3(SCALE, 0, 0));
    assert_eq!(up.rotation.y, vec3(0, SCALE, 0));
    assert_eq!(up.rotation.z, vec3(0, 0, SCALE));
    let down = Vector::new(vec3(0, 0, 0), vec3(0, -SCALE, 0), SCALE);
    assert_eq!(down.rotation.x, vec3(SCALE, 0, 0));
    assert_eq!(down.rotation.y, vec3(0, -SCALE, 0));
    assert_eq!(down.rotation.z, vec3(0, 0, -SCALE));
}

#[test]
fn rotation_maps_up_onto_the_direction() {
    // For direction x, the rotation's middle column is the direction itself.
    let v = Vector::new(vec3(0, 0, 0), vec3(SCALE, 0, 0), SCALE);
    let m = v.rotation;
    // Column 1 of the matrix is the image of the up axis.
    assert_eq!(m.x.y, SCALE);
    assert_eq!(m.y.y, 0);
    assert_eq!(m.z.y, 0);
}

#[test]
fn rotation_recomputation_is_idempotent() {
    let mut v = Vector::new(vec3(SCALE, 0, 0), vec3(700_000, 100_000, -300_000), SCALE / 2);
    let first: Mat3Fx = v.rotation;
    v.update_rotation();
    assert_eq!(v.rotation, first);
    v.update_rotation();
    assert_eq!(v.rotation, first);
}

#[test]
fn all_solid_grid_exports_only_wall_markers() {
    // A 2x2 grid is entirely outer ring, hence entirely SOLID.
    let mut sim = FluidSim::new(2, 2, SCALE, SCALE);
    sim.velocities_x[0] = 123;
    sim.smoke[3] = 456_789;
    let glyphs = sim.to_vectors();
    assert_eq!(glyphs.len(), 4);
    for g in &glyphs {
        assert_eq!(g.direction, vec3(0, -SCALE, 0));
        assert_eq!(g.magnitude, 5 * SCALE);
        assert_eq!(g.rotation.y, vec3(0, -SCALE, 0));
    }
}

#[test]
fn larger_all_solid_grid_exports_only_wall_markers() {
    let mut sim = FluidSim::new(4, 4, SCALE, SCALE);
    for k in 0..16 {
        sim.cell_kind[k] = 0;
        sim.velocities_x[k] = 999_999;
        sim.smoke[k] = 321;
    }
    for g in &sim.to_vectors() {
        assert_eq!(g.direction, vec3(0, -SCALE, 0));
        assert_eq!(g.magnitude, 5 * SCALE);
    }
}

#[test]
fn fluid_cells_export_normalized_velocity_and_smoke_magnitude() {
    let mut sim = FluidSim::new(4, 4, SCALE, SCALE);
    let k = 1 * 4 + 1;
    sim.velocities_x[k] = 3 * SCALE;
    sim.velocities_y[k] = 4 * SCALE;
    sim.smoke[k] = 250_000;
    let glyphs = sim.to_vectors();
    let g = glyphs[k];
    assert_eq!(g.start, vec3(SCALE, 0, SCALE));
    assert_eq!(g.direction, vec3(600_000, 0, 800_000));
    assert_eq!(g.magnitude, 250_000);
}

#[test]
fn driver_orients_glyphs_by_the_right_hand_rule() {
    // A glyph one unit along x from a source at the origin: the field of a
    // current along z points along negative y there, with inverse-square
    // magnitude ten.
    let glyph = Vector::new(vec3(SCALE, 0, 0), vec3(0, SCALE, 0), 0);
    let mut state = State::new(vec![glyph]);
    state.run_sim();
    let g = state.vectors[0];
    assert_eq!(g.direction, vec3(0, -SCALE, 0));
    assert_eq!(g.magnitude, 10 * SCALE);
    assert_eq!(g.start, vec3(SCALE, 0, 0));
}

#[test]
fn driver_floors_the_distance_at_the_source() {
    // A glyph sitting exactly on the source: distance is floored at a
    // hundredth, so the magnitude is ten over a hundredth, one thousand.
    let glyph = Vector::new(vec3(0, 0, 0), vec3(0, SCALE, 0), 0);
    let mut state = State::new(vec![glyph]);
    state.run_sim();
    assert_eq!(state.vectors[0].magnitude, 1_000 * SCALE);
}

#[test]
fn driver_advances_time_and_moves_the_source() {
    let mut state = State::new(vec![]);
    assert_eq!(state.time, 0);
    assert_eq!(state.particle_pos, vec3(0, 0, 0));
    state.run_sim();
    assert_eq!(state.time, 1_000);
    // The source oscillates along z with amplitude five; right after the
    // first step it is still close to five.
    assert_eq!(state.particle_pos.x, 0);
    assert_eq!(state.particle_pos.y, 0);
    assert!((state.particle_pos.z - 5 * SCALE).abs() < 100);
}

#[test]
fn driver_takes_fresh_glyphs_from_the_grid() {
    let sim = FluidSim::new(3, 3, SCALE, SCALE);
    let mut state = State::new(vec![]);
    state.update_vectors_from_sim(&sim);
    assert_eq!(state.vectors.len(), 9);
    // The center cell is FLUID with zero velocity and smoke.
    let center = state.vectors[4];
    assert_eq!(center.start, vec3(SCALE, 0, SCALE));
    assert_eq!(center.magnitude, 0);
}
