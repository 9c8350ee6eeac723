//! Tests for the grid solver: construction, the wind-tunnel preset,
//! projection, and sampling.

use flowfield::fixed::SCALE;
use flowfield::fluid_model::{FieldType, FLUID, SOLID};
use flowfield::fluid_vec::FluidSim;
use flowfield::vector::Vec2Fx;

fn idx(sim: &FluidSim, i: usize, j: usize) -> usize {
    i * sim.grid_height + j
}

fn divergence(sim: &FluidSim, i: usize, j: usize) -> i64 {
    sim.velocities_x[idx(sim, i + 1, j)] - sim.velocities_x[idx(sim, i, j)]
        + sim.velocities_y[idx(sim, i, j + 1)] - sim.velocities_y[idx(sim, i, j)]
}

fn s_sum(sim: &FluidSim, i: usize, j: usize) -> u32 {
    sim.cell_kind[idx(sim, i - 1, j)] + sim.cell_kind[idx(sim, i + 1, j)]
        + sim.cell_kind[idx(sim, i, j - 1)] + sim.cell_kind[idx(sim, i, j + 1)]
}

#[test]
fn new_grid_outer_ring_is_solid() {
    for (w, h) in [(3usize, 3usize), (10, 10), (7, 12)] {
        let sim = FluidSim::new(w, h, SCALE, SCALE);
        for i in 0..w {
            for j in 0..h {
                let boundary = i == 0 || i == w - 1 || j == 0 || j == h - 1;
                let kind = sim.cell_kind[idx(&sim, i, j)];
                if boundary {
                    assert_eq!(kind, SOLID, "cell ({i},{j}) of {w}x{h}");
                } else {
                    assert_eq!(kind, FLUID, "cell ({i},{j}) of {w}x{h}");
                }
            }
        }
    }
}

#[test]
fn new_grid_fields_start_at_zero() {
    let sim = FluidSim::new(6, 5, SCALE, SCALE);
    assert_eq!(sim.velocities_x.len(), 30);
    assert!(sim.velocities_x.iter().all(|&v| v == 0));
    assert!(sim.velocities_y.iter().all(|&v| v == 0));
    assert!(sim.pressures.iter().all(|&v| v == 0));
    assert!(sim.smoke.iter().all(|&v| v == 0));
}

#[test]
fn wind_tunnel_sets_inflow_and_outflow_columns() {
    let mut sim = FluidSim::new(20, 12, SCALE, SCALE);
    sim.setup_wind_tunnel(2 * SCALE);
    for j in 0..12 {
        assert_eq!(sim.velocities_x[idx(&sim, 0, j)], 2 * SCALE);
        assert_eq!(sim.velocities_x[idx(&sim, 19, j)], -2 * SCALE);
    }
}

#[test]
fn wind_tunnel_rows_and_obstacle_are_solid() {
    let mut sim = FluidSim::new(20, 12, SCALE, SCALE);
    sim.setup_wind_tunnel(2 * SCALE);
    for i in 0..20 {
        assert_eq!(sim.cell_kind[idx(&sim, i, 0)], SOLID);
        assert_eq!(sim.cell_kind[idx(&sim, i, 11)], SOLID);
    }
    // The obstacle column sits ten cells in from the right edge, five rows
    // centered at mid-height.
    for j in 4..=8 {
        assert_eq!(sim.cell_kind[idx(&sim, 10, j)], SOLID, "obstacle row {j}");
    }
    // The inlet and outlet columns are fluid away from the solid rows.
    for j in 1..11 {
        assert_eq!(sim.cell_kind[idx(&sim, 0, j)], FLUID);
        assert_eq!(sim.cell_kind[idx(&sim, 19, j)], FLUID);
    }
}

#[test]
fn wind_tunnel_seeds_smoke_band() {
    let mut sim = FluidSim::new(20, 12, SCALE, SCALE);
    sim.setup_wind_tunnel(2 * SCALE);
    // The band sits at row height - 3, centered on the middle column with
    // radius five.
    for i in 5..15 {
        assert_eq!(sim.smoke[idx(&sim, i, 9)], SCALE, "band column {i}");
    }
    assert_eq!(sim.smoke[idx(&sim, 4, 9)], 0);
    assert_eq!(sim.smoke[idx(&sim, 15, 9)], 0);
}

#[test]
fn integrate_adds_gravity_only_between_fluid_cells() {
    let mut sim = FluidSim::new(5, 5, SCALE, SCALE);
    let dt = 1_000;
    sim.integrate(dt, Vec2Fx { x: 0, y: -9_800_000 });
    // gravity.y * dt = -9.8 * 0.001 = -0.0098 in real units.
    let step = -9_800;
    for i in 1..4 {
        for j in 1..4 {
            let expect = if j >= 2 { step } else { 0 };
            assert_eq!(sim.velocities_y[idx(&sim, i, j)], expect, "cell ({i},{j})");
        }
    }
    // Boundary faces never receive gravity.
    for t in 0..5 {
        assert_eq!(sim.velocities_y[idx(&sim, 0, t)], 0);
        assert_eq!(sim.velocities_y[idx(&sim, t, 0)], 0);
    }
}

#[test]
fn pressure_reset_then_projection_leaves_enclosed_cell_at_zero() {
    // A 5x5 grid whose center cell is walled in on all four sides.
    let mut sim = FluidSim::new(5, 5, SCALE, SCALE);
    for (i, j) in [(1usize, 2usize), (3, 2), (2, 1), (2, 3)] {
        let k = idx(&sim, i, j);
        sim.cell_kind[k] = SOLID;
    }
    // Give it stored velocity so a bug that processed it would show.
    {
        let k = idx(&sim, 2, 2);
        sim.velocities_x[k] = 7 * SCALE;
    }
    {
        let k = idx(&sim, 3, 2);
        sim.velocities_x[k] = -7 * SCALE;
    }
    sim.simulate(1_000, Vec2Fx { x: 0, y: -9_800_000 }, 30);
    assert_eq!(s_sum(&sim, 2, 2), 0);
    assert_eq!(sim.pressures[idx(&sim, 2, 2)], 0);
}

#[test]
fn projection_shrinks_divergence_at_a_disturbed_cell() {
    let mut sim = FluidSim::new(6, 6, SCALE, SCALE);
    // A strong outflow at cell (2, 2).
    {
        let k = idx(&sim, 3, 2);
        sim.velocities_x[k] = SCALE;
    }
    let before = divergence(&sim, 2, 2);
    assert_eq!(before, SCALE);
    sim.solve_incompressibility(1, 1_000);
    let after = divergence(&sim, 2, 2);
    assert!(
        after.abs() < before.abs(),
        "divergence magnitude grew: {before} -> {after}"
    );
}

#[test]
fn still_gravity_tick_leaves_interior_divergence_small() {
    // A 10x10 grid, unit cell size and density, one tick of gravity with
    // twenty projection sweeps: every interior cell with four FLUID
    // neighbors ends with divergence under a small tolerance. Twenty sweeps
    // at over-relaxation 1.9 contract the boundary-row divergence by about
    // 0.9 per sweep, so five thousandths is the tight bound they reach.
    let mut sim = FluidSim::new(10, 10, SCALE, SCALE);
    sim.simulate(1_000, Vec2Fx { x: 0, y: -9_800_000 }, 20);
    let tolerance = SCALE / 200;
    for i in 1..9 {
        for j in 1..9 {
            if s_sum(&sim, i, j) == 4 {
                let d = divergence(&sim, i, j);
                assert!(
                    d.abs() < tolerance,
                    "divergence {d} at ({i},{j}) exceeds {tolerance}"
                );
            }
        }
    }
}

#[test]
fn sample_at_exact_sample_point_returns_stored_value() {
    let mut sim = FluidSim::new(8, 8, SCALE, SCALE);
    let h2 = SCALE / 2;
    {
        let k = idx(&sim, 3, 4);
        sim.velocities_x[k] = 123_456;
    }
    {
        let k = idx(&sim, 2, 5);
        sim.velocities_y[k] = -654_321;
    }
    {
        let k = idx(&sim, 4, 4);
        sim.smoke[k] = 777_777;
    }
    // The x-velocity sample of cell (i, j) sits at (i*h, j*h + h/2).
    let u = sim.sample_field(3 * SCALE, 4 * SCALE + h2, FieldType::U);
    assert_eq!(u, 123_456);
    // The y-velocity sample sits at (i*h + h/2, j*h).
    let v = sim.sample_field(2 * SCALE + h2, 5 * SCALE, FieldType::V);
    assert_eq!(v, -654_321);
    // The smoke sample sits at the cell center.
    let s = sim.sample_field(4 * SCALE + h2, 4 * SCALE + h2, FieldType::S);
    assert_eq!(s, 777_777);
}

#[test]
fn sample_midway_between_samples_is_their_average() {
    let mut sim = FluidSim::new(8, 8, SCALE, SCALE);
    {
        let k = idx(&sim, 3, 3);
        sim.smoke[k] = 400_000;
    }
    {
        let k = idx(&sim, 4, 3);
        sim.smoke[k] = 600_000;
    }
    let h2 = SCALE / 2;
    // Halfway between the centers of (3,3) and (4,3).
    let s = sim.sample_field(4 * SCALE, 3 * SCALE + h2, FieldType::S);
    assert_eq!(s, 500_000);
}

#[test]
fn sample_clamps_positions_outside_the_grid() {
    let mut sim = FluidSim::new(8, 8, SCALE, SCALE);
    {
        let k = idx(&sim, 1, 1);
        sim.smoke[k] = 900_000;
    }
    let far_left = sim.sample_field(-50 * SCALE, SCALE + SCALE / 2, FieldType::S);
    let at_edge = sim.sample_field(SCALE, SCALE + SCALE / 2, FieldType::S);
    assert_eq!(far_left, at_edge);
}

#[test]
fn extrapolate_copies_interior_rows_and_columns_outward() {
    let mut sim = FluidSim::new(5, 5, SCALE, SCALE);
    for i in 0..5 {
        {
        let k = idx(&sim, i, 1);
        sim.velocities_x[k] = 11_000 + i as i64;
    }
        {
        let k = idx(&sim, i, 3);
        sim.velocities_x[k] = 33_000 + i as i64;
    }
    }
    for j in 0..5 {
        {
        let k = idx(&sim, 1, j);
        sim.velocities_y[k] = 44_000 + j as i64;
    }
        {
        let k = idx(&sim, 3, j);
        sim.velocities_y[k] = 55_000 + j as i64;
    }
    }
    sim.extrapolate();
    for i in 0..5 {
        assert_eq!(sim.velocities_x[idx(&sim, i, 0)], 11_000 + i as i64);
        assert_eq!(sim.velocities_x[idx(&sim, i, 4)], 33_000 + i as i64);
    }
    for j in 0..5 {
        assert_eq!(sim.velocities_y[idx(&sim, 0, j)], 44_000 + j as i64);
        assert_eq!(sim.velocities_y[idx(&sim, 4, j)], 55_000 + j as i64);
    }
}

#[test]
fn advect_smoke_keeps_value_when_sample_is_zero() {
    let mut sim = FluidSim::new(6, 6, SCALE, SCALE);
    // Still fluid, one smoky cell: the backtrace lands on the same cell, and
    // neighboring cells sample zero, which must not overwrite them.
    {
        let k = idx(&sim, 2, 2);
        sim.smoke[k] = 800_000;
    }
    sim.advect_smoke(1_000);
    assert_eq!(sim.smoke[idx(&sim, 2, 2)], 800_000);
    assert_eq!(sim.smoke[idx(&sim, 3, 3)], 0);
}
