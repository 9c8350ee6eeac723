//! The staggered-grid incompressible-flow solver.
//!
//! A [`FluidSim`] owns flat per-cell arrays of cell kind, staggered
//! velocities, pressure and smoke, indexed by `i * grid_height + j`. Every
//! pass of the tick is proved equal to its transformer from
//! [`crate::fluid_model`], so `simulate` as a whole equals the composed
//! model [`simulate_m`].

use crate::fixed::{
    fx_add, fx_avg, fx_div, fx_in_range, fx_mul, fx_sub, lemma_div_span, FX_MAX, SCALE,
};
use crate::fluid_model::{
    advect_s_cell, advect_smoke_m, advect_u_cell, advect_v_cell, advect_vel_m, extrap_x_cell,
    extrap_y_cell, extrapolate_m, imin, integrate_cell, integrate_m, lemma_flat_in_grid,
    lemma_idx_bijective, new_kind_cell, new_m, pressure_scale, proj_cell, proj_col, proj_iters,
    proj_row, reset_pressure_m, sample_m, simulate_m, smoke_band_cell, smoke_band_m,
    wind_kind_cell, wind_tunnel_m, wind_vx_cell, FieldType, SimM, FLUID, H_MAX, MAX_DIM,
    OVER_RELAXATION, SOLID,
};
use crate::vector::{normalize, normalize_s, rotation_s, Vec2Fx, Vec3Fx, Vector, VectorV, V3};
use vstd::prelude::*;

verus! {

/// A staggered-grid fluid state: dimensions and cell size fixed at
/// construction, field arrays of length `grid_width * grid_height`.
pub struct FluidSim {
    pub grid_width: usize,
    pub grid_height: usize,
    pub cell_size: i64,
    pub density: i64,
    pub cell_kind: Vec<u32>,
    pub velocities_x: Vec<i64>,
    pub velocities_y: Vec<i64>,
    pub pressures: Vec<i64>,
    pub smoke: Vec<i64>,
}

impl View for FluidSim {
    type V = SimM;

    open spec fn view(&self) -> SimM {
        SimM {
            w: self.grid_width as int,
            h: self.grid_height as int,
            hs: self.cell_size as int,
            density: self.density as int,
            kind: self.cell_kind@,
            vx: self.velocities_x@.map_values(|v: i64| v as int),
            vy: self.velocities_y@.map_values(|v: i64| v as int),
            p: self.pressures@.map_values(|v: i64| v as int),
            smoke: self.smoke@.map_values(|v: i64| v as int),
        }
    }
}

/// A vector of `n` copies of one scalar.
fn filled_i64(n: usize, val: i64) -> (r: Vec<i64>)
    ensures
        r@.len() == n,
        forall|t: int| 0 <= t < n ==> r@[t] == val,
{
    let mut r: Vec<i64> = Vec::new();
    let mut k: usize = 0;
    while k < n
        invariant
            k <= n,
            r@.len() == k,
            forall|t: int| 0 <= t < k ==> r@[t] == val,
        decreases n - k,
    {
        r.push(val);
        k = k + 1;
    }
    r
}

impl FluidSim {
    pub open spec fn wf(self) -> bool {
        self@.wf()
    }

    /// Build a grid of the given dimensions: the outer ring of cells is
    /// SOLID, the interior FLUID, and all velocity, pressure and smoke
    /// fields start at zero.
    pub fn new(grid_width: usize, grid_height: usize, cell_size: i64, density: i64) -> (r:
        FluidSim)
        requires
            1 <= grid_width <= MAX_DIM,
            1 <= grid_height <= MAX_DIM,
            1 <= cell_size <= H_MAX,
            0 <= density <= FX_MAX,
        ensures
            r@ == new_m(grid_width as int, grid_height as int, cell_size as int, density as int),
            r.wf(),
    {
        proof {
            assert(grid_width * grid_height <= MAX_DIM * MAX_DIM) by (nonlinear_arith)
                requires
                    1 <= grid_width <= MAX_DIM,
                    1 <= grid_height <= MAX_DIM,
            ;
        }
        let total = grid_width * grid_height;
        let mut kind: Vec<u32> = Vec::new();
        let mut k: usize = 0;
        while k < total
            invariant
                k <= total,
                total == grid_width * grid_height,
                1 <= grid_height,
                1 <= grid_width,
                kind@.len() == k,
                forall|t: int|
                    0 <= t < k ==> kind@[t] == new_kind_cell(
                        grid_width as int,
                        grid_height as int,
                        t,
                    ),
            decreases total - k,
        {
            let i = k / grid_height;
            let j = k % grid_height;
            let v = if i == 0 || i == grid_width - 1 || j == 0 || j == grid_height - 1 {
                SOLID
            } else {
                FLUID
            };
            kind.push(v);
            k = k + 1;
        }
        let r = FluidSim {
            grid_width,
            grid_height,
            cell_size,
            density,
            cell_kind: kind,
            velocities_x: filled_i64(total, 0),
            velocities_y: filled_i64(total, 0),
            pressures: filled_i64(total, 0),
            smoke: filled_i64(total, 0),
        };
        proof {
            assert(r@ =~= new_m(
                grid_width as int,
                grid_height as int,
                cell_size as int,
                density as int,
            ));
        }
        r
    }

    /// Seed smoke at full concentration on a horizontal band near the bottom
    /// edge, centered on the middle column with radius five.
    pub fn add_smoke(&mut self)
        requires
            old(self).wf(),
            old(self)@.h >= 3,
        ensures
            final(self)@ == smoke_band_m(old(self)@),
            final(self).wf(),
    {
        let total = self.smoke.len();
        let cx = self.grid_width / 2;
        let band_j = self.grid_height - 3;
        let mut new_smoke: Vec<i64> = Vec::new();
        let mut k: usize = 0;
        while k < total
            invariant
                k <= total,
                total == old(self)@.smoke.len(),
                *self == *old(self),
                self.wf(),
                cx == old(self)@.w / 2,
                band_j == old(self)@.h - 3,
                old(self)@.h >= 3,
                new_smoke@.len() == k,
                forall|t: int|
                    0 <= t < k ==> new_smoke@[t] == smoke_band_cell(old(self)@, t),
            decreases total - k,
        {
            proof {
                lemma_flat_in_grid(old(self)@, k as int);
            }
            let i = k / self.grid_height;
            let j = k % self.grid_height;
            let v = if j == band_j && i + 5 >= cx && i < cx + 5 {
                SCALE
            } else {
                self.smoke[k]
            };
            new_smoke.push(v);
            k = k + 1;
        }
        self.smoke = new_smoke;
        proof {
            assert(self@ =~= smoke_band_m(old(self)@));
        }
    }

    /// The wind-tunnel preset: the left column becomes a FLUID inlet with
    /// the given inflow velocity, the right column a FLUID outlet with its
    /// negation, the top and bottom rows become SOLID, a short vertical
    /// SOLID obstacle is carved near the right edge at mid-height, and smoke
    /// is seeded.
    pub fn setup_wind_tunnel(&mut self, inflow_velocity: i64)
        requires
            old(self).wf(),
            fx_in_range(inflow_velocity as int),
            old(self)@.w >= 10,
            old(self)@.h >= 3,
        ensures
            final(self)@ == smoke_band_m(wind_tunnel_m(old(self)@, inflow_velocity as int)),
            final(self).wf(),
    {
        let total = self.cell_kind.len();
        let obstacle_i = self.grid_width - 10;
        let mid = self.grid_height / 2;
        let mut new_kind: Vec<u32> = Vec::new();
        let mut new_vx: Vec<i64> = Vec::new();
        let mut k: usize = 0;
        while k < total
            invariant
                k <= total,
                total == old(self)@.kind.len(),
                total == old(self)@.vx.len(),
                *self == *old(self),
                self.wf(),
                obstacle_i == old(self)@.w - 10,
                mid == old(self)@.h / 2,
                old(self)@.w >= 10,
                fx_in_range(inflow_velocity as int),
                new_kind@.len() == k,
                new_vx@.len() == k,
                forall|t: int| 0 <= t < k ==> new_kind@[t] == wind_kind_cell(old(self)@, t),
                forall|t: int|
                    0 <= t < k ==> new_vx@[t] == wind_vx_cell(
                        old(self)@,
                        inflow_velocity as int,
                        t,
                    ),
            decreases total - k,
        {
            proof {
                lemma_flat_in_grid(old(self)@, k as int);
            }
            let i = k / self.grid_height;
            let j = k % self.grid_height;
            let kv = if i == obstacle_i && j + 2 >= mid && j <= mid + 2 {
                SOLID
            } else if j == 0 || j == self.grid_height - 1 {
                SOLID
            } else if i == 0 || i == self.grid_width - 1 {
                FLUID
            } else {
                self.cell_kind[k]
            };
            let xv = if i == 0 {
                inflow_velocity
            } else if i == self.grid_width - 1 {
                -inflow_velocity
            } else {
                self.velocities_x[k]
            };
            new_kind.push(kv);
            new_vx.push(xv);
            k = k + 1;
        }
        self.cell_kind = new_kind;
        self.velocities_x = new_vx;
        proof {
            assert(self@ =~= wind_tunnel_m(old(self)@, inflow_velocity as int));
        }
        self.add_smoke();
    }

    /// Gravity integration: every vertical face whose two adjacent cells
    /// along y are both FLUID gains `gravity.y * dt`.
    pub fn integrate(&mut self, dt: i64, gravity: Vec2Fx)
        requires
            old(self).wf(),
            fx_in_range(dt as int),
            fx_in_range(gravity.y as int),
        ensures
            final(self)@ == integrate_m(old(self)@, gravity.y as int, dt as int),
            final(self).wf(),
    {
        let total = self.velocities_y.len();
        let step = fx_mul(gravity.y, dt);
        let mut new_vy: Vec<i64> = Vec::new();
        let mut k: usize = 0;
        while k < total
            invariant
                k <= total,
                total == old(self)@.vy.len(),
                *self == *old(self),
                self.wf(),
                step == crate::fixed::fx_mul_s(gravity.y as int, dt as int),
                fx_in_range(step as int),
                new_vy@.len() == k,
                forall|t: int|
                    0 <= t < k ==> new_vy@[t] == integrate_cell(
                        old(self)@,
                        gravity.y as int,
                        dt as int,
                        t,
                    ),
            decreases total - k,
        {
            proof {
                lemma_flat_in_grid(old(self)@, k as int);
                assert(fx_in_range(old(self)@.vy[k as int]));
            }
            let i = k / self.grid_height;
            let j = k % self.grid_height;
            let v = if i >= 1 && j >= 1 && j < self.grid_height - 1 && self.cell_kind[k] == FLUID
                && self.cell_kind[k - 1] == FLUID {
                fx_add(self.velocities_y[k], step)
            } else {
                self.velocities_y[k]
            };
            new_vy.push(v);
            k = k + 1;
        }
        self.velocities_y = new_vy;
        proof {
            assert(self@ =~= integrate_m(old(self)@, gravity.y as int, dt as int));
        }
    }

    /// Zero-gradient boundary extrapolation: the top and bottom rows of the
    /// horizontal velocity field and the left and right columns of the
    /// vertical velocity field copy their interior neighbor.
    pub fn extrapolate(&mut self)
        requires
            old(self).wf(),
        ensures
            final(self)@ == extrapolate_m(old(self)@),
            final(self).wf(),
    {
        let total = self.velocities_x.len();
        let mut new_vx: Vec<i64> = Vec::new();
        let mut new_vy: Vec<i64> = Vec::new();
        let mut k: usize = 0;
        while k < total
            invariant
                k <= total,
                total == old(self)@.vx.len(),
                total == old(self)@.vy.len(),
                *self == *old(self),
                self.wf(),
                new_vx@.len() == k,
                new_vy@.len() == k,
                forall|t: int| 0 <= t < k ==> new_vx@[t] == extrap_x_cell(old(self)@, t),
                forall|t: int| 0 <= t < k ==> new_vy@[t] == extrap_y_cell(old(self)@, t),
            decreases total - k,
        {
            proof {
                lemma_flat_in_grid(old(self)@, k as int);
                let m = old(self)@;
                let i = m.ci(k as int);
                let j = m.cj(k as int);
                if m.h >= 2 && j == 0 {
                    lemma_idx_bijective(m, i, 1);
                    assert(k as int + 1 == m.idx(i, 1));
                }
                if m.h >= 3 && j == m.h - 1 {
                    lemma_idx_bijective(m, i, m.h - 2);
                    assert(k as int - 1 == m.idx(i, m.h - 2));
                }
                if m.w >= 2 && i == 0 {
                    lemma_idx_bijective(m, 1, j);
                    assert(k as int + m.h == m.idx(1, j));
                }
                if m.w >= 3 && i == m.w - 1 {
                    lemma_idx_bijective(m, m.w - 2, j);
                    assert((m.w - 2) * m.h == (m.w - 1) * m.h - m.h) by (nonlinear_arith);
                    assert(k as int - m.h == m.idx(m.w - 2, j));
                }
            }
            let i = k / self.grid_height;
            let j = k % self.grid_height;
            let h = self.grid_height;
            let w = self.grid_width;
            let xv = if h >= 2 && j == 0 {
                self.velocities_x[k + 1]
            } else if h >= 2 && j == h - 1 {
                if h == 2 {
                    self.velocities_x[k]
                } else {
                    self.velocities_x[k - 1]
                }
            } else {
                self.velocities_x[k]
            };
            let yv = if w >= 2 && i == 0 {
                self.velocities_y[k + h]
            } else if w >= 2 && i == w - 1 {
                if w == 2 {
                    self.velocities_y[k]
                } else {
                    self.velocities_y[k - h]
                }
            } else {
                self.velocities_y[k]
            };
            new_vx.push(xv);
            new_vy.push(yv);
            k = k + 1;
        }
        self.velocities_x = new_vx;
        self.velocities_y = new_vy;
        proof {
            let m = old(self)@;
            assert forall|t: int| 0 <= t < total implies fx_in_range(extrap_x_cell(m, t))
                && fx_in_range(extrap_y_cell(m, t)) by {
                lemma_flat_in_grid(m, t);
                let i = m.ci(t);
                let j = m.cj(t);
                if m.h >= 2 && j == 0 {
                    lemma_idx_bijective(m, i, 1);
                    assert(t + 1 == m.idx(i, 1));
                }
                if m.h >= 3 && j == m.h - 1 {
                    lemma_idx_bijective(m, i, m.h - 2);
                    assert(t - 1 == m.idx(i, m.h - 2));
                }
                if m.w >= 2 && i == 0 {
                    lemma_idx_bijective(m, 1, j);
                    assert(t + m.h == m.idx(1, j));
                }
                if m.w >= 3 && i == m.w - 1 {
                    lemma_idx_bijective(m, m.w - 2, j);
                    assert((m.w - 2) * m.h == (m.w - 1) * m.h - m.h) by (nonlinear_arith);
                    assert(t - m.h == m.idx(m.w - 2, j));
                }
            }
            assert(self@ =~= extrapolate_m(old(self)@));
        }
    }

    /// Bilinear sample of one staggered field at a world position. The
    /// position is clamped into the grid; at an exact sample point the
    /// fractional weights vanish and the stored sample comes back unchanged.
    #[verifier::rlimit(100)]
    pub fn sample_field(&self, x0: i64, y0: i64, field: FieldType) -> (r: i64)
        requires
            self.wf(),
        ensures
            r as int == sample_m(self@, field, x0 as int, y0 as int),
            fx_in_range(r as int),
    {
        let ghost m = self@;
        let w = self.grid_width;
        let h = self.grid_height;
        let hs = self.cell_size;
        proof {
            assert(hs <= (w as int) * (hs as int) <= 1_000_000_000_000
                && hs <= (h as int) * (hs as int) <= 1_000_000_000_000) by (nonlinear_arith)
                requires
                    1 <= w <= MAX_DIM as int,
                    1 <= h <= MAX_DIM as int,
                    1 <= hs <= H_MAX as int,
            ;
        }
        let xmax = (w as i64) * hs;
        let ymax = (h as i64) * hs;
        let x = if x0 < hs {
            hs
        } else if x0 > xmax {
            xmax
        } else {
            x0
        };
        let y = if y0 < hs {
            hs
        } else if y0 > ymax {
            ymax
        } else {
            y0
        };
        let h2 = crate::fixed::floor_div(hs, 2);
        let dx: i64 = match field {
            FieldType::U => 0,
            FieldType::V => h2,
            FieldType::S => h2,
        };
        let dy: i64 = match field {
            FieldType::U => h2,
            FieldType::V => 0,
            FieldType::S => h2,
        };
        proof {
            lemma_div_span(hs as int, 2);
        }
        let xs = x - dx;
        let ys = y - dy;
        let xq = crate::fixed::floor_div(xs, hs);
        let yq = crate::fixed::floor_div(ys, hs);
        proof {
            lemma_div_span(xs as int, hs as int);
            lemma_div_span(ys as int, hs as int);
        }
        let xi: usize = if xq >= (w - 1) as i64 {
            w - 1
        } else {
            xq as usize
        };
        let yi: usize = if yq >= (h - 1) as i64 {
            h - 1
        } else {
            yq as usize
        };
        proof {
            assert(xi as int == imin(((x - dx) as int) / (hs as int), m.w - 1));
            assert(yi as int == imin(((y - dy) as int) / (hs as int), m.h - 1));
            assert(0 <= (xi as int) * (hs as int) <= 1_000_000_000_000
                && 0 <= (yi as int) * (hs as int) <= 1_000_000_000_000) by (nonlinear_arith)
                requires
                    0 <= xi < MAX_DIM as int,
                    0 <= yi < MAX_DIM as int,
                    1 <= hs <= H_MAX as int,
            ;
        }
        let tx = fx_div(xs - (xi as i64) * hs, hs);
        let ty = fx_div(ys - (yi as i64) * hs, hs);
        let xi1: usize = if xi + 1 < w {
            xi + 1
        } else {
            w - 1
        };
        let yi1: usize = if yi + 1 < h {
            yi + 1
        } else {
            h - 1
        };
        let sx = SCALE - tx;
        let sy = SCALE - ty;
        let n = self.cell_kind.len();
        proof {
            assert(n as int == m.len());
            lemma_idx_bijective(m, xi as int, yi as int);
            lemma_idx_bijective(m, xi1 as int, yi as int);
            lemma_idx_bijective(m, xi1 as int, yi1 as int);
            lemma_idx_bijective(m, xi as int, yi1 as int);
        }
        let k00 = xi * h + yi;
        let k10 = xi1 * h + yi;
        let k11 = xi1 * h + yi1;
        let k01 = xi * h + yi1;
        let (f00, f10, f11, f01) = match field {
            FieldType::U => (
                self.velocities_x[k00],
                self.velocities_x[k10],
                self.velocities_x[k11],
                self.velocities_x[k01],
            ),
            FieldType::V => (
                self.velocities_y[k00],
                self.velocities_y[k10],
                self.velocities_y[k11],
                self.velocities_y[k01],
            ),
            FieldType::S => (
                self.smoke[k00],
                self.smoke[k10],
                self.smoke[k11],
                self.smoke[k01],
            ),
        };
        let v00 = fx_mul(fx_mul(sx, sy), f00);
        let v10 = fx_mul(fx_mul(tx, sy), f10);
        let v11 = fx_mul(fx_mul(tx, ty), f11);
        let v01 = fx_mul(fx_mul(sx, ty), f01);
        fx_add(fx_add(fx_add(v00, v10), v11), v01)
    }

    /// Semi-Lagrangian advection of both velocity fields: each eligible face
    /// traces its position backward by `dt` along the local velocity and
    /// resamples the pre-step field there. Writes go into fresh arrays, so
    /// sampling always reads the pre-step state.
    pub fn advect_vel(&mut self, dt: i64)
        requires
            old(self).wf(),
            fx_in_range(dt as int),
        ensures
            final(self)@ == advect_vel_m(old(self)@, dt as int),
            final(self).wf(),
    {
        let total = self.velocities_x.len();
        let hs = self.cell_size;
        let h2 = crate::fixed::floor_div(hs, 2);
        proof {
            lemma_div_span(hs as int, 2);
        }
        let mut new_vx: Vec<i64> = Vec::new();
        let mut new_vy: Vec<i64> = Vec::new();
        let mut k: usize = 0;
        while k < total
            invariant
                k <= total,
                total == old(self)@.vx.len(),
                total == old(self)@.vy.len(),
                *self == *old(self),
                self.wf(),
                hs == old(self)@.hs,
                h2 == old(self)@.hs / 2,
                0 <= h2 <= hs,
                fx_in_range(dt as int),
                new_vx@.len() == k,
                new_vy@.len() == k,
                forall|t: int|
                    0 <= t < k ==> new_vx@[t] == advect_u_cell(old(self)@, dt as int, t),
                forall|t: int|
                    0 <= t < k ==> new_vy@[t] == advect_v_cell(old(self)@, dt as int, t),
            decreases total - k,
        {
            let ghost m = old(self)@;
            proof {
                lemma_flat_in_grid(m, k as int);
                let iv = m.ci(k as int);
                let jv = m.cj(k as int);
                assert((iv - 1) * m.h == iv * m.h - m.h) by (nonlinear_arith);
                assert((iv + 1) * m.h == iv * m.h + m.h) by (nonlinear_arith);
                if iv >= 1 {
                    lemma_idx_bijective(m, iv - 1, jv);
                }
                if iv < m.w - 1 {
                    lemma_idx_bijective(m, iv + 1, jv);
                }
                if jv >= 1 {
                    lemma_idx_bijective(m, iv, jv - 1);
                }
                if jv < m.h - 1 {
                    lemma_idx_bijective(m, iv, jv + 1);
                }
                assert(0 <= iv * m.hs <= 1_000_000_000_000 && 0 <= jv * m.hs
                    <= 1_000_000_000_000) by (nonlinear_arith)
                    requires
                        0 <= iv < 10_000,
                        0 <= jv < 10_000,
                        1 <= m.hs <= 100_000_000,
                ;
                assert(fx_in_range(m.vx[k as int]) && fx_in_range(m.vy[k as int]));
                if jv < m.h - 1 {
                    assert(fx_in_range(m.vy[k as int + 1]));
                }
                if iv < m.w - 1 {
                    assert(fx_in_range(m.vx[k as int + m.h]));
                }
            }
            let i = k / self.grid_height;
            let j = k % self.grid_height;
            let h = self.grid_height;
            let w = self.grid_width;
            let uval = if i >= 1 && j >= 1 && j < h - 1 && self.cell_kind[k] == FLUID
                && self.cell_kind[k - h] == FLUID {
                let x = (i as i64) * hs;
                let y = (j as i64) * hs + h2;
                let u = self.velocities_x[k];
                let v = fx_avg(self.velocities_y[k], self.velocities_y[k + 1]);
                let xt = x - fx_mul(dt, u);
                let yt = y - fx_mul(dt, v);
                self.sample_field(xt, yt, FieldType::U)
            } else {
                self.velocities_x[k]
            };
            let vval = if i >= 1 && i < w - 1 && j >= 1 && self.cell_kind[k] == FLUID
                && self.cell_kind[k - 1] == FLUID {
                let x = (i as i64) * hs + h2;
                let y = (j as i64) * hs;
                let u = fx_avg(self.velocities_x[k], self.velocities_x[k + h]);
                let v = self.velocities_y[k];
                let xt = x - fx_mul(dt, u);
                let yt = y - fx_mul(dt, v);
                self.sample_field(xt, yt, FieldType::V)
            } else {
                self.velocities_y[k]
            };
            new_vx.push(uval);
            new_vy.push(vval);
            k = k + 1;
        }
        self.velocities_x = new_vx;
        self.velocities_y = new_vy;
        proof {
            assert(self@ =~= advect_vel_m(old(self)@, dt as int));
        }
    }

    /// Semi-Lagrangian advection of the smoke tracer for FLUID cells. A
    /// sampled value of exactly zero leaves the cell unchanged, so empty
    /// border samples do not bleed into the plume.
    pub fn advect_smoke(&mut self, dt: i64)
        requires
            old(self).wf(),
            fx_in_range(dt as int),
        ensures
            final(self)@ == advect_smoke_m(old(self)@, dt as int),
            final(self).wf(),
    {
        let total = self.smoke.len();
        let hs = self.cell_size;
        let h2 = crate::fixed::floor_div(hs, 2);
        proof {
            lemma_div_span(hs as int, 2);
        }
        let mut new_smoke: Vec<i64> = Vec::new();
        let mut k: usize = 0;
        while k < total
            invariant
                k <= total,
                total == old(self)@.smoke.len(),
                *self == *old(self),
                self.wf(),
                hs == old(self)@.hs,
                h2 == old(self)@.hs / 2,
                0 <= h2 <= hs,
                fx_in_range(dt as int),
                new_smoke@.len() == k,
                forall|t: int|
                    0 <= t < k ==> new_smoke@[t] == advect_s_cell(old(self)@, dt as int, t),
            decreases total - k,
        {
            let ghost m = old(self)@;
            proof {
                lemma_flat_in_grid(m, k as int);
                let iv = m.ci(k as int);
                let jv = m.cj(k as int);
                assert((iv + 1) * m.h == iv * m.h + m.h) by (nonlinear_arith);
                if iv < m.w - 1 {
                    lemma_idx_bijective(m, iv + 1, jv);
                }
                if jv < m.h - 1 {
                    lemma_idx_bijective(m, iv, jv + 1);
                }
                assert(0 <= iv * m.hs <= 1_000_000_000_000 && 0 <= jv * m.hs
                    <= 1_000_000_000_000) by (nonlinear_arith)
                    requires
                        0 <= iv < 10_000,
                        0 <= jv < 10_000,
                        1 <= m.hs <= 100_000_000,
                ;
                assert(fx_in_range(m.vx[k as int]) && fx_in_range(m.vy[k as int])
                    && fx_in_range(m.smoke[k as int]));
                if jv < m.h - 1 {
                    assert(fx_in_range(m.vy[k as int + 1]));
                }
                if iv < m.w - 1 {
                    assert(fx_in_range(m.vx[k as int + m.h]));
                }
            }
            let i = k / self.grid_height;
            let j = k % self.grid_height;
            let h = self.grid_height;
            let w = self.grid_width;
            let sval = if i >= 1 && i < w - 1 && j >= 1 && j < h - 1 && self.cell_kind[k]
                == FLUID {
                let u = fx_avg(self.velocities_x[k], self.velocities_x[k + h]);
                let v = fx_avg(self.velocities_y[k], self.velocities_y[k + 1]);
                let x = (i as i64) * hs + h2;
                let y = (j as i64) * hs + h2;
                let xt = x - fx_mul(dt, u);
                let yt = y - fx_mul(dt, v);
                let sm = self.sample_field(xt, yt, FieldType::S);
                if sm != 0 {
                    sm
                } else {
                    self.smoke[k]
                }
            } else {
                self.smoke[k]
            };
            new_smoke.push(sval);
            k = k + 1;
        }
        self.smoke = new_smoke;
        proof {
            assert(self@ =~= advect_smoke_m(old(self)@, dt as int));
        }
    }

    /// Iterative pressure projection: `num_iters` Gauss-Seidel sweeps over
    /// the interior. Each FLUID cell with at least one FLUID neighbor gets
    /// an over-relaxed correction proportional to its divergence, scaled by
    /// `density * cell_size / dt` into the pressure accumulator, while the
    /// four face velocities are pushed outward through FLUID faces only.
    /// Cells fully enclosed by SOLID are skipped, so their pressure keeps
    /// its reset value.
    pub fn solve_incompressibility(&mut self, num_iters: usize, dt: i64)
        requires
            old(self).wf(),
            1 <= dt,
            fx_in_range(dt as int),
        ensures
            final(self)@ == proj_iters(
                old(self)@,
                pressure_scale(old(self)@, dt as int),
                num_iters as nat,
            ),
            final(self).wf(),
    {
        let cp = fx_div(fx_mul(self.density, self.cell_size), dt);
        let ghost cps = pressure_scale(old(self)@, dt as int);
        let w = self.grid_width;
        let h = self.grid_height;
        let mut it: usize = 0;
        while it < num_iters
            invariant
                it <= num_iters,
                self@ == proj_iters(old(self)@, cps, it as nat),
                self.wf(),
                cp as int == cps,
                fx_in_range(cp as int),
                w == self.grid_width,
                h == self.grid_height,
                self.grid_width == old(self).grid_width,
                self.grid_height == old(self).grid_height,
                self.cell_size == old(self).cell_size,
                self.density == old(self).density,
                self.cell_kind@ == old(self).cell_kind@,
                self.smoke@ == old(self).smoke@,
            decreases num_iters - it,
        {
            let ghost m_it = self@;
            let mut i: usize = 1;
            while i < w - 1
                invariant
                    1 <= i,
                    i <= w - 1 || i == 1,
                    self@ == proj_col(m_it, cps, i as int),
                    self.wf(),
                    cp as int == cps,
                    fx_in_range(cp as int),
                    w == self.grid_width,
                    h == self.grid_height,
                    self.grid_width == old(self).grid_width,
                    self.grid_height == old(self).grid_height,
                    self.cell_size == old(self).cell_size,
                    self.density == old(self).density,
                    self.cell_kind@ == old(self).cell_kind@,
                    self.smoke@ == old(self).smoke@,
                    m_it.w == w as int,
                    m_it.h == h as int,
                    m_it.wf(),
                decreases w - 1 - i,
            {
                let ghost m_row = self@;
                let mut j: usize = 1;
                while j < h - 1
                    invariant
                        1 <= j,
                        j <= h - 1 || j == 1,
                        1 <= i < w - 1,
                        self@ == proj_row(m_row, cps, i as int, j as int),
                        self.wf(),
                        cp as int == cps,
                        fx_in_range(cp as int),
                        w == self.grid_width,
                        h == self.grid_height,
                        self.grid_width == old(self).grid_width,
                        self.grid_height == old(self).grid_height,
                        self.cell_size == old(self).cell_size,
                        self.density == old(self).density,
                        self.cell_kind@ == old(self).cell_kind@,
                        self.smoke@ == old(self).smoke@,
                        m_row.w == w as int,
                        m_row.h == h as int,
                        m_row.wf(),
                    decreases h - 1 - j,
                {
                    let ghost m_cell = self@;
                    proof {
                        lemma_idx_bijective(m_cell, i as int, j as int);
                        lemma_idx_bijective(m_cell, i as int - 1, j as int);
                        lemma_idx_bijective(m_cell, i as int + 1, j as int);
                        lemma_idx_bijective(m_cell, i as int, j as int - 1);
                        lemma_idx_bijective(m_cell, i as int, j as int + 1);
                        assert((i as int - 1) * m_cell.h == i as int * m_cell.h - m_cell.h)
                            by (nonlinear_arith);
                        assert((i as int + 1) * m_cell.h == i as int * m_cell.h + m_cell.h)
                            by (nonlinear_arith);
                    }
                    let n = self.cell_kind.len();
                    proof {
                        assert(n as int == m_cell.len());
                    }
                    let kc = i * h + j;
                    if self.cell_kind[kc] == FLUID {
                        let sx0 = self.cell_kind[kc - h];
                        let sx1 = self.cell_kind[kc + h];
                        let sy0 = self.cell_kind[kc - 1];
                        let sy1 = self.cell_kind[kc + 1];
                        let s = sx0 + sx1 + sy0 + sy1;
                        if s != 0 {
                            proof {
                                assert(fx_in_range(m_cell.vx[kc as int])
                                    && fx_in_range(m_cell.vx[kc as int + h as int])
                                    && fx_in_range(m_cell.vy[kc as int])
                                    && fx_in_range(m_cell.vy[kc as int + 1])
                                    && fx_in_range(m_cell.p[kc as int]));
                            }
                            let div = self.velocities_x[kc + h] - self.velocities_x[kc]
                                + self.velocities_y[kc + 1] - self.velocities_y[kc];
                            let p0 = crate::fixed::floor_div(-div, s as i64);
                            let p1 = fx_mul(p0, OVER_RELAXATION);
                            let dp = fx_mul(cp, p1);
                            let pnew = fx_add(self.pressures[kc], dp);
                            self.pressures[kc] = pnew;
                            if sx0 == FLUID {
                                let v = fx_sub(self.velocities_x[kc], p1);
                                self.velocities_x[kc] = v;
                            }
                            if sx1 == FLUID {
                                let v = fx_add(self.velocities_x[kc + h], p1);
                                self.velocities_x[kc + h] = v;
                            }
                            if sy0 == FLUID {
                                let v = fx_sub(self.velocities_y[kc], p1);
                                self.velocities_y[kc] = v;
                            }
                            if sy1 == FLUID {
                                let v = fx_add(self.velocities_y[kc + 1], p1);
                                self.velocities_y[kc + 1] = v;
                            }
                        }
                    }
                    proof {
                        assert(self@ =~= proj_cell(m_cell, cps, i as int, j as int));
                        assert(proj_row(m_row, cps, i as int, j as int + 1) == proj_cell(
                            proj_row(m_row, cps, i as int, j as int),
                            cps,
                            i as int,
                            j as int,
                        ));
                    }
                    j = j + 1;
                }
                proof {
                    if h >= 2 {
                        assert(self@ == proj_row(m_row, cps, i as int, h as int - 1));
                    } else {
                        assert(self@ == proj_row(m_row, cps, i as int, h as int - 1));
                    }
                    assert(proj_col(m_it, cps, i as int + 1) == proj_row(
                        proj_col(m_it, cps, i as int),
                        cps,
                        i as int,
                        m_it.h - 1,
                    ));
                }
                i = i + 1;
            }
            proof {
                assert(self@ == proj_col(m_it, cps, w as int - 1));
                assert(proj_iters(old(self)@, cps, (it + 1) as nat) == proj_col(
                    proj_iters(old(self)@, cps, it as nat),
                    cps,
                    old(self)@.w - 1,
                ));
            }
            it = it + 1;
        }
    }

    /// One full simulation tick, in fixed order: gravity integration,
    /// pressure reset, pressure projection, boundary extrapolation, velocity
    /// advection, smoke advection.
    pub fn simulate(&mut self, dt: i64, gravity: Vec2Fx, num_iters: usize)
        requires
            old(self).wf(),
            1 <= dt,
            fx_in_range(dt as int),
            fx_in_range(gravity.y as int),
        ensures
            final(self)@ == simulate_m(
                old(self)@,
                gravity.y as int,
                dt as int,
                num_iters as nat,
            ),
            final(self).wf(),
    {
        self.integrate(dt, gravity);
        let ghost m1 = self@;
        let total = self.pressures.len();
        self.pressures = filled_i64(total, 0);
        proof {
            assert(self@ =~= reset_pressure_m(m1));
        }
        self.solve_incompressibility(num_iters, dt);
        self.extrapolate();
        self.advect_vel(dt);
        self.advect_smoke(dt);
    }

    /// Flatten the grid into glyph records, one per cell: SOLID cells export
    /// the fixed downward wall marker of magnitude five; FLUID cells export
    /// their normalized planar velocity as direction and their smoke value
    /// as magnitude.
    pub fn to_vectors(&self) -> (r: Vec<Vector>)
        requires
            self.wf(),
        ensures
            r@.len() == self@.len(),
            forall|k: int| 0 <= k < self@.len() ==> (#[trigger] r@[k])@ == glyph_m(self@, k),
    {
        let ghost m = self@;
        let total = self.cell_kind.len();
        let hs = self.cell_size;
        let mut r: Vec<Vector> = Vec::new();
        let mut k: usize = 0;
        while k < total
            invariant
                k <= total,
                total == self@.len(),
                self.wf(),
                hs == self@.hs,
                m == self@,
                r@.len() == k,
                forall|t: int| 0 <= t < k ==> (#[trigger] r@[t])@ == glyph_m(self@, t),
            decreases total - k,
        {
            proof {
                lemma_flat_in_grid(m, k as int);
                let iv = m.ci(k as int);
                let jv = m.cj(k as int);
                assert(0 <= iv * m.hs <= 1_000_000_000_000 && 0 <= jv * m.hs
                    <= 1_000_000_000_000) by (nonlinear_arith)
                    requires
                        0 <= iv < 10_000,
                        0 <= jv < 10_000,
                        1 <= m.hs <= 100_000_000,
                ;
                assert(fx_in_range(m.vx[k as int]) && fx_in_range(m.vy[k as int])
                    && fx_in_range(m.smoke[k as int]));
            }
            let i = k / self.grid_height;
            let j = k % self.grid_height;
            let start = Vec3Fx { x: (i as i64) * hs, y: 0, z: (j as i64) * hs };
            let g = if self.cell_kind[k] != FLUID {
                let down = Vec3Fx { x: 0, y: -SCALE, z: 0 };
                Vector::new(start, down, 5 * SCALE)
            } else {
                let dir = normalize(
                    Vec3Fx { x: self.velocities_x[k], y: 0, z: self.velocities_y[k] },
                );
                Vector::new(start, dir, self.smoke[k])
            };
            r.push(g);
            k = k + 1;
        }
        r
    }
}

/// The glyph exported for cell `k`: the fixed downward wall marker of
/// magnitude five for a SOLID cell, the normalized planar velocity with the
/// smoke value as magnitude for a FLUID cell. The solver's y axis maps to
/// the glyph's z axis.
pub open spec fn glyph_m(m: SimM, k: int) -> VectorV {
    let start = V3 { x: m.ci(k) * m.hs, y: 0, z: m.cj(k) * m.hs };
    if m.kind[k] != FLUID {
        let d = V3 { x: 0, y: -SCALE as int, z: 0 };
        VectorV { start, direction: d, magnitude: 5 * SCALE as int, rotation: rotation_s(d) }
    } else {
        let d = normalize_s(V3 { x: m.vx[k], y: 0, z: m.vy[k] });
        VectorV { start, direction: d, magnitude: m.smoke[k], rotation: rotation_s(d) }
    }
}

/// Every field of an exported glyph stays within the representable range.
pub proof fn lemma_glyph_wf(m: SimM, k: int)
    requires
        m.wf(),
        0 <= k < m.len(),
    ensures
        fx_in_range(glyph_m(m, k).start.x),
        fx_in_range(glyph_m(m, k).start.y),
        fx_in_range(glyph_m(m, k).start.z),
        fx_in_range(glyph_m(m, k).direction.x),
        fx_in_range(glyph_m(m, k).direction.y),
        fx_in_range(glyph_m(m, k).direction.z),
        fx_in_range(glyph_m(m, k).magnitude),
{
    lemma_flat_in_grid(m, k);
    let iv = m.ci(k);
    let jv = m.cj(k);
    assert(0 <= iv * m.hs <= 1_000_000_000_000 && 0 <= jv * m.hs <= 1_000_000_000_000)
        by (nonlinear_arith)
        requires
            0 <= iv < 10_000,
            0 <= jv < 10_000,
            1 <= m.hs <= 100_000_000,
    ;
    if m.kind[k] == FLUID {
        assert(fx_in_range(m.vx[k]) && fx_in_range(m.vy[k]) && fx_in_range(m.smoke[k]));
        crate::vector::lemma_normalize_s_in_range(V3 { x: m.vx[k], y: 0, z: m.vy[k] });
    }
}

/// Exporting a grid whose cells are all SOLID yields only the fixed
/// downward wall marker: every glyph points straight down with magnitude
/// five and carries the half-turn orientation, whatever the stored
/// velocity and smoke fields hold.
pub proof fn lemma_all_solid_export(m: SimM, k: int)
    requires
        m.wf(),
        0 <= k < m.len(),
        forall|t: int| 0 <= t < m.len() ==> (#[trigger] m.kind[t]) == SOLID,
    ensures
        glyph_m(m, k).direction == (V3 { x: 0, y: -SCALE as int, z: 0 }),
        glyph_m(m, k).magnitude == 5 * SCALE as int,
        glyph_m(m, k).rotation == crate::vector::flip_x_s(),
{
    let d = V3 { x: 0, y: -SCALE as int, z: 0 };
    assert(!crate::vector::aligned_up_s(d));
    assert(crate::fixed::fx_add_s(SCALE as int, d.y) == 0);
}

} // verus!
