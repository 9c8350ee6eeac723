//! Mathematical model of the staggered-grid fluid state and of each
//! simulation pass.
//!
//! The grid stores one value per cell in flat sequences indexed by
//! `i * height + j`, where `i` counts columns and `j` counts rows. Velocity
//! samples are staggered: `vx[i][j]` sits on the left face of cell `(i, j)`
//! and `vy[i][j]` on its bottom face. Each executable pass of the solver is
//! proved equal to a spec transformer defined here, so the whole tick is a
//! composition of pure functions on this model.

use crate::fixed::{
    fx_add_s, fx_avg_s, fx_clamp, fx_div_s, fx_in_range, fx_mul_s, fx_sub_s, lemma_div_span,
    FX_MAX, SCALE,
};
use vstd::arithmetic::div_mod::{
    lemma_div_multiples_vanish, lemma_div_of0, lemma_fundamental_div_mod,
    lemma_fundamental_div_mod_converse_div, lemma_fundamental_div_mod_converse_mod,
};
use vstd::math::abs;
use vstd::prelude::*;

verus! {

/// Cell classification: a wall.
pub const SOLID: u32 = 0;

/// Cell classification: carries flow.
pub const FLUID: u32 = 1;

/// Over-relaxation factor applied to each pressure correction (1.9).
pub const OVER_RELAXATION: i64 = 1_900_000;

/// Largest accepted cell count along either axis.
pub const MAX_DIM: usize = 10_000;

/// Largest accepted cell size (one hundred real units).
pub const H_MAX: i64 = 100_000_000;

/// Which staggered field a sample is drawn from.
#[derive(Clone, Copy, PartialEq, Eq, Structural, Debug)]
pub enum FieldType {
    /// Horizontal velocity, stored on left cell faces.
    U,
    /// Vertical velocity, stored on bottom cell faces.
    V,
    /// Smoke concentration, stored at cell centers.
    S,
}

/// The full state of a simulation grid, as mathematical integers.
#[verifier::ext_equal]
pub ghost struct SimM {
    pub w: int,
    pub h: int,
    pub hs: int,
    pub density: int,
    pub kind: Seq<u32>,
    pub vx: Seq<int>,
    pub vy: Seq<int>,
    pub p: Seq<int>,
    pub smoke: Seq<int>,
}

pub open spec fn imin(a: int, b: int) -> int {
    if a < b {
        a
    } else {
        b
    }
}

/// Clamp a coordinate into a closed interval.
pub open spec fn clamp_pos(x: int, lo: int, hi: int) -> int {
    if x < lo {
        lo
    } else if x > hi {
        hi
    } else {
        x
    }
}

impl SimM {
    pub open spec fn len(self) -> int {
        self.w * self.h
    }

    /// Flat index of cell `(i, j)`.
    pub open spec fn idx(self, i: int, j: int) -> int {
        i * self.h + j
    }

    pub open spec fn in_grid(self, i: int, j: int) -> bool {
        0 <= i < self.w && 0 <= j < self.h
    }

    /// Column of flat index `k`.
    pub open spec fn ci(self, k: int) -> int {
        k / self.h
    }

    /// Row of flat index `k`.
    pub open spec fn cj(self, k: int) -> int {
        k % self.h
    }

    pub open spec fn wf(self) -> bool {
        &&& 1 <= self.w <= MAX_DIM
        &&& 1 <= self.h <= MAX_DIM
        &&& 1 <= self.hs <= H_MAX
        &&& 0 <= self.density <= FX_MAX
        &&& self.kind.len() == self.len()
        &&& self.vx.len() == self.len()
        &&& self.vy.len() == self.len()
        &&& self.p.len() == self.len()
        &&& self.smoke.len() == self.len()
        &&& forall|k: int|
            0 <= k < self.len() ==> (#[trigger] self.kind[k]) == SOLID || self.kind[k] == FLUID
        &&& forall|k: int| 0 <= k < self.len() ==> fx_in_range(#[trigger] self.vx[k])
        &&& forall|k: int| 0 <= k < self.len() ==> fx_in_range(#[trigger] self.vy[k])
        &&& forall|k: int| 0 <= k < self.len() ==> fx_in_range(#[trigger] self.p[k])
        &&& forall|k: int| 0 <= k < self.len() ==> fx_in_range(#[trigger] self.smoke[k])
    }
}

/// Flat indexing is a bijection between `(i, j)` pairs inside the grid and
/// flat indices below `w * h`: `ci` and `cj` invert `idx`.
pub proof fn lemma_idx_bijective(m: SimM, i: int, j: int)
    requires
        1 <= m.h,
        1 <= m.w,
        m.in_grid(i, j),
    ensures
        0 <= m.idx(i, j) < m.len(),
        m.ci(m.idx(i, j)) == i,
        m.cj(m.idx(i, j)) == j,
{
    lemma_fundamental_div_mod_converse_div(m.idx(i, j), m.h, i, j);
    lemma_fundamental_div_mod_converse_mod(m.idx(i, j), m.h, i, j);
    assert(i * m.h + j < m.w * m.h) by (nonlinear_arith)
        requires
            0 <= i < m.w,
            0 <= j < m.h,
    ;
    assert(0 <= i * m.h + j) by (nonlinear_arith)
        requires
            0 <= i,
            0 <= j,
            1 <= m.h,
    ;
}

/// Every flat index below `w * h` names a cell inside the grid.
pub proof fn lemma_flat_in_grid(m: SimM, k: int)
    requires
        1 <= m.h,
        1 <= m.w,
        0 <= k < m.len(),
    ensures
        m.in_grid(m.ci(k), m.cj(k)),
        m.idx(m.ci(k), m.cj(k)) == k,
{
    lemma_fundamental_div_mod(k, m.h);
    assert(k / m.h < m.w) by (nonlinear_arith)
        requires
            1 <= m.h,
            k < m.w * m.h,
            k == m.h * (k / m.h) + k % m.h,
            0 <= k % m.h < m.h,
    ;
    assert(0 <= k / m.h) by (nonlinear_arith)
        requires
            1 <= m.h,
            0 <= k,
            k == m.h * (k / m.h) + k % m.h,
            0 <= k % m.h < m.h,
    ;
}

// ---------------------------------------------------------------------------
// Construction
// ---------------------------------------------------------------------------

/// Cell classification of a fresh grid: SOLID on the outer ring, FLUID
/// inside.
pub open spec fn new_kind_cell(w: int, h: int, k: int) -> u32 {
    let i = k / h;
    let j = k % h;
    if i == 0 || i == w - 1 || j == 0 || j == h - 1 {
        SOLID
    } else {
        FLUID
    }
}

/// A fresh grid: outer ring SOLID, interior FLUID, every field zero.
pub open spec fn new_m(w: int, h: int, hs: int, density: int) -> SimM {
    SimM {
        w,
        h,
        hs,
        density,
        kind: Seq::new((w * h) as nat, |k: int| new_kind_cell(w, h, k)),
        vx: Seq::new((w * h) as nat, |k: int| 0),
        vy: Seq::new((w * h) as nat, |k: int| 0),
        p: Seq::new((w * h) as nat, |k: int| 0),
        smoke: Seq::new((w * h) as nat, |k: int| 0),
    }
}

/// Every outer-ring cell of a freshly constructed grid is SOLID, before any
/// preset touches it.
pub proof fn lemma_new_grid_boundary_solid(
    w: int,
    h: int,
    hs: int,
    density: int,
    i: int,
    j: int,
)
    requires
        1 <= w,
        1 <= h,
        0 <= i < w,
        0 <= j < h,
        i == 0 || i == w - 1 || j == 0 || j == h - 1,
    ensures
        new_m(w, h, hs, density).kind[new_m(w, h, hs, density).idx(i, j)] == SOLID,
{
    let m = new_m(w, h, hs, density);
    lemma_idx_bijective(m, i, j);
}

// ---------------------------------------------------------------------------
// Wind-tunnel preset
// ---------------------------------------------------------------------------

/// The short vertical SOLID obstacle of the wind-tunnel preset: one column
/// ten cells in from the right edge, five rows centered at mid-height.
pub open spec fn wind_obstacle(m: SimM, i: int, j: int) -> bool {
    i == m.w - 10 && m.h / 2 - 2 <= j <= m.h / 2 + 2
}

/// Cell classification after the wind-tunnel setup. The writes happen in
/// order (inlet and outlet columns to FLUID, top and bottom rows to SOLID,
/// then the obstacle), so a later write wins.
pub open spec fn wind_kind_cell(m: SimM, k: int) -> u32 {
    let i = m.ci(k);
    let j = m.cj(k);
    if wind_obstacle(m, i, j) {
        SOLID
    } else if j == 0 || j == m.h - 1 {
        SOLID
    } else if i == 0 || i == m.w - 1 {
        FLUID
    } else {
        m.kind[k]
    }
}

/// Horizontal velocity after the wind-tunnel setup: inflow on the left
/// column, outflow on the right.
pub open spec fn wind_vx_cell(m: SimM, v: int, k: int) -> int {
    let i = m.ci(k);
    if i == 0 {
        v
    } else if i == m.w - 1 {
        -v
    } else {
        m.vx[k]
    }
}

/// The wind-tunnel boundary preset, before smoke seeding.
pub open spec fn wind_tunnel_m(m: SimM, v: int) -> SimM {
    SimM {
        kind: Seq::new(m.kind.len(), |k: int| wind_kind_cell(m, k)),
        vx: Seq::new(m.vx.len(), |k: int| wind_vx_cell(m, v, k)),
        ..m
    }
}

/// Smoke seeding: full concentration on a horizontal band of cells near the
/// bottom edge, centered on the mid column with radius five.
pub open spec fn smoke_band_cell(m: SimM, k: int) -> int {
    let i = m.ci(k);
    let j = m.cj(k);
    let cx = m.w / 2;
    if j == m.h - 3 && i + 5 >= cx && i < cx + 5 {
        SCALE as int
    } else {
        m.smoke[k]
    }
}

pub open spec fn smoke_band_m(m: SimM) -> SimM {
    SimM { smoke: Seq::new(m.smoke.len(), |k: int| smoke_band_cell(m, k)), ..m }
}

// ---------------------------------------------------------------------------
// Gravity integration
// ---------------------------------------------------------------------------

/// Vertical velocity of cell `k` after one gravity step: faces between two
/// FLUID cells gain `gravity * dt`, everything else is untouched.
pub open spec fn integrate_cell(m: SimM, gy: int, dt: int, k: int) -> int {
    let i = m.ci(k);
    let j = m.cj(k);
    if 1 <= i < m.w && 1 <= j < m.h - 1 && m.kind[k] == FLUID && m.kind[k - 1] == FLUID {
        fx_add_s(m.vy[k], fx_mul_s(gy, dt))
    } else {
        m.vy[k]
    }
}

pub open spec fn integrate_m(m: SimM, gy: int, dt: int) -> SimM {
    SimM { vy: Seq::new(m.vy.len(), |k: int| integrate_cell(m, gy, dt, k)), ..m }
}

/// The pressure field zeroed: projection solves for pressure afresh each
/// tick.
pub open spec fn reset_pressure_m(m: SimM) -> SimM {
    SimM { p: Seq::new(m.p.len(), |k: int| 0), ..m }
}

// ---------------------------------------------------------------------------
// Pressure projection
// ---------------------------------------------------------------------------

/// Number of FLUID neighbors among the four axis directions.
pub open spec fn s_sum(m: SimM, i: int, j: int) -> int {
    m.kind[m.idx(i - 1, j)] + m.kind[m.idx(i + 1, j)] + m.kind[m.idx(i, j - 1)] + m.kind[
        m.idx(i, j + 1)
    ]
}

/// Net outflow of cell `(i, j)` through its four faces, exact.
pub open spec fn divergence(m: SimM, i: int, j: int) -> int {
    m.vx[m.idx(i + 1, j)] - m.vx[m.idx(i, j)] + m.vy[m.idx(i, j + 1)] - m.vy[m.idx(i, j)]
}

/// Over-relaxed correction for a cell with divergence `div` and `s` FLUID
/// neighbors.
pub open spec fn relax_p(div: int, s: int) -> int {
    fx_mul_s((-div) / s, OVER_RELAXATION as int)
}

/// One relaxation update of a single cell: skip non-FLUID cells and cells
/// with no FLUID neighbor; otherwise accumulate the scaled correction into
/// the cell's pressure and push the four face velocities outward, each face
/// only where its neighbor is FLUID.
pub open spec fn proj_cell(m: SimM, cp: int, i: int, j: int) -> SimM {
    let k = m.idx(i, j);
    if m.kind[k] != FLUID {
        m
    } else {
        let s = s_sum(m, i, j);
        if s == 0 {
            m
        } else {
            let p1 = relax_p(divergence(m, i, j), s);
            let dp = fx_mul_s(cp, p1);
            let kx1 = m.idx(i + 1, j);
            let ky1 = m.idx(i, j + 1);
            let vxa = if m.kind[m.idx(i - 1, j)] == FLUID {
                m.vx.update(k, fx_sub_s(m.vx[k], p1))
            } else {
                m.vx
            };
            let vxb = if m.kind[kx1] == FLUID {
                vxa.update(kx1, fx_add_s(m.vx[kx1], p1))
            } else {
                vxa
            };
            let vya = if m.kind[m.idx(i, j - 1)] == FLUID {
                m.vy.update(k, fx_sub_s(m.vy[k], p1))
            } else {
                m.vy
            };
            let vyb = if m.kind[ky1] == FLUID {
                vya.update(ky1, fx_add_s(m.vy[ky1], p1))
            } else {
                vya
            };
            SimM { vx: vxb, vy: vyb, p: m.p.update(k, fx_add_s(m.p[k], dp)), ..m }
        }
    }
}

/// Relaxation of the cells `(i, 1) .. (i, j)` of one column, in row order.
pub open spec fn proj_row(m: SimM, cp: int, i: int, j: int) -> SimM
    decreases j,
{
    if j <= 1 {
        m
    } else {
        proj_cell(proj_row(m, cp, i, j - 1), cp, i, j - 1)
    }
}

/// Relaxation of the interior columns `1 .. i`, each over its full interior.
pub open spec fn proj_col(m: SimM, cp: int, i: int) -> SimM
    decreases i,
{
    if i <= 1 {
        m
    } else {
        proj_row(proj_col(m, cp, i - 1), cp, i - 1, m.h - 1)
    }
}

/// `n` full relaxation sweeps over the interior.
pub open spec fn proj_iters(m: SimM, cp: int, n: nat) -> SimM
    decreases n,
{
    if n == 0 {
        m
    } else {
        proj_col(proj_iters(m, cp, (n - 1) as nat), cp, m.w - 1)
    }
}

/// The pressure scale: `density * cell_size / dt`.
pub open spec fn pressure_scale(m: SimM, dt: int) -> int {
    fx_div_s(fx_mul_s(m.density, m.hs), dt)
}

// ---------------------------------------------------------------------------
// Boundary extrapolation
// ---------------------------------------------------------------------------

/// Horizontal velocity after extrapolation: the top and bottom rows copy
/// their interior neighbor (zero-gradient boundary). The writes happen in
/// row order, so on a two-row grid the second write reads the first.
pub open spec fn extrap_x_cell(m: SimM, k: int) -> int {
    let j = m.cj(k);
    if m.h >= 2 && j == 0 {
        m.vx[k + 1]
    } else if m.h >= 2 && j == m.h - 1 {
        if m.h == 2 {
            m.vx[k]
        } else {
            m.vx[k - 1]
        }
    } else {
        m.vx[k]
    }
}

/// Vertical velocity after extrapolation: the left and right columns copy
/// their interior neighbor, with the same two-column caveat.
pub open spec fn extrap_y_cell(m: SimM, k: int) -> int {
    let i = m.ci(k);
    if m.w >= 2 && i == 0 {
        m.vy[k + m.h]
    } else if m.w >= 2 && i == m.w - 1 {
        if m.w == 2 {
            m.vy[k]
        } else {
            m.vy[k - m.h]
        }
    } else {
        m.vy[k]
    }
}

pub open spec fn extrapolate_m(m: SimM) -> SimM {
    SimM {
        vx: Seq::new(m.vx.len(), |k: int| extrap_x_cell(m, k)),
        vy: Seq::new(m.vy.len(), |k: int| extrap_y_cell(m, k)),
        ..m
    }
}

// ---------------------------------------------------------------------------
// Field sampling
// ---------------------------------------------------------------------------

/// Staggering offset of a field along x.
pub open spec fn field_dx(m: SimM, f: FieldType) -> int {
    match f {
        FieldType::U => 0,
        FieldType::V => m.hs / 2,
        FieldType::S => m.hs / 2,
    }
}

/// Staggering offset of a field along y.
pub open spec fn field_dy(m: SimM, f: FieldType) -> int {
    match f {
        FieldType::U => m.hs / 2,
        FieldType::V => 0,
        FieldType::S => m.hs / 2,
    }
}

/// The flat sequence a field selector names.
pub open spec fn field_seq(m: SimM, f: FieldType) -> Seq<int> {
    match f {
        FieldType::U => m.vx,
        FieldType::V => m.vy,
        FieldType::S => m.smoke,
    }
}

/// Bilinear sample of a staggered field at world position `(x0, y0)`: the
/// position is clamped into the grid, shifted by the field's staggering
/// offset, split into a cell index and a fractional offset, and the four
/// surrounding samples are blended by the fractional weights.
pub open spec fn sample_m(m: SimM, f: FieldType, x0: int, y0: int) -> int {
    let x = clamp_pos(x0, m.hs, m.w * m.hs);
    let y = clamp_pos(y0, m.hs, m.h * m.hs);
    let dx = field_dx(m, f);
    let dy = field_dy(m, f);
    let xi = imin((x - dx) / m.hs, m.w - 1);
    let tx = fx_div_s((x - dx) - xi * m.hs, m.hs);
    let xi1 = imin(xi + 1, m.w - 1);
    let yi = imin((y - dy) / m.hs, m.h - 1);
    let ty = fx_div_s((y - dy) - yi * m.hs, m.hs);
    let yi1 = imin(yi + 1, m.h - 1);
    let sx = SCALE - tx;
    let sy = SCALE - ty;
    let fs = field_seq(m, f);
    let v00 = fx_mul_s(fx_mul_s(sx, sy), fs[m.idx(xi, yi)]);
    let v10 = fx_mul_s(fx_mul_s(tx, sy), fs[m.idx(xi1, yi)]);
    let v11 = fx_mul_s(fx_mul_s(tx, ty), fs[m.idx(xi1, yi1)]);
    let v01 = fx_mul_s(fx_mul_s(sx, ty), fs[m.idx(xi, yi1)]);
    fx_add_s(fx_add_s(fx_add_s(v00, v10), v11), v01)
}

// ---------------------------------------------------------------------------
// Semi-Lagrangian advection
// ---------------------------------------------------------------------------

/// Horizontal velocity of cell `k` after advection: an eligible face traces
/// its position backward by `dt` along the local velocity and resamples the
/// pre-step field there.
pub open spec fn advect_u_cell(m: SimM, dt: int, k: int) -> int {
    let i = m.ci(k);
    let j = m.cj(k);
    if 1 <= i < m.w && 1 <= j < m.h - 1 && m.kind[k] == FLUID && m.kind[k - m.h] == FLUID {
        let x = i * m.hs;
        let y = j * m.hs + m.hs / 2;
        let u = m.vx[k];
        let v = fx_avg_s(m.vy[k], m.vy[k + 1]);
        sample_m(m, FieldType::U, x - fx_mul_s(dt, u), y - fx_mul_s(dt, v))
    } else {
        m.vx[k]
    }
}

/// Vertical velocity of cell `k` after advection.
pub open spec fn advect_v_cell(m: SimM, dt: int, k: int) -> int {
    let i = m.ci(k);
    let j = m.cj(k);
    if 1 <= i < m.w - 1 && 1 <= j < m.h && m.kind[k] == FLUID && m.kind[k - 1] == FLUID {
        let x = i * m.hs + m.hs / 2;
        let y = j * m.hs;
        let u = fx_avg_s(m.vx[k], m.vx[k + m.h]);
        let v = m.vy[k];
        sample_m(m, FieldType::V, x - fx_mul_s(dt, u), y - fx_mul_s(dt, v))
    } else {
        m.vy[k]
    }
}

/// Both velocity fields advected from the same pre-step state.
pub open spec fn advect_vel_m(m: SimM, dt: int) -> SimM {
    SimM {
        vx: Seq::new(m.vx.len(), |k: int| advect_u_cell(m, dt, k)),
        vy: Seq::new(m.vy.len(), |k: int| advect_v_cell(m, dt, k)),
        ..m
    }
}

/// Smoke of cell `k` after advection. A sampled value of exactly zero is
/// treated as no contribution and leaves the cell's smoke unchanged, which
/// keeps empty border samples from bleeding into the plume.
pub open spec fn advect_s_cell(m: SimM, dt: int, k: int) -> int {
    let i = m.ci(k);
    let j = m.cj(k);
    if 1 <= i < m.w - 1 && 1 <= j < m.h - 1 && m.kind[k] == FLUID {
        let u = fx_avg_s(m.vx[k], m.vx[k + m.h]);
        let v = fx_avg_s(m.vy[k], m.vy[k + 1]);
        let x = i * m.hs + m.hs / 2;
        let y = j * m.hs + m.hs / 2;
        let sm = sample_m(m, FieldType::S, x - fx_mul_s(dt, u), y - fx_mul_s(dt, v));
        if sm != 0 {
            sm
        } else {
            m.smoke[k]
        }
    } else {
        m.smoke[k]
    }
}

pub open spec fn advect_smoke_m(m: SimM, dt: int) -> SimM {
    SimM { smoke: Seq::new(m.smoke.len(), |k: int| advect_s_cell(m, dt, k)), ..m }
}

// ---------------------------------------------------------------------------
// Projection laws
// ---------------------------------------------------------------------------

/// Scaling numerator and denominator by a positive factor leaves the
/// Euclidean quotient unchanged, for any sign of the numerator.
pub proof fn lemma_div_scale(a: int, d: int, x: int)
    requires
        0 < d,
        0 < x,
    ensures
        (x * a) / (x * d) == a / d,
{
    lemma_fundamental_div_mod(a, d);
    let q = a / d;
    let r = a % d;
    assert(x * a == q * (x * d) + x * r) by (nonlinear_arith)
        requires
            a == d * q + r,
    ;
    assert(0 <= x * r < x * d) by (nonlinear_arith)
        requires
            0 <= r < d,
            0 < x,
    ;
    lemma_fundamental_div_mod_converse_div(x * a, x * d, q, x * r);
}

/// A single relaxation update changes nothing but the velocity and pressure
/// sequences, and leaves their lengths alone.
pub proof fn lemma_proj_cell_frame(m: SimM, cp: int, i: int, j: int)
    requires
        1 <= m.w,
        1 <= m.h,
        m.vx.len() == m.len(),
        m.vy.len() == m.len(),
        m.p.len() == m.len(),
        1 <= i < m.w - 1,
        1 <= j < m.h - 1,
    ensures
        proj_cell(m, cp, i, j).w == m.w,
        proj_cell(m, cp, i, j).h == m.h,
        proj_cell(m, cp, i, j).hs == m.hs,
        proj_cell(m, cp, i, j).density == m.density,
        proj_cell(m, cp, i, j).kind == m.kind,
        proj_cell(m, cp, i, j).smoke == m.smoke,
        proj_cell(m, cp, i, j).vx.len() == m.vx.len(),
        proj_cell(m, cp, i, j).vy.len() == m.vy.len(),
        proj_cell(m, cp, i, j).p.len() == m.p.len(),
{
    let k = m.idx(i, j);
    lemma_idx_bijective(m, i, j);
    lemma_idx_bijective(m, i + 1, j);
    lemma_idx_bijective(m, i, j + 1);
    if m.kind[k] == FLUID && s_sum(m, i, j) != 0 {
        let p1 = relax_p(divergence(m, i, j), s_sum(m, i, j));
        let kx1 = m.idx(i + 1, j);
        let ky1 = m.idx(i, j + 1);
        let vxa = if m.kind[m.idx(i - 1, j)] == FLUID {
            m.vx.update(k, fx_sub_s(m.vx[k], p1))
        } else {
            m.vx
        };
        assert(vxa.len() == m.vx.len());
        let vya = if m.kind[m.idx(i, j - 1)] == FLUID {
            m.vy.update(k, fx_sub_s(m.vy[k], p1))
        } else {
            m.vy
        };
        assert(vya.len() == m.vy.len());
        assert(proj_cell(m, cp, i, j).vx.len() == vxa.len());
        assert(proj_cell(m, cp, i, j).vy.len() == vya.len());
    }
}

pub proof fn lemma_proj_row_frame(m: SimM, cp: int, i: int, j: int)
    requires
        1 <= m.w,
        1 <= m.h,
        m.vx.len() == m.len(),
        m.vy.len() == m.len(),
        m.p.len() == m.len(),
        1 <= i < m.w - 1,
        j <= m.h - 1,
    ensures
        proj_row(m, cp, i, j).w == m.w,
        proj_row(m, cp, i, j).h == m.h,
        proj_row(m, cp, i, j).hs == m.hs,
        proj_row(m, cp, i, j).density == m.density,
        proj_row(m, cp, i, j).kind == m.kind,
        proj_row(m, cp, i, j).smoke == m.smoke,
        proj_row(m, cp, i, j).vx.len() == m.vx.len(),
        proj_row(m, cp, i, j).vy.len() == m.vy.len(),
        proj_row(m, cp, i, j).p.len() == m.p.len(),
    decreases j,
{
    if j > 1 {
        lemma_proj_row_frame(m, cp, i, j - 1);
        lemma_proj_cell_frame(proj_row(m, cp, i, j - 1), cp, i, j - 1);
    }
}

pub proof fn lemma_proj_col_frame(m: SimM, cp: int, i: int)
    requires
        1 <= m.w,
        1 <= m.h,
        m.vx.len() == m.len(),
        m.vy.len() == m.len(),
        m.p.len() == m.len(),
        i <= m.w - 1,
    ensures
        proj_col(m, cp, i).w == m.w,
        proj_col(m, cp, i).h == m.h,
        proj_col(m, cp, i).hs == m.hs,
        proj_col(m, cp, i).density == m.density,
        proj_col(m, cp, i).kind == m.kind,
        proj_col(m, cp, i).smoke == m.smoke,
        proj_col(m, cp, i).vx.len() == m.vx.len(),
        proj_col(m, cp, i).vy.len() == m.vy.len(),
        proj_col(m, cp, i).p.len() == m.p.len(),
    decreases i,
{
    if i > 1 {
        lemma_proj_col_frame(m, cp, i - 1);
        lemma_proj_row_frame(proj_col(m, cp, i - 1), cp, i - 1, m.h - 1);
    }
}

pub proof fn lemma_proj_iters_frame(m: SimM, cp: int, n: nat)
    requires
        1 <= m.w,
        1 <= m.h,
        m.vx.len() == m.len(),
        m.vy.len() == m.len(),
        m.p.len() == m.len(),
    ensures
        proj_iters(m, cp, n).w == m.w,
        proj_iters(m, cp, n).h == m.h,
        proj_iters(m, cp, n).hs == m.hs,
        proj_iters(m, cp, n).density == m.density,
        proj_iters(m, cp, n).kind == m.kind,
        proj_iters(m, cp, n).smoke == m.smoke,
        proj_iters(m, cp, n).vx.len() == m.vx.len(),
        proj_iters(m, cp, n).vy.len() == m.vy.len(),
        proj_iters(m, cp, n).p.len() == m.p.len(),
    decreases n,
{
    if n > 0 {
        lemma_proj_iters_frame(m, cp, (n - 1) as nat);
        lemma_proj_col_frame(proj_iters(m, cp, (n - 1) as nat), cp, m.w - 1);
    }
}

/// An interior FLUID cell every one of whose four neighbors is SOLID.
pub open spec fn enclosed_cell(m: SimM, i: int, j: int) -> bool {
    &&& 1 <= i < m.w - 1
    &&& 1 <= j < m.h - 1
    &&& m.kind[m.idx(i, j)] == FLUID
    &&& s_sum(m, i, j) == 0
}

pub proof fn lemma_proj_cell_keeps_enclosed_pressure(
    m: SimM,
    cp: int,
    i: int,
    j: int,
    i0: int,
    j0: int,
)
    requires
        1 <= m.w,
        1 <= m.h,
        m.vx.len() == m.len(),
        m.vy.len() == m.len(),
        m.p.len() == m.len(),
        enclosed_cell(m, i0, j0),
        1 <= i < m.w - 1,
        1 <= j < m.h - 1,
    ensures
        proj_cell(m, cp, i, j).p[m.idx(i0, j0)] == m.p[m.idx(i0, j0)],
{
    lemma_idx_bijective(m, i, j);
    lemma_idx_bijective(m, i0, j0);
    if i == i0 && j == j0 {
        assert(s_sum(m, i, j) == 0);
    } else {
        assert(m.idx(i, j) != m.idx(i0, j0));
    }
}

pub proof fn lemma_proj_row_keeps_enclosed_pressure(
    m: SimM,
    cp: int,
    i: int,
    j: int,
    i0: int,
    j0: int,
)
    requires
        1 <= m.w,
        1 <= m.h,
        m.vx.len() == m.len(),
        m.vy.len() == m.len(),
        m.p.len() == m.len(),
        enclosed_cell(m, i0, j0),
        1 <= i < m.w - 1,
        j <= m.h - 1,
    ensures
        proj_row(m, cp, i, j).p[m.idx(i0, j0)] == m.p[m.idx(i0, j0)],
    decreases j,
{
    if j > 1 {
        let mp = proj_row(m, cp, i, j - 1);
        lemma_proj_row_keeps_enclosed_pressure(m, cp, i, j - 1, i0, j0);
        lemma_proj_row_frame(m, cp, i, j - 1);
        lemma_proj_cell_keeps_enclosed_pressure(mp, cp, i, j - 1, i0, j0);
    }
}

pub proof fn lemma_proj_col_keeps_enclosed_pressure(m: SimM, cp: int, i: int, i0: int, j0: int)
    requires
        1 <= m.w,
        1 <= m.h,
        m.vx.len() == m.len(),
        m.vy.len() == m.len(),
        m.p.len() == m.len(),
        enclosed_cell(m, i0, j0),
        i <= m.w - 1,
    ensures
        proj_col(m, cp, i).p[m.idx(i0, j0)] == m.p[m.idx(i0, j0)],
    decreases i,
{
    if i > 1 {
        let mp = proj_col(m, cp, i - 1);
        lemma_proj_col_keeps_enclosed_pressure(m, cp, i - 1, i0, j0);
        lemma_proj_col_frame(m, cp, i - 1);
        lemma_proj_row_keeps_enclosed_pressure(mp, cp, i - 1, m.h - 1, i0, j0);
    }
}

pub proof fn lemma_proj_iters_keeps_enclosed_pressure(m: SimM, cp: int, n: nat, i0: int, j0: int)
    requires
        1 <= m.w,
        1 <= m.h,
        m.vx.len() == m.len(),
        m.vy.len() == m.len(),
        m.p.len() == m.len(),
        enclosed_cell(m, i0, j0),
    ensures
        proj_iters(m, cp, n).p[m.idx(i0, j0)] == m.p[m.idx(i0, j0)],
    decreases n,
{
    if n > 0 {
        let mp = proj_iters(m, cp, (n - 1) as nat);
        lemma_proj_iters_keeps_enclosed_pressure(m, cp, (n - 1) as nat, i0, j0);
        lemma_proj_iters_frame(m, cp, (n - 1) as nat);
        lemma_proj_col_keeps_enclosed_pressure(mp, cp, m.w - 1, i0, j0);
    }
}

/// A FLUID cell fully enclosed by SOLID neighbors is skipped by every
/// relaxation sweep: after the pressure reset and any number of projection
/// sweeps its pressure is still exactly zero.
pub proof fn lemma_enclosed_pressure_stays_zero(m: SimM, cp: int, n: nat, i0: int, j0: int)
    requires
        1 <= m.w,
        1 <= m.h,
        m.vx.len() == m.len(),
        m.vy.len() == m.len(),
        m.p.len() == m.len(),
        enclosed_cell(m, i0, j0),
    ensures
        proj_iters(reset_pressure_m(m), cp, n).p[m.idx(i0, j0)] == 0,
{
    let mr = reset_pressure_m(m);
    lemma_idx_bijective(m, i0, j0);
    lemma_proj_iters_keeps_enclosed_pressure(mr, cp, n, i0, j0);
}

/// A full tick leaves the pressure of a fully enclosed FLUID cell at
/// exactly the reset value, zero: gravity does not touch pressure, the
/// projection skips the cell, and no later pass writes pressure at all. In
/// particular it never diverges.
pub proof fn lemma_simulate_keeps_enclosed_pressure_zero(
    m: SimM,
    gy: int,
    dt: int,
    iters: nat,
    i0: int,
    j0: int,
)
    requires
        m.wf(),
        enclosed_cell(m, i0, j0),
    ensures
        simulate_m(m, gy, dt, iters).p[m.idx(i0, j0)] == 0,
{
    let m1 = integrate_m(m, gy, dt);
    assert(enclosed_cell(m1, i0, j0));
    lemma_enclosed_pressure_stays_zero(m1, pressure_scale(m, dt), iters, i0, j0);
}

/// One relaxation update of an interior FLUID cell strictly shrinks the
/// magnitude of that cell's divergence, provided the divergence is at least
/// a few rounding units and the four face velocities are moderate (so that
/// no saturation clamp engages). Smaller divergences can survive one update
/// unchanged because the correction rounds toward negative infinity.
pub proof fn lemma_proj_cell_reduces_divergence(m: SimM, cp: int, i: int, j: int)
    requires
        m.wf(),
        1 <= i < m.w - 1,
        1 <= j < m.h - 1,
        m.kind[m.idx(i, j)] == FLUID,
        1 <= s_sum(m, i, j),
        94 <= abs(divergence(m, i, j)),
        abs(m.vx[m.idx(i, j)]) <= 100_000_000_000,
        abs(m.vx[m.idx(i + 1, j)]) <= 100_000_000_000,
        abs(m.vy[m.idx(i, j)]) <= 100_000_000_000,
        abs(m.vy[m.idx(i, j + 1)]) <= 100_000_000_000,
    ensures
        abs(divergence(proj_cell(m, cp, i, j), i, j)) < abs(divergence(m, i, j)),
{
    lemma_idx_bijective(m, i, j);
    lemma_idx_bijective(m, i - 1, j);
    lemma_idx_bijective(m, i + 1, j);
    lemma_idx_bijective(m, i, j - 1);
    lemma_idx_bijective(m, i, j + 1);
    let k = m.idx(i, j);
    let kx1 = m.idx(i + 1, j);
    let ky1 = m.idx(i, j + 1);
    let d = divergence(m, i, j);
    let s = s_sum(m, i, j);
    assert(s <= 4);
    assert(abs(d) <= 400_000_000_000);

    // The ideal correction before over-relaxation.
    lemma_fundamental_div_mod(-d, s);
    let q = (-d) / s;
    let r0 = (-d) % s;
    assert(abs(q) <= 400_000_000_000) by (nonlinear_arith)
        requires
            -d == s * q + r0,
            0 <= r0 < s,
            1 <= s <= 4,
            abs(d) <= 400_000_000_000,
    ;

    // The over-relaxed correction: scaling by 1.9 in fixed point is an
    // exact division of 19 * q by 10.
    lemma_div_scale(19 * q, 10, 100_000);
    assert(q * (OVER_RELAXATION as int) == 100_000 * (19 * q) && (SCALE as int) == 100_000 * 10)
        by (nonlinear_arith);
    let p1i = (19 * q) / 10;
    assert(relax_p(d, s) == fx_clamp(p1i));
    lemma_fundamental_div_mod(19 * q, 10);
    let r1 = (19 * q) % 10;
    assert(abs(p1i) <= 760_000_000_000) by (nonlinear_arith)
        requires
            19 * q == 10 * p1i + r1,
            0 <= r1 < 10,
            abs(q) <= 400_000_000_000,
    ;
    assert(fx_clamp(p1i) == p1i);
    let p1 = relax_p(d, s);

    // No face velocity update saturates, so the new divergence is exactly
    // `d + s * p1`.
    let mc = proj_cell(m, cp, i, j);
    let fx0 = m.kind[m.idx(i - 1, j)] as int;
    let fx1 = m.kind[kx1] as int;
    let fy0 = m.kind[m.idx(i, j - 1)] as int;
    let fy1 = m.kind[ky1] as int;
    assert(fx0 == 0 || fx0 == 1);
    assert(fx1 == 0 || fx1 == 1);
    assert(fy0 == 0 || fy0 == 1);
    assert(fy1 == 0 || fy1 == 1);
    assert(-FX_MAX <= m.vx[k] - p1 <= FX_MAX && -FX_MAX <= m.vx[kx1] + p1 <= FX_MAX && -FX_MAX
        <= m.vy[k] - p1 <= FX_MAX && -FX_MAX <= m.vy[ky1] + p1 <= FX_MAX);
    assert(mc.vx[k] == (if fx0 == 1 {
        m.vx[k] - p1
    } else {
        m.vx[k]
    }));
    assert(mc.vx[kx1] == (if fx1 == 1 {
        m.vx[kx1] + p1
    } else {
        m.vx[kx1]
    }));
    assert(mc.vy[k] == (if fy0 == 1 {
        m.vy[k] - p1
    } else {
        m.vy[k]
    }));
    assert(mc.vy[ky1] == (if fy1 == 1 {
        m.vy[ky1] + p1
    } else {
        m.vy[ky1]
    }));
    let dc = divergence(mc, i, j);
    assert(dc == d + s * p1) by (nonlinear_arith)
        requires
            fx0 == 0 || fx0 == 1,
            fx1 == 0 || fx1 == 1,
            fy0 == 0 || fy0 == 1,
            fy1 == 0 || fy1 == 1,
            s == fx0 + fx1 + fy0 + fy1,
            d == m.vx[kx1] - m.vx[k] + m.vy[ky1] - m.vy[k],
            dc == (if fx1 == 1 {
                m.vx[kx1] + p1
            } else {
                m.vx[kx1]
            }) - (if fx0 == 1 {
                m.vx[k] - p1
            } else {
                m.vx[k]
            }) + (if fy1 == 1 {
                m.vy[ky1] + p1
            } else {
                m.vy[ky1]
            }) - (if fy0 == 1 {
                m.vy[k] - p1
            } else {
                m.vy[k]
            }),
    ;

    // Pure algebra: 10 * (d + s * p1) == -9d - 19 r0 - s r1.
    assert(10 * dc == -9 * d - 19 * r0 - s * r1) by (nonlinear_arith)
        requires
            dc == d + s * p1,
            -d == s * q + r0,
            19 * q == 10 * p1 + r1,
    ;
    assert(abs(dc) < abs(d)) by (nonlinear_arith)
        requires
            10 * dc == -9 * d - 19 * r0 - s * r1,
            0 <= r0 < s,
            0 <= r1 < 10,
            1 <= s <= 4,
            94 <= abs(d),
    ;
}

// ---------------------------------------------------------------------------
// Sampling law
// ---------------------------------------------------------------------------

/// Sampling a staggered field exactly at one of its own sample points
/// returns that stored sample: the fractional weights vanish, so bilinear
/// interpolation introduces no error at integer-aligned staggered
/// coordinates.
pub proof fn lemma_sample_at_sample_point(m: SimM, f: FieldType, i: int, j: int)
    requires
        m.wf(),
        1 <= i <= m.w - 1,
        1 <= j <= m.h - 1,
    ensures
        sample_m(m, f, i * m.hs + field_dx(m, f), j * m.hs + field_dy(m, f)) == field_seq(m, f)[
            m.idx(i, j)
        ],
{
    let hs = m.hs;
    let dx = field_dx(m, f);
    let dy = field_dy(m, f);
    lemma_div_span(hs, 2);
    let x0 = i * hs + dx;
    let y0 = j * hs + dy;
    assert(hs <= i * hs && i * hs + hs / 2 < m.w * hs && hs <= j * hs && j * hs + hs / 2 < m.h
        * hs) by (nonlinear_arith)
        requires
            1 <= i <= m.w - 1,
            1 <= j <= m.h - 1,
            1 <= hs,
            0 <= hs / 2 < hs,
    ;
    assert(clamp_pos(x0, hs, m.w * hs) == x0);
    assert(clamp_pos(y0, hs, m.h * hs) == y0);
    assert((i * hs) / hs == i && (j * hs) / hs == j) by {
        lemma_div_multiples_vanish(i, hs);
        lemma_div_multiples_vanish(j, hs);
        assert(hs * i == i * hs && hs * j == j * hs) by (nonlinear_arith);
    }
    assert(imin((x0 - dx) / hs, m.w - 1) == i);
    assert(imin((y0 - dy) / hs, m.h - 1) == j);
    let tx = fx_div_s((x0 - dx) - i * hs, hs);
    let ty = fx_div_s((y0 - dy) - j * hs, hs);
    assert(tx == 0 && ty == 0) by {
        lemma_div_of0(hs);
        assert(0 * SCALE == 0) by (nonlinear_arith);
    }
    let one = SCALE as int;
    assert(fx_mul_s(one, one) == one) by {
        lemma_div_multiples_vanish(one, one);
    }
    lemma_idx_bijective(m, i, j);
    let v = field_seq(m, f)[m.idx(i, j)];
    assert(fx_in_range(v));
    assert(fx_mul_s(one, v) == v) by {
        lemma_div_multiples_vanish(v, one);
        assert(one * v == v * one) by (nonlinear_arith);
    }
    let yi1 = imin(j + 1, m.h - 1);
    let xi1 = imin(i + 1, m.w - 1);
    lemma_idx_bijective(m, xi1, j);
    lemma_idx_bijective(m, xi1, yi1);
    lemma_idx_bijective(m, i, yi1);
    assert(fx_mul_s(0, one) == 0 && fx_mul_s(one, 0) == 0) by {
        lemma_div_of0(one);
        assert(0 * one == 0 && one * 0 == 0) by (nonlinear_arith);
    }
    let f10 = field_seq(m, f)[m.idx(xi1, j)];
    let f11 = field_seq(m, f)[m.idx(xi1, yi1)];
    let f01 = field_seq(m, f)[m.idx(i, yi1)];
    assert(fx_mul_s(0, f10) == 0 && fx_mul_s(0, f11) == 0 && fx_mul_s(0, f01) == 0) by {
        lemma_div_of0(one);
        assert(0 * f10 == 0 && 0 * f11 == 0 && 0 * f01 == 0) by (nonlinear_arith);
    }
    assert(sample_m(m, f, x0, y0) == fx_add_s(fx_add_s(fx_add_s(v, 0), 0), 0));
}

// ---------------------------------------------------------------------------
// One full tick
// ---------------------------------------------------------------------------

/// One fixed timestep: gravity, pressure reset, projection, extrapolation,
/// velocity advection, smoke advection, in that order.
pub open spec fn simulate_m(m: SimM, gy: int, dt: int, iters: nat) -> SimM {
    let m1 = integrate_m(m, gy, dt);
    let m2 = reset_pressure_m(m1);
    let m3 = proj_iters(m2, pressure_scale(m, dt), iters);
    let m4 = extrapolate_m(m3);
    let m5 = advect_vel_m(m4, dt);
    advect_smoke_m(m5, dt)
}

} // verus!
