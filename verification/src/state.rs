//! The analytic field driver: a point source moving along a sinusoidal
//! path, whose field orients and scales every glyph each tick.
//!
//! Each tick computes, for every glyph, the field-line tangent of a current
//! along z through the source (the right-hand rule: `(start - source) x z`),
//! an inverse-square magnitude with a floor against the singularity at the
//! source, and a freshly derived orientation matrix. The source then moves:
//! time advances by a fixed step and the source oscillates along z.

use crate::fixed::{
    cos_fx, cos_s, fx_add, fx_add_s, fx_div, fx_div_s, fx_in_range, fx_mul, fx_mul_s, SCALE,
};
use crate::fluid_vec::{glyph_m, lemma_glyph_wf, FluidSim};
use crate::vector::{
    cross, cross_s, glyph_wf, len2_fx, len2_fx_s, normalize, normalize_s, rotation_s, sub3,
    sub3_s, Vec3Fx, Vector, VectorV, V3,
};
use vstd::prelude::*;

verus! {

/// Simulated time added each tick (a millisecond).
pub const TIME_STEP: i64 = 1_000;

/// Field strength of the moving source (ten).
pub const SOURCE_STRENGTH: i64 = 10_000_000;

/// Floor on the squared distance to the source (a hundredth), keeping the
/// inverse-square law away from its singularity.
pub const DIST_FLOOR: i64 = 10_000;

/// Amplitude of the source's oscillation along z (five).
pub const SWING: i64 = 5_000_000;

/// Where the source sits after accumulating time `t`.
pub open spec fn source_pos_s(t: int) -> V3 {
    V3 { x: 0, y: 0, z: fx_mul_s(cos_s(t), SWING as int) }
}

/// One glyph under the field of a source at `src`: the direction is the
/// normalized tangent `(start - src) x z`, the magnitude the inverse-square
/// falloff with its floor, and the orientation matrix is rederived from the
/// new direction.
pub open spec fn drive_glyph_s(v: VectorV, src: V3) -> VectorV {
    let rel = sub3_s(v.start, src);
    let raw = cross_s(rel, V3 { x: 0, y: 0, z: SCALE as int });
    let d2 = if len2_fx_s(rel) < DIST_FLOOR {
        DIST_FLOOR as int
    } else {
        len2_fx_s(rel)
    };
    let dir = normalize_s(raw);
    VectorV {
        start: v.start,
        direction: dir,
        magnitude: fx_div_s(SOURCE_STRENGTH as int, d2),
        rotation: rotation_s(dir),
    }
}

/// The driver state: the glyph collection, the source position, and the
/// accumulated simulated time.
pub struct State {
    pub vectors: Vec<Vector>,
    pub particle_pos: Vec3Fx,
    pub time: i64,
}

impl State {
    pub open spec fn wf(self) -> bool {
        &&& 0 <= self.time
        &&& fx_in_range(self.time as int)
        &&& self.particle_pos.wf()
        &&& forall|k: int|
            0 <= k < self.vectors@.len() ==> glyph_wf(#[trigger] self.vectors@[k])
    }

    /// A fresh driver over a glyph collection: the source starts at the
    /// origin with no accumulated time.
    pub fn new(vectors: Vec<Vector>) -> (r: State)
        requires
            forall|k: int| 0 <= k < vectors@.len() ==> glyph_wf(#[trigger] vectors@[k]),
        ensures
            r.vectors == vectors,
            r.particle_pos == (Vec3Fx { x: 0, y: 0, z: 0 }),
            r.time == 0,
            r.wf(),
    {
        State { vectors, particle_pos: Vec3Fx { x: 0, y: 0, z: 0 }, time: 0 }
    }

    /// Replace the glyph collection wholesale with a fresh export of the
    /// grid, leaving the driver's own source untouched.
    pub fn update_vectors_from_sim(&mut self, fluid_sim: &FluidSim)
        requires
            old(self).wf(),
            fluid_sim.wf(),
        ensures
            final(self).vectors@.len() == fluid_sim@.len(),
            forall|k: int|
                0 <= k < fluid_sim@.len() ==> (#[trigger] final(self).vectors@[k])@ == glyph_m(
                    fluid_sim@,
                    k,
                ),
            final(self).particle_pos == old(self).particle_pos,
            final(self).time == old(self).time,
            final(self).wf(),
    {
        let new_vectors = fluid_sim.to_vectors();
        self.vectors = new_vectors;
        proof {
            assert forall|k: int| 0 <= k < self.vectors@.len() implies glyph_wf(
                #[trigger] self.vectors@[k],
            ) by {
                lemma_glyph_wf(fluid_sim@, k);
            }
        }
    }

    /// One driver tick: orient and scale every glyph by the field of the
    /// current source position, then advance time and move the source along
    /// its sinusoidal path.
    pub fn run_sim(&mut self)
        requires
            old(self).wf(),
        ensures
            final(self).vectors@.len() == old(self).vectors@.len(),
            forall|k: int|
                0 <= k < old(self).vectors@.len() ==> (#[trigger] final(self).vectors@[k])@
                    == drive_glyph_s(old(self).vectors@[k]@, old(self).particle_pos@),
            final(self).time as int == fx_add_s(old(self).time as int, TIME_STEP as int),
            final(self).particle_pos@ == source_pos_s(final(self).time as int),
            final(self).wf(),
    {
        let total = self.vectors.len();
        let src = self.particle_pos;
        let mut k: usize = 0;
        while k < total
            invariant
                k <= total,
                total == old(self).vectors@.len(),
                self.vectors@.len() == total,
                self.particle_pos == old(self).particle_pos,
                self.time == old(self).time,
                src == old(self).particle_pos,
                old(self).wf(),
                forall|t: int| k <= t < total ==> self.vectors@[t] == old(self).vectors@[t],
                forall|t: int|
                    0 <= t < k ==> (#[trigger] self.vectors@[t])@ == drive_glyph_s(
                        old(self).vectors@[t]@,
                        old(self).particle_pos@,
                    ),
                forall|t: int| 0 <= t < total ==> glyph_wf(#[trigger] self.vectors@[t]),
            decreases total - k,
        {
            let v = self.vectors[k];
            let rel = sub3(v.start, src);
            let raw = cross(rel, Vec3Fx { x: 0, y: 0, z: SCALE });
            let l2 = len2_fx(rel);
            let d2 = if l2 < DIST_FLOOR {
                DIST_FLOOR
            } else {
                l2
            };
            let mag = fx_div(SOURCE_STRENGTH, d2);
            let dir = normalize(raw);
            let g = Vector::new(v.start, dir, mag);
            self.vectors[k] = g;
            k = k + 1;
        }
        self.time = fx_add(self.time, TIME_STEP);
        let c = cos_fx(self.time);
        let z = fx_mul(c, SWING);
        self.particle_pos = Vec3Fx { x: 0, y: 0, z };
    }
}

} // verus!
