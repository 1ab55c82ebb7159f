//! The tilt-driven particle simulator.
//!
//! A [`BeerSimulator`] owns ten particles in a `[0, width] x [0, height]`
//! area. Each call to [`BeerSimulator::update`] feeds an accelerometer
//! sample into a naive pseudo-gravity integration with damped boundary
//! reflection; [`BeerSimulator::get_state`] reports a snapshot of the
//! particles together with a pair of clamped tilt angles derived from the
//! sample. A sample that failed to decode at the host boundary arrives
//! here as `None`: `update` then does nothing, and `get_state` reports
//! neutral tilt.

use vstd::prelude::*;
use vstd::string::StringExecFns;

use crate::fixed::{clamped, lemma_tdiv_bounds, sat64, tdiv, Fx, SCALE};
use crate::text::{fx_chars, push_fx};

verus! {

/// How many particles a simulator owns, for its whole lifetime.
pub const PARTICLE_COUNT: usize = 10;

/// One accelerometer reading. The `z` axis is accepted but plays no part
/// in the simulation.
#[derive(Clone, Copy, Debug)]
pub struct AccelerometerData {
    pub x: Fx,
    pub y: Fx,
    pub z: Fx,
}

/// One particle: a position and a velocity in the simulation plane.
#[derive(Clone, Copy, Debug)]
pub struct FluidParticle {
    pub x: Fx,
    pub y: Fx,
    pub vx: Fx,
    pub vy: Fx,
}

/// A snapshot of the simulation: a copy of the particles and the two
/// derived tilt angles, in degrees.
#[derive(Debug)]
pub struct FluidState {
    pub particles: Vec<FluidParticle>,
    pub tilt_x_deg: Fx,
    pub tilt_z_deg: Fx,
}

/// The simulator: ten particles, the area bounds, and the fixed
/// tilt-derivation constants.
pub struct BeerSimulator {
    particles: Vec<FluidParticle>,
    width: Fx,
    height: Fx,
    max_tilt_angle_x: Fx,
    max_tilt_angle_z: Fx,
    sensitivity_multiplier: i64,
}

/// Where particle `i` starts in a `w`-by-`h` area (raw dimensions):
/// spread along the horizontal midline, at rest.
pub open spec fn initial_particle(i: int, w: int, h: int) -> FluidParticle {
    FluidParticle {
        x: Fx { raw: (i * tdiv(w, 10) + tdiv(w, 20)) as i64 },
        y: Fx { raw: tdiv(h, 2) as i64 },
        vx: Fx { raw: 0 },
        vy: Fx { raw: 0 },
    }
}

/// The particle sits inside the `w`-by-`h` area.
pub open spec fn particle_in_bounds(p: FluidParticle, w: int, h: int) -> bool {
    &&& 0 <= p.x.raw <= w
    &&& 0 <= p.y.raw <= h
}

impl BeerSimulator {
    /// The particles as they currently stand.
    pub closed spec fn parts(self) -> Seq<FluidParticle> {
        self.particles@
    }

    /// The width of the simulation area.
    pub closed spec fn w(self) -> Fx {
        self.width
    }

    /// The height of the simulation area.
    pub closed spec fn h(self) -> Fx {
        self.height
    }

    /// The three derivation constants hold their fixed values:
    /// 35 and 45 degrees of maximal tilt, and a sensitivity of 5.
    pub closed spec fn consts_ok(self) -> bool {
        &&& self.max_tilt_angle_x.raw == 35 * SCALE
        &&& self.max_tilt_angle_z.raw == 45 * SCALE
        &&& self.sensitivity_multiplier == 5
    }

    /// Well-formed: a positive area, the fixed particle population, every
    /// particle inside the area, and the constants in place.
    pub open spec fn wf(self) -> bool {
        &&& 0 < self.w().raw
        &&& 0 < self.h().raw
        &&& self.consts_ok()
        &&& self.parts().len() == PARTICLE_COUNT
        &&& forall|i: int|
            0 <= i < self.parts().len() ==> particle_in_bounds(
                #[trigger] self.parts()[i],
                self.w().raw as int,
                self.h().raw as int,
            )
    }

    /// Build a simulator for a positive `width`-by-`height` area, with
    /// ten particles spread evenly along the horizontal midline, at rest.
    pub fn new(width: Fx, height: Fx) -> (r: BeerSimulator)
        requires
            0 < width.raw,
            0 < height.raw,
        ensures
            r.wf(),
            r.w() == width,
            r.h() == height,
            r.parts().len() == PARTICLE_COUNT,
            forall|i: int|
                0 <= i < PARTICLE_COUNT ==> #[trigger] r.parts()[i] == initial_particle(
                    i,
                    width.raw as int,
                    height.raw as int,
                ),
    {
        proof {
            lemma_initial_layout(width.raw as int, height.raw as int);
        }
        let spacing: Fx = width.div_pos(10);
        let half_spacing: Fx = width.div_pos(20);
        let mid_y: Fx = height.div_pos(2);
        let mut particles: Vec<FluidParticle> = Vec::new();
        for i in 0..PARTICLE_COUNT
            invariant
                spacing.raw == tdiv(width.raw as int, 10),
                half_spacing.raw == tdiv(width.raw as int, 20),
                mid_y.raw == tdiv(height.raw as int, 2),
                0 < width.raw,
                0 < height.raw,
                particles@.len() == i,
                forall|j: int|
                    0 <= j < i ==> #[trigger] particles@[j] == initial_particle(
                        j,
                        width.raw as int,
                        height.raw as int,
                    ),
        {
            proof {
                lemma_initial_layout(width.raw as int, height.raw as int);
                assert((i as int) * (spacing.raw as int) + (half_spacing.raw as int)
                    == initial_particle(i as int, width.raw as int, height.raw as int).x.raw);
            }
            let x: Fx = Fx::from_raw((i as i64) * spacing.raw + half_spacing.raw);
            particles.push(FluidParticle { x, y: mid_y, vx: Fx::zero(), vy: Fx::zero() });
        }
        BeerSimulator {
            particles,
            width,
            height,
            max_tilt_angle_x: Fx::from_raw(35 * SCALE),
            max_tilt_angle_z: Fx::from_raw(45 * SCALE),
            sensitivity_multiplier: 5,
        }
    }

    /// Advance the simulation by one tick under the sample `accel`. A
    /// sample that failed to decode (`None`) leaves the simulator
    /// untouched. The tick length `_dt` is accepted but unused: the
    /// integration works in fixed per-tick increments.
    pub fn update(&mut self, accel: Option<AccelerometerData>, _dt: Fx)
        requires
            old(self).wf(),
        ensures
            final(self).wf(),
            final(self).w() == old(self).w(),
            final(self).h() == old(self).h(),
            match accel {
                None => *final(self) == *old(self),
                Some(a) => final(self).parts().len() == PARTICLE_COUNT && forall|i: int|
                    0 <= i < PARTICLE_COUNT ==> #[trigger] final(self).parts()[i]
                        == stepped_particle(
                        old(self).parts()[i],
                        a.x.raw as int,
                        a.y.raw as int,
                        old(self).w().raw as int,
                        old(self).h().raw as int,
                    ),
            },
    {
        if let Some(a) = accel {
            let w: Fx = self.width;
            let h: Fx = self.height;
            let mut updated: Vec<FluidParticle> = Vec::new();
            let n: usize = self.particles.len();
            for i in 0..n
                invariant
                    *self == *old(self),
                    n == self.particles@.len(),
                    w == self.width,
                    h == self.height,
                    updated@.len() == i,
                    forall|j: int|
                        0 <= j < i ==> #[trigger] updated@[j] == stepped_particle(
                            self.particles@[j],
                            a.x.raw as int,
                            a.y.raw as int,
                            w.raw as int,
                            h.raw as int,
                        ),
            {
                let p: FluidParticle = self.particles[i];
                updated.push(step_particle(p, a.x, a.y, w, h));
            }
            self.particles = updated;
            proof {
                assert forall|i: int| 0 <= i < self.particles@.len() implies particle_in_bounds(
                    #[trigger] self.particles@[i],
                    w.raw as int,
                    h.raw as int,
                ) by {
                    lemma_step_in_bounds(
                        old(self).parts()[i],
                        a.x.raw as int,
                        a.y.raw as int,
                        w.raw as int,
                        h.raw as int,
                    );
                }
            }
        }
    }

    /// Derive the tilt pair `(tilt_x, tilt_z)` for one decoded sample:
    /// scaled by the sensitivity, clamped to the per-axis maxima.
    pub fn derive_tilt(&self, accel: &AccelerometerData) -> (r: (Fx, Fx))
        requires
            self.wf(),
        ensures
            r.0.raw == tilt_x_of(accel.y.raw as int),
            r.1.raw == tilt_z_of(accel.x.raw as int),
    {
        let sens: i64 = self.sensitivity_multiplier;
        let tz_raw: Fx = accel.x.mul_int_sat(-sens);
        let tx_raw: Fx = accel.y.mul_int_sat(sens);
        let tz: Fx = tz_raw.clamp(self.max_tilt_angle_z.neg_sat(), self.max_tilt_angle_z);
        let tx: Fx = tx_raw.clamp(self.max_tilt_angle_x.neg_sat(), self.max_tilt_angle_x);
        (tx, tz)
    }

    /// A snapshot of the simulation: a copy of the particles, owned by
    /// the caller, and the tilt pair for `accel` — neutral when the
    /// sample failed to decode.
    pub fn get_state(&self, accel: Option<AccelerometerData>) -> (st: FluidState)
        requires
            self.wf(),
        ensures
            st.particles@ == self.parts(),
            match accel {
                None => st.tilt_x_deg.raw == 0 && st.tilt_z_deg.raw == 0,
                Some(a) => st.tilt_x_deg.raw == tilt_x_of(a.y.raw as int) && st.tilt_z_deg.raw
                    == tilt_z_of(a.x.raw as int),
            },
            -35 * SCALE <= st.tilt_x_deg.raw <= 35 * SCALE,
            -45 * SCALE <= st.tilt_z_deg.raw <= 45 * SCALE,
    {
        let (tilt_x_deg, tilt_z_deg): (Fx, Fx) = match &accel {
            Some(a) => self.derive_tilt(a),
            None => (Fx::zero(), Fx::zero()),
        };
        proof {
            if let Some(a) = accel {
                lemma_tilt_clamped(a.x.raw as int, a.y.raw as int);
            }
        }
        let particles: Vec<FluidParticle> = self.particles.clone();
        proof {
            assert(particles@ =~= self.particles@);
        }
        FluidState { particles, tilt_x_deg, tilt_z_deg }
    }

    /// The fixed-template greeting, embedding `name` and the area bounds.
    pub fn greet(&self, name: &str) -> (r: String)
        requires
            self.wf(),
        ensures
            r@ == greeting_chars(name@, self.w().raw as int, self.h().raw as int),
    {
        let mut out: String = String::from_str("Hello from Rust WASM, ");
        out.append(name);
        out.append("! Simulator ready for ");
        push_fx(&mut out, self.width);
        out.append("x");
        push_fx(&mut out, self.height);
        out.append(" area.");
        proof {
            assert(out@ =~= greeting_chars(name@, self.w().raw as int, self.h().raw as int));
        }
        out
    }
}

/// The tilt about the x axis for the raw reading `ay`: scaled by the
/// sensitivity of five, clamped to 35 degrees either way.
pub open spec fn tilt_x_of(ay: int) -> int {
    clamped(5 * ay, -35 * SCALE, 35 * SCALE)
}

/// The tilt about the z axis for the raw reading `ax`: the reading
/// reversed, scaled by the sensitivity of five, clamped to 45 degrees
/// either way.
pub open spec fn tilt_z_of(ax: int) -> int {
    clamped(-5 * ax, -45 * SCALE, 45 * SCALE)
}

/// The tilt-clamp law: for every reading, the derived angles stay within
/// 35 degrees about x and 45 degrees about z.
pub proof fn lemma_tilt_clamped(ax: int, ay: int)
    ensures
        -35 * SCALE <= tilt_x_of(ay) <= 35 * SCALE,
        -45 * SCALE <= tilt_z_of(ax) <= 45 * SCALE,
{
}

/// The greeting text for `name` and the raw area bounds `w` and `h`.
pub open spec fn greeting_chars(name: Seq<char>, w: int, h: int) -> Seq<char> {
    "Hello from Rust WASM, "@ + name + "! Simulator ready for "@ + fx_chars(w) + "x"@ + fx_chars(h)
        + " area."@
}

/// One integration step for a single particle in a `w`-by-`h` area,
/// driven by the raw acceleration reading `(ax, ay)`: pseudo-gravity
/// nudges the velocity by a tenth of the reading, the position advances
/// by the velocity, and each axis is clamped to its wall with the
/// velocity reversed and halved on contact.
pub open spec fn stepped_particle(p: FluidParticle, ax: int, ay: int, w: int, h: int) -> FluidParticle {
    let vx1 = sat64(p.vx.raw - tdiv(ax, 10));
    let vy1 = sat64(p.vy.raw - tdiv(ay, 10));
    let x1 = sat64(p.x.raw + vx1);
    let y1 = sat64(p.y.raw + vy1);
    let x2 = if x1 < 0 { 0 } else { x1 };
    let vx2 = if x1 < 0 { -tdiv(vx1, 2) } else { vx1 };
    let x3 = if x2 > w { w } else { x2 };
    let vx3 = if x2 > w { -tdiv(vx2, 2) } else { vx2 };
    let y2 = if y1 < 0 { 0 } else { y1 };
    let vy2 = if y1 < 0 { -tdiv(vy1, 2) } else { vy1 };
    let y3 = if y2 > h { h } else { y2 };
    let vy3 = if y2 > h { -tdiv(vy2, 2) } else { vy2 };
    FluidParticle {
        x: Fx { raw: x3 as i64 },
        y: Fx { raw: y3 as i64 },
        vx: Fx { raw: vx3 as i64 },
        vy: Fx { raw: vy3 as i64 },
    }
}

/// One executable integration step, exactly [`stepped_particle`].
fn step_particle(p: FluidParticle, ax: Fx, ay: Fx, w: Fx, h: Fx) -> (r: FluidParticle)
    ensures
        r == stepped_particle(p, ax.raw as int, ay.raw as int, w.raw as int, h.raw as int),
{
    let vx1: Fx = p.vx.add_sat(ax.div_pos(10).neg_sat());
    let vy1: Fx = p.vy.add_sat(ay.div_pos(10).neg_sat());
    let x1: Fx = p.x.add_sat(vx1);
    let y1: Fx = p.y.add_sat(vy1);
    let mut x: Fx = x1;
    let mut vx: Fx = vx1;
    if x.raw < 0 {
        x = Fx::zero();
        vx = vx.div_pos(2).neg_sat();
    }
    if x.raw > w.raw {
        x = w;
        vx = vx.div_pos(2).neg_sat();
    }
    let mut y: Fx = y1;
    let mut vy: Fx = vy1;
    if y.raw < 0 {
        y = Fx::zero();
        vy = vy.div_pos(2).neg_sat();
    }
    if y.raw > h.raw {
        y = h;
        vy = vy.div_pos(2).neg_sat();
    }
    FluidParticle { x, y, vx, vy }
}

/// The boundary-clamp law: whatever the reading and the incoming
/// particle, one step lands inside the play area.
pub proof fn lemma_step_in_bounds(p: FluidParticle, ax: int, ay: int, w: int, h: int)
    requires
        0 < w <= i64::MAX,
        0 < h <= i64::MAX,
    ensures
        particle_in_bounds(stepped_particle(p, ax, ay, w, h), w, h),
{
}

/// The reflection-damping law at the left wall: a particle that would
/// cross to `x < 0` lands exactly on the wall, with the velocity that
/// drove it there reversed and halved.
pub proof fn lemma_reflection_damping(p: FluidParticle, ax: int, ay: int, w: int, h: int)
    requires
        0 < w <= i64::MAX,
        0 < h <= i64::MAX,
        sat64(p.x.raw + sat64(p.vx.raw - tdiv(ax, 10))) < 0,
    ensures
        stepped_particle(p, ax, ay, w, h).x.raw == 0,
        stepped_particle(p, ax, ay, w, h).vx.raw == -tdiv(sat64(p.vx.raw - tdiv(ax, 10)), 2),
{
    let vx1 = sat64(p.vx.raw - tdiv(ax, 10));
    lemma_tdiv_bounds(vx1, 2);
    crate::fixed::lemma_tdiv_i64_narrow(vx1, 2);
}

/// The initial layout law: for any positive area, the ten starting
/// particles are at rest on the horizontal midline, evenly spaced by a
/// tenth of the width, ascending, and inside the area.
pub proof fn lemma_initial_layout(w: int, h: int)
    requires
        0 < w <= i64::MAX,
        0 < h <= i64::MAX,
    ensures
        forall|i: int|
            0 <= i < PARTICLE_COUNT ==> (#[trigger] initial_particle(i, w, h)).x.raw == i * tdiv(
                w,
                10,
            ) + tdiv(w, 20),
        forall|i: int|
            0 <= i < PARTICLE_COUNT ==> (#[trigger] initial_particle(i, w, h)).y.raw == tdiv(h, 2)
                && initial_particle(i, w, h).vx.raw == 0 && initial_particle(i, w, h).vy.raw == 0,
        forall|i: int|
            0 <= i < PARTICLE_COUNT - 1 ==> (#[trigger] initial_particle(i + 1, w, h)).x.raw
                - initial_particle(i, w, h).x.raw == tdiv(w, 10),
        forall|i: int, j: int|
            0 <= i <= j < PARTICLE_COUNT ==> (#[trigger] initial_particle(i, w, h)).x.raw <= (
            #[trigger] initial_particle(j, w, h)).x.raw,
        forall|i: int|
            0 <= i < PARTICLE_COUNT ==> particle_in_bounds(#[trigger] initial_particle(i, w, h), w, h),
{
    let q = w / 10;
    let half = w / 20;
    assert(0 <= q) by {
        vstd::arithmetic::div_mod::lemma_div_pos_is_pos(w, 10);
    }
    assert(0 <= half) by {
        vstd::arithmetic::div_mod::lemma_div_pos_is_pos(w, 20);
    }
    assert(half <= q) by {
        vstd::arithmetic::div_mod::lemma_div_is_ordered_by_denominator(w, 10, 20);
    }
    assert(10 * q <= w) by {
        vstd::arithmetic::div_mod::lemma_fundamental_div_mod(w, 10);
        vstd::arithmetic::div_mod::lemma_mod_division_less_than_divisor(w, 10);
        assert(w == 10 * (w / 10) + w % 10);
    }
    assert(0 <= h / 2 <= h) by {
        vstd::arithmetic::div_mod::lemma_div_pos_is_pos(h, 2);
        vstd::arithmetic::div_mod::lemma_div_nonincreasing(h, 2);
    }
    assert forall|i: int| 0 <= i < PARTICLE_COUNT implies (#[trigger] initial_particle(i, w, h)).x.raw
        == i * q + half && particle_in_bounds(initial_particle(i, w, h), w, h) by {
        assert(0 <= i * q <= 9 * q) by (nonlinear_arith)
            requires
                0 <= i <= 9,
                0 <= q,
        ;
        assert(9 * q + half <= 10 * q <= w);
        assert(0 <= i * q + half <= w);
    }
    assert forall|i: int| 0 <= i < PARTICLE_COUNT - 1 implies (#[trigger] initial_particle(
        i + 1,
        w,
        h,
    )).x.raw - initial_particle(i, w, h).x.raw == q by {
        assert((i + 1) * q == i * q + q) by (nonlinear_arith);
    }
    assert forall|i: int, j: int| 0 <= i <= j < PARTICLE_COUNT implies (#[trigger] initial_particle(
        i,
        w,
        h,
    )).x.raw <= (#[trigger] initial_particle(j, w, h)).x.raw by {
        assert(i * q <= j * q) by (nonlinear_arith)
            requires
                0 <= i <= j,
                0 <= q,
        ;
    }
}

} // verus!
