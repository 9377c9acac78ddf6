//! A single simulated droplet: its physical state, the Stokes-drag time
//! step, and the mappings from world position to canvas pixel and from
//! size to color.

use vstd::prelude::*;

use crate::math::{
    clamp_i64, div_trunc, isqrt, lemma_sqrt_floor_is, lemma_sqrt_floor_monotone, mag, sqrt_floor,
};
use crate::world::World;
use crate::{
    DRAG_DEN, DRAG_NUM, GRADIENT_HIGH_B, GRADIENT_HIGH_G, GRADIENT_HIGH_R, GRADIENT_LOW_B,
    GRADIENT_LOW_G, GRADIENT_LOW_R, HEIGHT, MAX_SIZE_CENTI, MICRO, MIN_SIZE_CENTI, PIXEL_ALPHA,
    WIDTH,
};

verus! {

/// One liquid droplet.
///
/// Positions are whole micrometers in world space (`z` is part of the
/// state but never moves: motion is two-dimensional).  Velocities are
/// micrometers per second.  The radius `size` is in hundredths of a
/// micrometer and never changes after creation.
#[derive(Clone, Copy, PartialEq, Eq, Structural, Debug)]
pub struct Droplet {
    pub x: i64,
    pub y: i64,
    pub z: i64,
    pub vx: i64,
    pub vy: i64,
    pub size: i64,
}

impl Droplet {
    /// A physically meaningful droplet: the radius is at least the 0.2 um
    /// floor, and small enough for the fixed-point drag arithmetic.
    pub open spec fn wf(self) -> bool {
        MIN_SIZE_CENTI <= self.size <= MAX_SIZE_CENTI
    }
}

/// The velocity lost to Stokes drag over one step: for a velocity
/// magnitude `v` (um/s), a radius `c` (hundredths of a um) and a time step
/// `dt` (us), the deceleration integrates to `v * dt * DRAG_NUM /
/// (DRAG_DEN * c * c)`, rounded down.
pub open spec fn decel(v: int, c: int, dt: int) -> int
    recommends
        v >= 0,
        c >= 1,
        dt >= 0,
{
    v * dt * (DRAG_NUM as int) / ((DRAG_DEN as int) * c * c)
}

/// One axis of the velocity update.  Drag opposes the motion and is
/// clamped at zero: it slows the droplet but never reverses it, even when
/// the integrated deceleration overshoots the current speed.
pub open spec fn vel_after(v: int, c: int, dt: int) -> int
    recommends
        c >= 1,
        dt >= 0,
{
    let d = decel(mag(v), c, dt);
    if d >= mag(v) {
        0
    } else if v >= 0 {
        v - d
    } else {
        v + d
    }
}

/// One axis of the position update: the displacement `v * dt` scaled from
/// micrometer-microseconds to micrometers, truncated toward zero, and the
/// sum held inside the representable coordinate range.
pub open spec fn pos_after(p: int, v: int, dt: int) -> int
    recommends
        dt >= 0,
{
    clamp_i64(p + div_trunc(v * dt, MICRO as int))
}

/// The droplet after one time step of `dt` microseconds: velocity damped
/// by drag first, then the position advanced by the new velocity.
pub open spec fn stepped(d: Droplet, dt: int) -> Droplet
    recommends
        d.wf(),
        dt >= 0,
{
    let nvx = vel_after(d.vx as int, d.size as int, dt);
    let nvy = vel_after(d.vy as int, d.size as int, dt);
    Droplet {
        x: pos_after(d.x as int, nvx, dt) as i64,
        y: pos_after(d.y as int, nvy, dt) as i64,
        z: d.z,
        vx: nvx as i64,
        vy: nvy as i64,
        size: d.size,
    }
}

/// The squared speed of a droplet.
pub open spec fn speed_sq(d: Droplet) -> int {
    (d.vx as int) * (d.vx as int) + (d.vy as int) * (d.vy as int)
}

/// The speed of a droplet in um/s, rounded down.
pub open spec fn speed_of(d: Droplet) -> int {
    sqrt_floor(speed_sq(d))
}

/// One axis of the world-to-canvas projection: a linear scale by
/// `dim / extent`, rounded down and clamped into `[0, dim]`.
pub open spec fn project(pos: int, extent: int, dim: int) -> int
    recommends
        extent >= 1,
        dim >= 1,
{
    if pos <= 0 {
        0
    } else if pos * dim / extent >= dim {
        dim
    } else {
        pos * dim / extent
    }
}

/// How far along the color gradient a droplet of this size sits, in
/// thousandths: `min(sqrt(size um) / 100, 1)` expressed over the
/// fixed-point radius.
pub open spec fn shade(size: int) -> int
    recommends
        size >= 0,
{
    if sqrt_floor(size) >= 1000 {
        1000
    } else {
        sqrt_floor(size)
    }
}

/// Linear interpolation of one color channel, `s` thousandths of the way
/// from `lo` to `hi`, rounded toward `lo`.
pub open spec fn lerp(lo: int, hi: int, s: int) -> int
    recommends
        0 <= s <= 1000,
{
    if hi >= lo {
        lo + (hi - lo) * s / 1000
    } else {
        lo - (lo - hi) * s / 1000
    }
}

/// The red, green and blue channels of a droplet of the given size.
pub open spec fn color_r(size: int) -> int {
    lerp(GRADIENT_LOW_R as int, GRADIENT_HIGH_R as int, shade(size))
}

pub open spec fn color_g(size: int) -> int {
    lerp(GRADIENT_LOW_G as int, GRADIENT_HIGH_G as int, shade(size))
}

pub open spec fn color_b(size: int) -> int {
    lerp(GRADIENT_LOW_B as int, GRADIENT_HIGH_B as int, shade(size))
}

impl Droplet {
    /// Advance this droplet by `dt` microseconds: damp each velocity axis
    /// by Stokes drag, clamped so drag alone never reverses the motion,
    /// then move by the new velocity, truncating the sub-micrometer part
    /// of the displacement toward zero.
    pub fn step(&mut self, dt: u64)
        requires
            old(self).wf(),
            dt <= MICRO,
        ensures
            *final(self) == stepped(*old(self), dt as int),
            final(self).size == old(self).size,
            final(self).z == old(self).z,
            mag(final(self).vx as int) <= mag(old(self).vx as int),
            mag(final(self).vy as int) <= mag(old(self).vy as int),
    {
        let nvx = vel_axis(self.vx, self.size, dt);
        let nvy = vel_axis(self.vy, self.size, dt);
        let nx = pos_axis(self.x, nvx, dt);
        let ny = pos_axis(self.y, nvy, dt);
        self.vx = nvx;
        self.vy = nvy;
        self.x = nx;
        self.y = ny;
        proof {
            lemma_vel_after_between(old(self).vx as int, old(self).size as int, dt as int);
            lemma_vel_after_between(old(self).vy as int, old(self).size as int, dt as int);
        }
    }

    /// The canvas pixel this droplet projects to, each axis scaled by
    /// `canvas dimension / world extent` and clamped into the canvas.
    pub fn get_pixel(&self, world: &World) -> (p: (u32, u32))
        requires
            world.wf(),
        ensures
            p.0 as int == project(self.x as int, world.extent_x as int, WIDTH as int),
            p.1 as int == project(self.y as int, world.extent_y as int, HEIGHT as int),
            p.0 <= WIDTH,
            p.1 <= HEIGHT,
    {
        let px = project_axis(self.x, world.extent_x, WIDTH);
        let py = project_axis(self.y, world.extent_y, HEIGHT);
        (px, py)
    }

    /// The RGBA color of this droplet: each channel `sqrt(size um) / 100`
    /// (saturated at one) of the way from the low-gradient to the
    /// high-gradient endpoint, with the fixed alpha value.
    pub fn get_color(&self) -> (c: (u8, u8, u8, u8))
        requires
            self.size >= 0,
        ensures
            c.0 as int == color_r(self.size as int),
            c.1 as int == color_g(self.size as int),
            c.2 as int == color_b(self.size as int),
            c.3 == PIXEL_ALPHA,
            self.size == 0 ==> c == (GRADIENT_LOW_R, GRADIENT_LOW_G, GRADIENT_LOW_B, PIXEL_ALPHA),
            self.size >= 1_000_000 ==> c == (
                GRADIENT_HIGH_R,
                GRADIENT_HIGH_G,
                GRADIENT_HIGH_B,
                PIXEL_ALPHA,
            ),
    {
        let root = isqrt(self.size as u128);
        let s: u64 = if root >= 1000 {
            1000
        } else {
            root
        };
        proof {
            assert(s as int == shade(self.size as int));
            if self.size == 0 {
                assert(root as int == 0) by (nonlinear_arith)
                    requires
                        (root as int) * (root as int) <= 0,
                        root as int >= 0,
                ;
            }
            if self.size >= 1_000_000 {
                lemma_sqrt_floor_monotone(1_000_000, self.size as int);
                lemma_sqrt_floor_is(1_000_000, 1000);
            }
        }
        proof {
            crate::math::lemma_scaled_div_le(
                (GRADIENT_LOW_R as u64 - GRADIENT_HIGH_R as u64) as int,
                s as int,
                1000,
            );
            crate::math::lemma_scaled_div_le(
                (GRADIENT_LOW_G as u64 - GRADIENT_HIGH_G as u64) as int,
                s as int,
                1000,
            );
            crate::math::lemma_scaled_div_le(
                (GRADIENT_HIGH_B as u64 - GRADIENT_LOW_B as u64) as int,
                s as int,
                1000,
            );
        }
        // The red and green channels fall along the gradient, blue rises.
        let r: u64 = (GRADIENT_LOW_R as u64) - ((GRADIENT_LOW_R as u64 - GRADIENT_HIGH_R as u64)
            * s) / 1000;
        let g: u64 = (GRADIENT_LOW_G as u64) - ((GRADIENT_LOW_G as u64 - GRADIENT_HIGH_G as u64)
            * s) / 1000;
        let b: u64 = (GRADIENT_LOW_B as u64) + ((GRADIENT_HIGH_B as u64 - GRADIENT_LOW_B as u64)
            * s) / 1000;
        proof {
            if self.size == 0 {
                assert(GRADIENT_LOW_R as u64 - GRADIENT_HIGH_R as u64 == 43);
                assert(GRADIENT_LOW_G as u64 - GRADIENT_HIGH_G as u64 == 81);
                assert(GRADIENT_HIGH_B as u64 - GRADIENT_LOW_B as u64 == 103);
                vstd::arithmetic::div_mod::lemma_basic_div(43 * (s as int), 1000);
                vstd::arithmetic::div_mod::lemma_basic_div(81 * (s as int), 1000);
                vstd::arithmetic::div_mod::lemma_basic_div(103 * (s as int), 1000);
            }
        }
        (r as u8, g as u8, b as u8, PIXEL_ALPHA)
    }
}

/// One axis of the drag update, in executable fixed-point arithmetic.
fn vel_axis(v: i64, size: i64, dt: u64) -> (nv: i64)
    requires
        1 <= size <= MAX_SIZE_CENTI,
        dt <= MICRO,
    ensures
        nv as int == vel_after(v as int, size as int, dt as int),
{
    let m: u64 = if v < 0 {
        (-(v as i128)) as u64
    } else {
        v as u64
    };
    assert(m as int == mag(v as int));
    assert((m as int) * (dt as int) <= 0x8000_0000_0000_0000 * 0x10_0000) by (nonlinear_arith)
        requires
            0 <= m as int <= 0x8000_0000_0000_0000,
            0 <= dt as int <= 0x10_0000,
    ;
    let num: u128 = (m as u128) * (dt as u128) * (DRAG_NUM as u128);
    assert((DRAG_DEN as int) * (size as int) * (size as int)
        <= 997 * 1_000_000_000 * 1_000_000_000) by (nonlinear_arith)
        requires
            0 <= size as int <= 1_000_000_000,
    ;
    assert((DRAG_DEN as int) * (size as int) * (size as int) >= 1) by (nonlinear_arith)
        requires
            size as int >= 1,
    ;
    let den: u128 = (DRAG_DEN as u128) * (size as u128) * (size as u128);
    let d: u128 = num / den;
    assert(d as int == decel(mag(v as int), size as int, dt as int));
    if d >= m as u128 {
        0
    } else if v >= 0 {
        v - d as i64
    } else {
        v + d as i64
    }
}

/// One axis of the position update, in executable fixed-point arithmetic.
fn pos_axis(p: i64, v: i64, dt: u64) -> (np: i64)
    requires
        dt <= MICRO,
    ensures
        np as int == pos_after(p as int, v as int, dt as int),
{
    let m: u64 = if v < 0 {
        (-(v as i128)) as u64
    } else {
        v as u64
    };
    assert(m as int == mag(v as int));
    assert((m as int) * (dt as int) <= 0x8000_0000_0000_0000 * 1_000_000) by (nonlinear_arith)
        requires
            0 <= m as int <= 0x8000_0000_0000_0000,
            0 <= dt as int <= 1_000_000,
    ;
    let dmag: u128 = (m as u128) * (dt as u128) / (MICRO as u128);
    assert(dmag as int == mag(v as int) * (dt as int) / (MICRO as int));
    assert(dmag <= m as u128) by {
        crate::math::lemma_scaled_div_le(m as int, dt as int, MICRO as int);
    }
    let moved: i128 = if v < 0 {
        (p as i128) - (dmag as i128)
    } else {
        (p as i128) + (dmag as i128)
    };
    proof {
        if v < 0 {
            assert((v as int) * (dt as int) == -(mag(v as int) * (dt as int))) by (nonlinear_arith)
                requires
                    mag(v as int) == -(v as int),
            ;
        } else {
            assert((v as int) * (dt as int) == mag(v as int) * (dt as int));
        }
    }
    assert(moved as int == (p as int) + div_trunc((v as int) * (dt as int), MICRO as int));
    if moved < i64::MIN as i128 {
        i64::MIN
    } else if moved > i64::MAX as i128 {
        i64::MAX
    } else {
        moved as i64
    }
}

/// One axis of the projection, in executable arithmetic.
fn project_axis(pos: i64, extent: i64, dim: u32) -> (r: u32)
    requires
        extent >= 1,
        1 <= dim <= 100_000,
    ensures
        r as int == project(pos as int, extent as int, dim as int),
        r <= dim,
{
    if pos <= 0 {
        0
    } else {
        assert((pos as int) * (dim as int) <= 0x8000_0000_0000_0000 * 100_000) by (nonlinear_arith)
            requires
                0 <= pos as int <= 0x8000_0000_0000_0000,
                0 <= dim as int <= 100_000,
        ;
        let t: u128 = (pos as u128) * (dim as u128) / (extent as u128);
        if t >= dim as u128 {
            dim
        } else {
            t as u32
        }
    }
}

/// Drag only ever moves a velocity axis toward zero: the new value lies
/// between the old one and zero.
pub proof fn lemma_vel_after_between(v: int, c: int, dt: int)
    requires
        c >= 1,
        dt >= 0,
    ensures
        v >= 0 ==> 0 <= vel_after(v, c, dt) <= v,
        v < 0 ==> v <= vel_after(v, c, dt) <= 0,
        mag(vel_after(v, c, dt)) <= mag(v),
{
    let d = decel(mag(v), c, dt);
    assert(mag(v) * dt * (DRAG_NUM as int) >= 0) by (nonlinear_arith)
        requires
            mag(v) >= 0,
            dt >= 0,
    ;
    assert((DRAG_DEN as int) * c * c >= 1) by (nonlinear_arith)
        requires
            c >= 1,
    ;
    assert(d >= 0) by {
        vstd::arithmetic::div_mod::lemma_div_pos_is_pos(
            mag(v) * dt * (DRAG_NUM as int),
            (DRAG_DEN as int) * c * c,
        );
    }
}

/// A zero time step is the identity: position and velocity are unchanged.
pub proof fn lemma_step_zero(d: Droplet)
    requires
        d.wf(),
    ensures
        stepped(d, 0) == d,
{
    assert(mag(d.vx as int) * 0 * (DRAG_NUM as int) == 0);
    assert((DRAG_DEN as int) * (d.size as int) * (d.size as int) >= 1) by (nonlinear_arith)
        requires
            d.size >= 1,
    ;
    assert(decel(mag(d.vx as int), d.size as int, 0) == 0);
    assert(decel(mag(d.vy as int), d.size as int, 0) == 0);
    assert(vel_after(d.vx as int, d.size as int, 0) == d.vx as int);
    assert(vel_after(d.vy as int, d.size as int, 0) == d.vy as int);
    assert((d.vx as int) * 0 == 0);
    assert((d.vy as int) * 0 == 0);
    assert(div_trunc(0, MICRO as int) == 0);
    assert(pos_after(d.x as int, d.vx as int, 0) == d.x as int);
    assert(pos_after(d.y as int, d.vy as int, 0) == d.y as int);
}

/// Drag never increases the speed of a droplet: after a step, the
/// magnitude of the velocity is at most what it was before.
pub proof fn lemma_step_slows(d: Droplet, dt: int)
    requires
        d.wf(),
        dt >= 0,
    ensures
        speed_sq(stepped(d, dt)) <= speed_sq(d),
        speed_of(stepped(d, dt)) <= speed_of(d),
{
    lemma_vel_after_between(d.vx as int, d.size as int, dt);
    lemma_vel_after_between(d.vy as int, d.size as int, dt);
    let vx = d.vx as int;
    let vy = d.vy as int;
    let nvx = vel_after(vx, d.size as int, dt);
    let nvy = vel_after(vy, d.size as int, dt);
    assert(stepped(d, dt).vx as int == nvx);
    assert(stepped(d, dt).vy as int == nvy);
    assert(nvx * nvx <= vx * vx) by (nonlinear_arith)
        requires
            (0 <= nvx <= vx) || (vx <= nvx <= 0),
    ;
    assert(nvy * nvy <= vy * vy) by (nonlinear_arith)
        requires
            (0 <= nvy <= vy) || (vy <= nvy <= 0),
    ;
    assert(nvx * nvx >= 0 && nvy * nvy >= 0) by (nonlinear_arith);
    assert(speed_sq(stepped(d, dt)) >= 0);
    assert(speed_sq(stepped(d, dt)) <= speed_sq(d));
    lemma_sqrt_floor_monotone(speed_sq(stepped(d, dt)), speed_sq(d));
}

/// The droplet after `k` successive time steps of `dt` microseconds.
pub open spec fn stepped_n(d: Droplet, dt: int, k: nat) -> Droplet
    decreases k,
{
    if k == 0 {
        d
    } else {
        stepped(stepped_n(d, dt, (k - 1) as nat), dt)
    }
}

/// Under drag alone the speed keeps falling, however many steps are
/// taken: the size never changes, and the speed after `k` steps is at
/// most the starting speed.
pub proof fn lemma_repeated_steps_slow(d: Droplet, dt: int, k: nat)
    requires
        d.wf(),
        dt >= 0,
    ensures
        stepped_n(d, dt, k).wf(),
        stepped_n(d, dt, k).size == d.size,
        speed_sq(stepped_n(d, dt, k)) <= speed_sq(d),
        speed_of(stepped_n(d, dt, k)) <= speed_of(d),
    decreases k,
{
    if k > 0 {
        let prev = stepped_n(d, dt, (k - 1) as nat);
        lemma_repeated_steps_slow(d, dt, (k - 1) as nat);
        lemma_step_slows(prev, dt);
    }
}

} // verus!
