//! A falling-droplet simulation.
//!
//! A population of liquid droplets is synthesised from a fixed size
//! mixture, integrated forward under Stokes drag, and rasterised into an
//! RGBA pixel canvas.  The whole numeric pipeline is deterministic and
//! works in fixed-point units: positions and velocities in whole
//! micrometers (per second), droplet radii in hundredths of a micrometer,
//! time steps in microseconds.

use vstd::prelude::*;

pub mod droplet;
pub mod math;
pub mod sampler;
pub mod world;

verus! {

/// Canvas width in pixels.
pub const WIDTH: u32 = 800;

/// Canvas height in pixels.
pub const HEIGHT: u32 = 800;

/// Scale between base SI units and the micro-scaled units used throughout:
/// micrometers per meter, and equally microseconds per second.
pub const MICRO: u64 = 1_000_000;

/// Radii below this floor (in hundredths of a micrometer, so 0.2 um) are
/// clamped up at creation: a zero-mass droplet is physically meaningless.
pub const MIN_SIZE_CENTI: i64 = 20;

/// Radii above this cap (in hundredths of a micrometer, a ten-meter
/// sphere) are clamped down at creation; the cap is a machine limit that
/// keeps the fixed-point drag arithmetic inside 128 bits, far beyond any
/// radius the mixture model can produce.
pub const MAX_SIZE_CENTI: i64 = 1_000_000_000;

/// One simulation time step, in microseconds (166 us per frame tick).
pub const TIME_STEP_MICROS: u64 = 166;

/// Numerator of the drag factor: the velocity lost to Stokes drag over a
/// step is `v * dt * DRAG_NUM / (DRAG_DEN * c * c)` for velocity `v` in
/// um/s, time step `dt` in us and radius `c` in hundredths of a um.
///
/// Derivation: Stokes' law gives the drag force on a sphere as
/// `F = 6 * pi * mu * v * r`, and a water sphere weighs
/// `m = (4/3) * pi * rho * r^3`, so the deceleration is
/// `a = F / m = (9/2) * mu * v / (rho * r^2)`.  With the dynamic viscosity
/// of air `mu = 1.81e-5 Pa s`, water density `rho = 997 kg/m^3`, and the
/// unit conversions above, `a * dt` comes out as exactly the rational
/// `814500 / 997` times `v * dt / c^2`.
pub const DRAG_NUM: u64 = 814_500;

/// Denominator of the drag factor: the water density in kg/m^3.
pub const DRAG_DEN: u64 = 997;

/// Color shown by the smallest droplets (red, green, blue).
pub const GRADIENT_LOW_R: u8 = 211;
pub const GRADIENT_LOW_G: u8 = 131;
pub const GRADIENT_LOW_B: u8 = 18;

/// Color shown by the largest droplets (red, green, blue).
pub const GRADIENT_HIGH_R: u8 = 168;
pub const GRADIENT_HIGH_G: u8 = 50;
pub const GRADIENT_HIGH_B: u8 = 121;

/// Alpha channel written for every droplet pixel.  Kept at the minimal
/// value rather than full opacity: the renderer ignores alpha, and this
/// preserves the long-standing appearance of the gradient.
pub const PIXEL_ALPHA: u8 = 1;

} // verus!
