//! A toy atom in fixed point: a nucleus, electrons that orbit at discrete
//! shell radii, and photons that fly between the screen edge and an electron,
//! changing the electron's shell when they hit it.
//!
//! Positions and velocities are fixed-point numbers in subpixels
//! (`SUBPIXELS` per screen pixel); the frame buffer is RGBA, one byte per
//! channel, `WIDTH` pixels to a row.

pub mod arith;
pub mod electron;
pub mod orbit;
pub mod particle;
pub mod photon;
pub mod prng;
pub mod screen;
pub mod sim;
pub mod text;

use vstd::prelude::*;

verus! {

/// Width of the screen, in pixels.
pub const WIDTH: u64 = 320;

/// Height of the screen, in pixels.
pub const HEIGHT: u64 = 240;

/// Subpixels to a pixel: the unit of every position, velocity and radius.
pub const SUBPIXELS: i64 = 256;

/// Distance between two neighbouring shells, in pixels.
pub const SHELL_SPACING: i64 = 20;

} // verus!
