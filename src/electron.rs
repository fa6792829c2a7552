//! An electron: a particle driven around the orbit of its shell.

use vstd::prelude::*;
use crate::orbit::{orbit_point, OrbitTable};
use crate::particle::{drawn, stepped, Particle};

verus! {

/// A particle bound to a shell.
#[derive(Clone, Copy)]
pub struct Electron {
    pub p: Particle,
    pub shell: u8,
}

/// A new electron on shell `shell`: at pixel (16, 16), radius 4 pixels,
/// moving right at 10 pixels a step.
pub open spec fn fresh_electron(shell: u8) -> Electron {
    Electron {
        p: Particle {
            x: (16 * crate::SUBPIXELS) as i64,
            y: (16 * crate::SUBPIXELS) as i64,
            r: (4 * crate::SUBPIXELS) as i64,
            dx: (10 * crate::SUBPIXELS) as i64,
            dy: 0,
            rgba: [0u8, 1u8, 1u8, 255u8],
        },
        shell,
    }
}

/// The electron after one step toward its orbit point at step `frame`.
pub open spec fn electron_stepped(e: Electron, t: OrbitTable, frame: u8) -> Electron {
    let (tx, ty) = orbit_point(t, frame as int, e.shell as int);
    Electron { p: stepped(e.p, tx, ty), shell: e.shell }
}

/// The electron one shell lower; shell 0 stays where it is.
pub open spec fn lowered(e: Electron) -> Electron {
    Electron { p: e.p, shell: if e.shell > 0 { (e.shell - 1) as u8 } else { 0 } }
}

/// The electron one shell higher; the top shell stays where it is.
pub open spec fn raised(e: Electron) -> Electron {
    Electron { p: e.p, shell: if e.shell < 255 { (e.shell + 1) as u8 } else { 255 } }
}

impl Electron {
    /// Its particle is well formed.
    pub open spec fn wf(&self) -> bool {
        self.p.wf()
    }

    /// An electron on shell `shell`, starting at pixel (16, 16).
    pub fn new(shell: u8) -> (r: Electron)
        ensures
            r.wf(),
            r == fresh_electron(shell),
    {
        Electron { p: Particle::new(16, 16), shell }
    }

    /// One step toward the electron's orbit point at step `frame`; an
    /// electron never reports a hit, so the result is always false.
    pub fn update(&mut self, frame: u8, table: &OrbitTable) -> (r: bool)
        requires
            old(self).wf(),
            table.wf(),
        ensures
            *final(self) == electron_stepped(*old(self), *table, frame),
            final(self).wf(),
            !r,
    {
        let (tx, ty) = table.orbit_position(frame, self.shell);
        self.p.update(tx, ty);
        false
    }

    /// Moves one shell down, staying at shell 0.
    pub fn lower(&mut self)
        ensures
            *final(self) == lowered(*old(self)),
    {
        self.shell = self.shell.saturating_sub(1);
    }

    /// Moves one shell up, staying at shell 255.
    pub fn raise(&mut self)
        ensures
            *final(self) == raised(*old(self)),
    {
        self.shell = self.shell.saturating_add(1);
    }

    /// Draws the electron's particle into `frame`.
    pub fn draw(&self, frame: &mut Vec<u8>)
        requires
            self.wf(),
        ensures
            final(frame)@ == drawn(self.p, old(frame)@),
    {
        self.p.draw(frame);
    }

    /// Horizontal position, in subpixels.
    pub fn x(&self) -> (r: i64)
        ensures
            r == self.p.x,
    {
        self.p.x
    }

    /// Vertical position, in subpixels.
    pub fn y(&self) -> (r: i64)
        ensures
            r == self.p.y,
    {
        self.p.y
    }
}

} // verus!
