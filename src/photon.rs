//! Photons: particles that chase an electron or an emission anchor and
//! change a shell when they reach it.

use vstd::prelude::*;
use crate::electron::{lowered, Electron};
use crate::particle::{drawn, in_range, stepped, Particle, Rgba};
use crate::prng::{lcg_step, lemma_state_after_add, output_from, random_word, state_after, Prng};
use crate::{HEIGHT, SUBPIXELS, WIDTH};

verus! {

/// Colour of every photon.
pub const PHOTON_COLOR: Rgba = [1, 1, 0, 1];

/// Distance, in subpixels, below which a photon has reached its target.
pub const HIT_RADIUS: i64 = 10 * SUBPIXELS;

/// Distance of a snapped spawn point from the far edge, and of the default
/// spawn corner from the origin, in pixels.
pub const EDGE_MARGIN: u64 = 10;

/// What a photon flies toward.
#[derive(Clone, Copy)]
pub enum Target {
    /// The electron at this index of the simulation's electrons.
    Bound(usize),
    /// A stand-in electron outside the simulation, where an emitted photon
    /// is headed.
    Anchor(Electron),
}

/// A photon and its target.
#[derive(Clone, Copy)]
pub struct Photon {
    pub p: Particle,
    pub target: Target,
}

/// The spawn point, in pixels, chosen by the six draws that follow state
/// `s`: a coin picks the axis, a second coin whether to snap to the far edge
/// of that axis, and a 32-bit word modulo the other dimension gives the
/// other coordinate.
pub open spec fn edge_point(s: u32) -> (int, int) {
    let on_x_edge = output_from(s) % 2 == 0;
    let snap = output_from(lcg_step(s)) % 2 == 0;
    let w = random_word(lcg_step(lcg_step(s))) as int;
    if on_x_edge {
        (if snap { WIDTH - EDGE_MARGIN } else { EDGE_MARGIN as int }, w % (HEIGHT as int))
    } else {
        (w % (WIDTH as int), if snap { HEIGHT - EDGE_MARGIN } else { EDGE_MARGIN as int })
    }
}

/// A resting photon-sized particle at the spawn point chosen from state `s`.
pub open spec fn edge_particle(s: u32) -> Particle {
    Particle {
        x: (edge_point(s).0 * SUBPIXELS) as i64,
        y: (edge_point(s).1 * SUBPIXELS) as i64,
        r: (4 * SUBPIXELS) as i64,
        dx: 0,
        dy: 0,
        rgba: PHOTON_COLOR,
    }
}

/// The photon made for electron `source` (at index `handle`) from generator
/// state `s`. A leaving photon starts as a copy of the electron's particle
/// and flies to a stand-in electron at the spawn point; an arriving one
/// starts at the spawn point and flies to the electron.
pub open spec fn photon_born(source: Electron, handle: usize, leaving: bool, s: u32) -> Photon {
    if leaving {
        Photon {
            p: Particle {
                x: source.p.x,
                y: source.p.y,
                r: source.p.r,
                dx: source.p.dx,
                dy: source.p.dy,
                rgba: PHOTON_COLOR,
            },
            target: Target::Anchor(Electron { p: edge_particle(s), shell: 0 }),
        }
    } else {
        Photon { p: edge_particle(s), target: Target::Bound(handle) }
    }
}

/// Where the target stands, in subpixels.
pub open spec fn aim(t: Target, es: Seq<Electron>) -> (int, int) {
    match t {
        Target::Bound(i) => (es[i as int].p.x as int, es[i as int].p.y as int),
        Target::Anchor(e) => (e.p.x as int, e.p.y as int),
    }
}

/// `p` is within `HIT_RADIUS` of `(tx, ty)`.
#[verifier::opaque]
pub open spec fn hits(p: Particle, tx: int, ty: int) -> bool {
    (p.x - tx) * (p.x - tx) + (p.y - ty) * (p.y - ty) < HIT_RADIUS * HIT_RADIUS
}

/// One step of photon `ph` among electrons `es`: the photon moves toward its
/// target; if it is then within `HIT_RADIUS`, the target goes one shell
/// down. Gives the new photon, the new electrons and whether it hit.
pub open spec fn photon_stepped(ph: Photon, es: Seq<Electron>) -> (Photon, Seq<Electron>, bool) {
    let (tx, ty) = aim(ph.target, es);
    let p = stepped(ph.p, tx, ty);
    let hit = hits(p, tx, ty);
    match ph.target {
        Target::Bound(i) => (
            Photon { p, target: ph.target },
            if hit { es.update(i as int, lowered(es[i as int])) } else { es },
            hit,
        ),
        Target::Anchor(e) => (
            Photon { p, target: if hit { Target::Anchor(lowered(e)) } else { ph.target } },
            es,
            hit,
        ),
    }
}

/// Every electron is well formed.
pub open spec fn all_wf(es: Seq<Electron>) -> bool {
    forall|i: int| 0 <= i < es.len() ==> (#[trigger] es[i]).wf()
}

impl Photon {
    /// The particle is well formed and the target is an electron among
    /// the first `n`, or a well-formed anchor.
    pub open spec fn wf(&self, n: nat) -> bool {
        &&& self.p.wf()
        &&& match self.target {
            Target::Bound(i) => i < n,
            Target::Anchor(e) => e.wf(),
        }
    }

    /// A photon for electron `source`, which stands at index `handle`; it
    /// draws six values from `rng` to pick its spawn point.
    pub fn new(source: &Electron, handle: usize, leaving: bool, rng: &mut Prng) -> (r: Photon)
        requires
            source.wf(),
        ensures
            r == photon_born(*source, handle, leaving, old(rng).state),
            final(rng).state == state_after(old(rng).state, 6),
            leaving ==> r.wf(0),
            !leaving ==> r.wf((handle + 1) as nat),
    {
        let (ex, ey) = spawn_point(rng);
        let edge = Particle {
            x: ex as i64 * SUBPIXELS,
            y: ey as i64 * SUBPIXELS,
            r: 4 * SUBPIXELS,
            dx: 0,
            dy: 0,
            rgba: PHOTON_COLOR,
        };
        if leaving {
            Photon {
                p: Particle {
                    x: source.p.x,
                    y: source.p.y,
                    r: source.p.r,
                    dx: source.p.dx,
                    dy: source.p.dy,
                    rgba: PHOTON_COLOR,
                },
                target: Target::Anchor(Electron { p: edge, shell: 0 }),
            }
        } else {
            Photon { p: edge, target: Target::Bound(handle) }
        }
    }

    /// One step toward the target; true when the photon has reached it,
    /// in which case the target has gone one shell down. See
    /// `photon_stepped`.
    pub fn update(&mut self, electrons: &mut Vec<Electron>) -> (r: bool)
        requires
            old(self).wf(old(electrons)@.len()),
            all_wf(old(electrons)@),
        ensures
            (*final(self), final(electrons)@, r) == photon_stepped(*old(self), old(electrons)@),
            final(self).wf(final(electrons)@.len()),
            all_wf(final(electrons)@),
            final(electrons)@.len() == old(electrons)@.len(),
    {
        let (tx, ty) = match self.target {
            Target::Bound(i) => (electrons[i].p.x, electrons[i].p.y),
            Target::Anchor(e) => (e.p.x, e.p.y),
        };
        self.p.update(tx, ty);
        let hit = near(&self.p, tx, ty);
        if hit {
            match self.target {
                Target::Bound(i) => {
                    let mut e = electrons[i];
                    e.lower();
                    electrons[i] = e;
                    assert(electrons@ =~= old(electrons)@.update(i as int, lowered(old(electrons)@[i as int])));
                },
                Target::Anchor(e) => {
                    let mut e2 = e;
                    e2.lower();
                    self.target = Target::Anchor(e2);
                },
            }
        }
        hit
    }

    /// Draws the photon's particle into `frame`.
    pub fn draw(&self, frame: &mut Vec<u8>)
        requires
            self.p.wf(),
        ensures
            final(frame)@ == drawn(self.p, old(frame)@),
    {
        self.p.draw(frame);
    }

    /// Horizontal position, in subpixels.
    pub fn x(&self) -> (r: i64)
        ensures
            r == self.p.x,
    {
        self.p.x
    }

    /// Vertical position, in subpixels.
    pub fn y(&self) -> (r: i64)
        ensures
            r == self.p.y,
    {
        self.p.y
    }
}

/// The spawn point chosen by the next six draws: see `edge_point`.
fn spawn_point(rng: &mut Prng) -> (r: (u64, u64))
    ensures
        r.0 as int == edge_point(old(rng).state).0,
        r.1 as int == edge_point(old(rng).state).1,
        r.0 < WIDTH,
        r.1 < HEIGHT,
        final(rng).state == state_after(old(rng).state, 6),
{
    let ghost s = rng.state;
    let on_x_edge = rng.random_bool();
    let snap = rng.random_bool();
    let w = rng.random_u32() as u64;
    proof {
        lemma_state_after_add(s, 2, 4);
        reveal_with_fuel(state_after, 3);
        assert(state_after(s, 2) == lcg_step(lcg_step(s)));
    }
    let ghost wv = random_word(lcg_step(lcg_step(s))) as int;
    assert(w as int == wv);
    let (ex, ey) = if on_x_edge {
        (if snap { WIDTH - EDGE_MARGIN } else { EDGE_MARGIN }, w % HEIGHT)
    } else {
        (w % WIDTH, if snap { HEIGHT - EDGE_MARGIN } else { EDGE_MARGIN })
    };
    assert(ex as int == edge_point(s).0 && ey as int == edge_point(s).1);
    assert(ex < WIDTH && ey < HEIGHT);
    (ex, ey)
}

/// Whether `p` is within `HIT_RADIUS` of `(tx, ty)`.
fn near(p: &Particle, tx: i64, ty: i64) -> (r: bool)
    requires
        in_range(p.x as int),
        in_range(p.y as int),
        in_range(tx as int),
        in_range(ty as int),
    ensures
        r == hits(*p, tx as int, ty as int),
{
    reveal(hits);
    let ox = p.x - tx;
    let oy = p.y - ty;
    if ox >= HIT_RADIUS || ox <= -HIT_RADIUS || oy >= HIT_RADIUS || oy <= -HIT_RADIUS {
        assert(ox * ox + oy * oy >= 2560 * 2560) by (nonlinear_arith)
            requires
                ox >= 2560 || ox <= -2560 || oy >= 2560 || oy <= -2560,
        ;
        return false;
    }
    assert(0 <= ox * ox <= 2560 * 2560 && 0 <= oy * oy <= 2560 * 2560) by (nonlinear_arith)
        requires
            -2560 <= ox <= 2560,
            -2560 <= oy <= 2560,
    ;
    ox * ox + oy * oy < HIT_RADIUS * HIT_RADIUS
}

} // verus!
