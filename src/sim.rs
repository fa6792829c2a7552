//! The simulation: electrons, the photons in flight, the frame counter and
//! the commands that the surrounding program forwards to it.

use vstd::prelude::*;
use crate::electron::{electron_stepped, fresh_electron, raised, Electron};
use crate::orbit::OrbitTable;
use crate::particle::{drawn, Particle, Rgba};
use crate::photon::{all_wf, photon_born, photon_stepped, Photon, Target};
use crate::prng::{state_after, Prng};
use crate::screen::{fade, faded};

verus! {

/// Colour of an electron that is not selected.
pub const ELECTRON_COLOR: Rgba = [0x00, 0x11, 0x11, 0xff];

/// Colour of the selected electron.
pub const SELECTED_COLOR: Rgba = [0x11, 0x11, 0x22, 0xff];

/// Colour of the nucleus.
pub const NUCLEUS_COLOR: Rgba = [0xdd, 0xaa, 0x11, 0xff];

/// The shell every simulation starts its electron on.
pub const START_SHELL: u8 = 2;

/// The energy of shell `shell`, in hundredths of an electronvolt; none for
/// shell 0 and for shells past the table.
pub open spec fn shell_energy(shell: int) -> Option<i64> {
    if shell == 1 {
        Some(-1360i64)
    } else if shell == 2 {
        Some(-340i64)
    } else if shell == 3 {
        Some(-150i64)
    } else if shell == 4 {
        Some(-85i64)
    } else if shell == 5 {
        Some(-54i64)
    } else if shell == 6 {
        Some(-38i64)
    } else {
        None
    }
}

/// The energy of shell `shell`, in hundredths of an electronvolt: `None`
/// for shell 0 and for every shell above 6.
pub fn energy_of(shell: u8) -> (r: Option<i64>)
    ensures
        r == shell_energy(shell as int),
{
    match shell {
        1 => Some(-1360),
        2 => Some(-340),
        3 => Some(-150),
        4 => Some(-85),
        5 => Some(-54),
        6 => Some(-38),
        _ => None,
    }
}

/// The nucleus: a particle at the centre of the screen.
pub open spec fn nucleus() -> Particle {
    Particle {
        x: (160 * crate::SUBPIXELS) as i64,
        y: (120 * crate::SUBPIXELS) as i64,
        r: (4 * crate::SUBPIXELS) as i64,
        dx: (10 * crate::SUBPIXELS) as i64,
        dy: 0,
        rgba: NUCLEUS_COLOR,
    }
}

/// Every electron after one step of the orbit.
pub open spec fn electrons_stepped(es: Seq<Electron>, t: OrbitTable, frame: u8) -> Seq<Electron> {
    es.map_values(|e: Electron| electron_stepped(e, t, frame))
}

/// The photons `phs` stepped in order among electrons `es`: the photons
/// that did not hit, in their order, and the electrons afterwards.
pub open spec fn photon_pass(phs: Seq<Photon>, es: Seq<Electron>) -> (Seq<Photon>, Seq<Electron>)
    decreases phs.len(),
{
    if phs.len() == 0 {
        (Seq::empty(), es)
    } else {
        let (kept, es1) = photon_pass(phs.drop_last(), es);
        let (ph, es2, hit) = photon_stepped(phs.last(), es1);
        (if hit { kept } else { kept.push(ph) }, es2)
    }
}

/// `buf` with the particles `ps` drawn over it, first to last.
pub open spec fn draw_all(ps: Seq<Particle>, buf: Seq<u8>) -> Seq<u8>
    decreases ps.len(),
{
    if ps.len() == 0 {
        buf
    } else {
        drawn(ps.last(), draw_all(ps.drop_last(), buf))
    }
}

/// The electron with another colour.
pub open spec fn recolored(e: Electron, c: Rgba) -> Electron {
    Electron {
        p: Particle { x: e.p.x, y: e.p.y, r: e.p.r, dx: e.p.dx, dy: e.p.dy, rgba: c },
        shell: e.shell,
    }
}

/// The particles of some electrons.
pub open spec fn electron_particles(es: Seq<Electron>) -> Seq<Particle> {
    es.map_values(|e: Electron| e.p)
}

/// The particles of some photons.
pub open spec fn photon_particles(phs: Seq<Photon>) -> Seq<Particle> {
    phs.map_values(|ph: Photon| ph.p)
}

/// A photon bound for electron `i` that reaches it in a tick takes that
/// electron exactly one shell down and leaves the photons in flight, every
/// other electron untouched; one that does not reach it stays in flight and
/// changes no electron.
pub proof fn lemma_hit_lowers_target_once(ph: Photon, es: Seq<Electron>, i: usize)
    requires
        ph.target == Target::Bound(i),
        i < es.len(),
        es[i as int].shell >= 1,
    ensures
        ({
            let (ph2, es2, hit) = photon_stepped(ph, es);
            &&& photon_pass(seq![ph], es) == (if hit { Seq::empty() } else { seq![ph2] }, es2)
            &&& es2.len() == es.len()
            &&& hit ==> es2[i as int].shell == es[i as int].shell - 1
            &&& hit ==> forall|k: int| 0 <= k < es.len() && k != i ==> es2[k] == es[k]
            &&& !hit ==> es2 == es
        }),
{
    reveal_with_fuel(photon_pass, 2);
    let one = seq![ph];
    assert(one.drop_last() =~= Seq::<Photon>::empty());
    assert(one.last() == ph);
    let (ph2, es2, hit) = photon_stepped(ph, es);
    if !hit {
        assert(Seq::<Photon>::empty().push(ph2) =~= seq![ph2]);
    }
}

/// A photon flying to an anchor changes no electron, whether it arrives
/// or not: emitting moves only the emitting electron's shell.
pub proof fn lemma_anchor_photon_leaves_electrons(ph: Photon, es: Seq<Electron>)
    requires
        ph.target matches Target::Anchor(_),
    ensures
        photon_stepped(ph, es).1 == es,
{
}

/// A toy atom in motion.
pub struct Simulation {
    pub electrons: Vec<Electron>,
    pub photons: Vec<Photon>,
    pub frame: u8,
    pub selected: usize,
    pub rng: Prng,
    pub orbit: OrbitTable,
}

impl Simulation {
    /// There is an electron, the selection points at one, every electron and
    /// photon is well formed and every photon's electron exists.
    pub open spec fn wf(&self) -> bool {
        &&& self.electrons@.len() > 0
        &&& self.selected < self.electrons@.len()
        &&& all_wf(self.electrons@)
        &&& forall|k: int| 0 <= k < self.photons@.len() ==> (#[trigger] self.photons@[k]).wf(self.electrons@.len())
        &&& self.orbit.wf()
    }

    /// One electron on shell `START_SHELL`, selected, no photons, frame 0
    /// and a generator in its starting state.
    pub fn new(orbit: OrbitTable) -> (r: Simulation)
        requires
            orbit.wf(),
        ensures
            r.wf(),
            r.electrons@ == seq![fresh_electron(START_SHELL)],
            r.photons@.len() == 0,
            r.frame == 0,
            r.selected == 0,
            r.rng.state == crate::prng::SEED,
            r.orbit == orbit,
    {
        let mut electrons: Vec<Electron> = Vec::new();
        electrons.push(Electron::new(START_SHELL));
        assert(electrons@ =~= seq![fresh_electron(START_SHELL)]);
        Simulation { electrons, photons: Vec::new(), frame: 0, selected: 0, rng: Prng::new(), orbit }
    }

    /// Advances by one frame: every electron steps along its orbit, then
    /// every photon steps in order, and the photons that hit are removed.
    pub fn tick(&mut self)
        requires
            old(self).wf(),
        ensures
            final(self).wf(),
            (final(self).photons@, final(self).electrons@) == photon_pass(
                old(self).photons@,
                electrons_stepped(old(self).electrons@, old(self).orbit, old(self).frame),
            ),
            final(self).frame == (old(self).frame + 1) % 256,
            final(self).selected == old(self).selected,
            final(self).rng == old(self).rng,
            final(self).orbit == old(self).orbit,
    {
        let ghost es0 = self.electrons@;
        let n = self.electrons.len();
        let mut i: usize = 0;
        while i < n
            invariant
                n == es0.len(),
                i <= n,
                self.electrons@.len() == n,
                self.orbit.wf(),
                self.orbit == old(self).orbit,
                self.frame == old(self).frame,
                all_wf(es0),
                self.photons@ == old(self).photons@,
                self.selected == old(self).selected,
                self.rng == old(self).rng,
                forall|k: int| 0 <= k < i ==> self.electrons@[k] == electron_stepped(es0[k], self.orbit, self.frame),
                forall|k: int| 0 <= k < i ==> (#[trigger] self.electrons@[k]).wf(),
                forall|k: int| i <= k < n ==> self.electrons@[k] == es0[k],
            decreases n - i,
        {
            let mut e = self.electrons[i];
            assert(es0[i as int].wf());
            e.update(self.frame, &self.orbit);
            self.electrons[i] = e;
            i = i + 1;
        }
        let ghost es1 = self.electrons@;
        assert(es1 =~= electrons_stepped(es0, self.orbit, self.frame));
        assert(all_wf(es1));
        let ghost phs = self.photons@;
        let m = self.photons.len();
        let mut kept: Vec<Photon> = Vec::new();
        let mut k: usize = 0;
        while k < m
            invariant
                m == phs.len(),
                k <= m,
                phs == self.photons@,
                self.selected == old(self).selected,
                self.selected < n,
                self.rng == old(self).rng,
                self.orbit == old(self).orbit,
                self.orbit.wf(),
                self.frame == old(self).frame,
                self.electrons@.len() == n,
                n > 0,
                all_wf(self.electrons@),
                forall|q: int| 0 <= q < m ==> (#[trigger] phs[q]).wf(n as nat),
                forall|q: int| 0 <= q < kept@.len() ==> (#[trigger] kept@[q]).wf(n as nat),
                (kept@, self.electrons@) == photon_pass(phs.subrange(0, k as int), es1),
            decreases m - k,
        {
            let mut ph = self.photons[k];
            let hit = ph.update(&mut self.electrons);
            if !hit {
                kept.push(ph);
            }
            proof {
                let sub = phs.subrange(0, k + 1);
                assert(sub.drop_last() =~= phs.subrange(0, k as int));
                assert(sub.last() == phs[k as int]);
            }
            k = k + 1;
        }
        assert(phs.subrange(0, m as int) =~= phs);
        self.photons = kept;
        let f = self.frame;
        let next = if f == 255 { 0 } else { f + 1 };
        assert(next == (f + 1) % 256) by (nonlinear_arith)
            requires
                next == if f == 255 { 0 } else { f + 1 },
                f < 256,
        ;
        self.frame = next;
    }

    /// Draws a frame: the fade, the nucleus, every electron, then every
    /// photon.
    pub fn render(&self, frame: &mut Vec<u8>)
        requires
            self.wf(),
        ensures
            final(frame)@ == draw_all(
                photon_particles(self.photons@),
                draw_all(electron_particles(self.electrons@), drawn(nucleus(), faded(old(frame)@))),
            ),
    {
        fade(frame);
        let mut core = Particle::new(160, 120);
        core.rgba = NUCLEUS_COLOR;
        core.draw(frame);
        let ghost base = frame@;
        let n = self.electrons.len();
        let mut i: usize = 0;
        while i < n
            invariant
                self.wf(),
                n == self.electrons@.len(),
                i <= n,
                frame@ == draw_all(electron_particles(self.electrons@).subrange(0, i as int), base),
            decreases n - i,
        {
            self.electrons[i].draw(frame);
            proof {
                let sub = electron_particles(self.electrons@).subrange(0, i + 1);
                assert(sub.drop_last() =~= electron_particles(self.electrons@).subrange(0, i as int));
            }
            i = i + 1;
        }
        assert(electron_particles(self.electrons@).subrange(0, n as int) =~= electron_particles(self.electrons@));
        let ghost mid = frame@;
        let m = self.photons.len();
        let mut k: usize = 0;
        while k < m
            invariant
                self.wf(),
                m == self.photons@.len(),
                k <= m,
                frame@ == draw_all(photon_particles(self.photons@).subrange(0, k as int), mid),
            decreases m - k,
        {
            self.photons[k].draw(frame);
            proof {
                let sub = photon_particles(self.photons@).subrange(0, k + 1);
                assert(sub.drop_last() =~= photon_particles(self.photons@).subrange(0, k as int));
            }
            k = k + 1;
        }
        assert(photon_particles(self.photons@).subrange(0, m as int) =~= photon_particles(self.photons@));
    }

    /// Moves the selection to the next electron, wrapping to the first; the
    /// old selection gets `ELECTRON_COLOR` and the new one `SELECTED_COLOR`.
    pub fn select_next_electron(&mut self)
        requires
            old(self).wf(),
        ensures
            final(self).wf(),
            final(self).selected == (old(self).selected + 1) % (old(self).electrons@.len() as int),
            ({
                let es = old(self).electrons@;
                let s0 = old(self).selected as int;
                let s1 = final(self).selected as int;
                let dimmed = es.update(s0, recolored(es[s0], ELECTRON_COLOR));
                final(self).electrons@ == dimmed.update(s1, recolored(dimmed[s1], SELECTED_COLOR))
            }),
            final(self).photons@ == old(self).photons@,
            final(self).frame == old(self).frame,
            final(self).rng == old(self).rng,
            final(self).orbit == old(self).orbit,
    {
        let s0 = self.selected;
        let mut e = self.electrons[s0];
        e.p.rgba = ELECTRON_COLOR;
        self.electrons[s0] = e;
        let len = self.electrons.len();
        let s1 = if s0 >= len - 1 { 0 } else { s0 + 1 };
        assert(s1 == (s0 + 1) % (len as int)) by (nonlinear_arith)
            requires
                s0 < len,
                s1 == if s0 >= len - 1 { 0 } else { s0 + 1 },
        ;
        let mut e = self.electrons[s1];
        e.p.rgba = SELECTED_COLOR;
        self.electrons[s1] = e;
        self.selected = s1;
        assert(self.electrons@.len() == old(self).electrons@.len());
    }

    /// Sends a photon away from the selected electron, which goes one shell
    /// up at once (staying at 255); the photon flies to a point on the edge
    /// of the screen.
    pub fn emit_photon(&mut self)
        requires
            old(self).wf(),
        ensures
            final(self).wf(),
            ({
                let es = old(self).electrons@;
                let s = old(self).selected;
                &&& final(self).photons@ == old(self).photons@.push(
                    photon_born(es[s as int], s, true, old(self).rng.state),
                )
                &&& final(self).electrons@ == es.update(s as int, raised(es[s as int]))
            }),
            final(self).rng.state == state_after(old(self).rng.state, 6),
            final(self).selected == old(self).selected,
            final(self).frame == old(self).frame,
            final(self).orbit == old(self).orbit,
    {
        let s = self.selected;
        let ph = Photon::new(&self.electrons[s], s, true, &mut self.rng);
        self.photons.push(ph);
        let mut e = self.electrons[s];
        e.raise();
        self.electrons[s] = e;
        assert(self.electrons@.len() == old(self).electrons@.len());
        assert(all_wf(self.electrons@));
    }

    /// Sends a photon from a point on the edge of the screen toward the
    /// selected electron; the shell changes only when it arrives.
    pub fn absorb_photon(&mut self)
        requires
            old(self).wf(),
        ensures
            final(self).wf(),
            final(self).photons@ == old(self).photons@.push(
                photon_born(old(self).electrons@[old(self).selected as int], old(self).selected, false, old(self).rng.state),
            ),
            final(self).electrons@ == old(self).electrons@,
            final(self).rng.state == state_after(old(self).rng.state, 6),
            final(self).selected == old(self).selected,
            final(self).frame == old(self).frame,
            final(self).orbit == old(self).orbit,
    {
        let s = self.selected;
        let ph = Photon::new(&self.electrons[s], s, false, &mut self.rng);
        self.photons.push(ph);
    }

    /// The energy of the selected electron's shell; see `energy_of`.
    pub fn selected_energy(&self) -> (r: Option<i64>)
        requires
            self.wf(),
        ensures
            r == shell_energy(self.electrons@[self.selected as int].shell as int),
    {
        energy_of(self.electrons[self.selected].shell)
    }
}

} // verus!
