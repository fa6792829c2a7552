//! Precomputed orbit offsets, read once per frame instead of doing
//! trigonometry.

use vstd::prelude::*;
use crate::{SHELL_SPACING, SUBPIXELS};

verus! {

/// Entries in an orbit table; the orbit repeats with this period.
pub const ORBIT_STEPS: usize = 255;

/// Radius of the first shell, in subpixels.
pub const RING: i64 = SHELL_SPACING * SUBPIXELS;

/// Screen centre, in subpixels.
pub const CENTER_X: i64 = 160 * SUBPIXELS;
pub const CENTER_Y: i64 = 120 * SUBPIXELS;

/// An offset lies within one shell spacing of the centre.
pub open spec fn on_first_shell(c: i64, s: i64) -> bool {
    c * c + s * s <= RING * RING
}

/// Offsets around a circle of radius `RING`, one pair per step of the orbit.
pub struct OrbitTable {
    pub cos: Vec<i64>,
    pub sin: Vec<i64>,
}

/// The point of shell `shell` at step `frame` of the orbit.
pub open spec fn orbit_point(t: OrbitTable, frame: int, shell: int) -> (int, int) {
    let k = frame % (ORBIT_STEPS as int);
    (CENTER_X + t.cos@[k] * shell, CENTER_Y + t.sin@[k] * shell)
}

impl OrbitTable {
    /// Both columns have one entry per step, each pair within `RING` of
    /// the centre.
    pub open spec fn wf(&self) -> bool {
        &&& self.cos@.len() == ORBIT_STEPS
        &&& self.sin@.len() == ORBIT_STEPS
        &&& forall|k: int| 0 <= k < ORBIT_STEPS ==> on_first_shell(#[trigger] self.cos@[k], self.sin@[k])
    }

    /// A table of the given offsets, or `None` unless there are exactly
    /// `ORBIT_STEPS` of each and every pair lies within `RING` of the centre.
    pub fn from_offsets(cos: Vec<i64>, sin: Vec<i64>) -> (r: Option<OrbitTable>)
        ensures
            r.is_some() <==> (cos@.len() == ORBIT_STEPS && sin@.len() == ORBIT_STEPS && forall|k: int|
                0 <= k < ORBIT_STEPS ==> on_first_shell(#[trigger] cos@[k], sin@[k])),
            r matches Some(t) ==> t.cos@ == cos@ && t.sin@ == sin@ && t.wf(),
    {
        if cos.len() != ORBIT_STEPS || sin.len() != ORBIT_STEPS {
            return None;
        }
        let mut k: usize = 0;
        while k < ORBIT_STEPS
            invariant
                k <= ORBIT_STEPS,
                cos@.len() == ORBIT_STEPS,
                sin@.len() == ORBIT_STEPS,
                forall|m: int| 0 <= m < k ==> on_first_shell(#[trigger] cos@[m], sin@[m]),
            decreases ORBIT_STEPS - k,
        {
            let c: i64 = cos[k];
            let s: i64 = sin[k];
            if c > RING || c < -RING || s > RING || s < -RING {
                assert(!on_first_shell(c, s)) by (nonlinear_arith)
                    requires
                        c > RING || c < -RING || s > RING || s < -RING,
                ;
                return None;
            }
            assert(0 <= c * c <= 5120 * 5120) by (nonlinear_arith)
                requires
                    -5120 <= c <= 5120,
            ;
            assert(0 <= s * s <= 5120 * 5120) by (nonlinear_arith)
                requires
                    -5120 <= s <= 5120,
            ;
            let cc: i64 = c * c;
            let ss: i64 = s * s;
            if cc + ss > RING * RING {
                return None;
            }
            k = k + 1;
        }
        Some(OrbitTable { cos, sin })
    }

    /// Where shell `shell` stands at step `frame`, in subpixels.
    pub fn orbit_position(&self, frame: u8, shell: u8) -> (r: (i64, i64))
        requires
            self.wf(),
        ensures
            r.0 == orbit_point(*self, frame as int, shell as int).0,
            r.1 == orbit_point(*self, frame as int, shell as int).1,
            -0x20_0000 <= r.0 <= 0x20_0000,
            -0x20_0000 <= r.1 <= 0x20_0000,
    {
        let k = frame as usize % ORBIT_STEPS;
        let (c, s) = (self.cos[k], self.sin[k]);
        proof {
            lemma_offset_bounded(c, s);
        }
        let sh = shell as i64;
        assert(-RING * 255 <= c * sh <= RING * 255 && -RING * 255 <= s * sh <= RING * 255) by (nonlinear_arith)
            requires
                -RING <= c <= RING,
                -RING <= s <= RING,
                0 <= sh <= 255,
        ;
        (CENTER_X + c * sh, CENTER_Y + s * sh)
    }
}

/// Each coordinate of an offset on the first shell is within `RING`.
proof fn lemma_offset_bounded(c: i64, s: i64)
    requires
        on_first_shell(c, s),
    ensures
        -RING <= c <= RING,
        -RING <= s <= RING,
{
    assert(-RING <= c <= RING) by (nonlinear_arith)
        requires
            c * c + s * s <= RING * RING,
    ;
    assert(-RING <= s <= RING) by (nonlinear_arith)
        requires
            c * c + s * s <= RING * RING,
    ;
}

/// Every orbit point of shell `shell` lies within `shell` spacings of the
/// screen centre.
pub proof fn lemma_orbit_within_shell(t: OrbitTable, frame: int, shell: int)
    requires
        t.wf(),
        0 <= frame,
        0 <= shell,
    ensures
        ({
            let (x, y) = orbit_point(t, frame, shell);
            (x - CENTER_X) * (x - CENTER_X) + (y - CENTER_Y) * (y - CENTER_Y) <= (shell * RING) * (shell * RING)
        }),
{
    let k = frame % (ORBIT_STEPS as int);
    let (c, s) = (t.cos@[k] as int, t.sin@[k] as int);
    assert(on_first_shell(t.cos@[k], t.sin@[k]));
    assert((c * shell) * (c * shell) + (s * shell) * (s * shell) <= (shell * RING) * (shell * RING))
        by (nonlinear_arith)
        requires
            c * c + s * s <= RING * RING,
    ;
}

/// The orbit repeats every `ORBIT_STEPS` frames.
pub proof fn lemma_orbit_periodic(t: OrbitTable, frame: int, shell: int)
    requires
        0 <= frame,
    ensures
        orbit_point(t, frame + ORBIT_STEPS, shell) == orbit_point(t, frame, shell),
{
    assert((frame + ORBIT_STEPS) % (ORBIT_STEPS as int) == frame % (ORBIT_STEPS as int)) by (nonlinear_arith);
}

} // verus!
