//! The damped-spring body shared by every visible thing, and its rasterizer.

use vstd::prelude::*;
use crate::arith::{floor_sqrt, isqrt, saturate, saturating, scale, scale_toward_zero};
use crate::{HEIGHT, SUBPIXELS, WIDTH};

verus! {

/// An RGBA colour, one byte per channel.
pub type Rgba = [u8; 4];

/// Largest magnitude of a position or velocity, in subpixels; positions
/// saturate there.
pub const LIMIT: i64 = 0x100_0000_0000;

/// Largest drawing radius, in subpixels.
pub const MAX_RADIUS: i64 = 0x10_0000;

/// Fraction of the distance to the target added to the velocity each step
/// (`PULL_NUM / PULL_DEN`).
pub const PULL_NUM: i64 = 6;
pub const PULL_DEN: i64 = 100;

/// Fraction of the velocity kept each step (`DAMP_NUM / DAMP_DEN`).
pub const DAMP_NUM: i64 = 7;
pub const DAMP_DEN: i64 = 10;

/// Brightness at the centre of a particle, before it saturates at 255.
pub const GLOW_PEAK: i64 = 300;

/// A point body with a velocity, a drawing radius and a colour.
#[derive(Clone, Copy)]
pub struct Particle {
    pub x: i64,
    pub y: i64,
    pub r: i64,
    pub dx: i64,
    pub dy: i64,
    pub rgba: Rgba,
}

/// `v` is a position or velocity in range.
pub open spec fn in_range(v: int) -> bool {
    -LIMIT <= v <= LIMIT
}

/// The velocity after a bounce: reversed while the body overlaps either
/// edge of `[0, extent]`.
pub open spec fn bounced(pos: int, v: int, r: int, extent: int) -> int {
    if pos + r > extent || pos - r < 0 {
        -v
    } else {
        v
    }
}

/// The velocity after one step along an axis: bounce, pull toward the
/// target, then damping.
pub open spec fn next_velocity(pos: int, v: int, r: int, extent: int, target: int) -> int {
    let pulled = bounced(pos, v, r, extent) + scale_toward_zero(target - pos, PULL_NUM as int, PULL_DEN as int);
    scale_toward_zero(pulled, DAMP_NUM as int, DAMP_DEN as int)
}

/// The particle after one step toward `(tx, ty)`.
#[verifier::opaque]
pub open spec fn stepped(p: Particle, tx: int, ty: int) -> Particle {
    let dx = next_velocity(p.x as int, p.dx as int, p.r as int, WIDTH * SUBPIXELS, tx);
    let dy = next_velocity(p.y as int, p.dy as int, p.r as int, HEIGHT * SUBPIXELS, ty);
    Particle {
        x: saturate(p.x + dx, LIMIT as int) as i64,
        y: saturate(p.y + dy, LIMIT as int) as i64,
        r: p.r,
        dx: dx as i64,
        dy: dy as i64,
        rgba: p.rgba,
    }
}

/// Squared distance, in subpixels, from the particle to the top-left
/// corner of pixel `i` of a frame `WIDTH` pixels wide.
pub open spec fn dist_sq(p: Particle, i: int) -> int {
    let ox = (i % (WIDTH as int)) * SUBPIXELS - p.x;
    let oy = (i / (WIDTH as int)) * SUBPIXELS - p.y;
    ox * ox + oy * oy
}

/// The brightness factor of pixel `i`: none outside the radius, and inside
/// it `(r - distance) / r * GLOW_PEAK`, at most 255.
pub open spec fn glow(p: Particle, i: int) -> Option<u8> {
    let d2 = dist_sq(p, i);
    if d2 < p.r * p.r {
        let f = (p.r - floor_sqrt(d2)) * GLOW_PEAK / (p.r as int);
        Some(if f > 255 { 255u8 } else { f as u8 })
    } else {
        None
    }
}

/// A colour channel scaled by a brightness factor, wrapping modulo 256.
pub open spec fn tinted(c: u8, f: u8) -> u8 {
    ((c as int * f as int) % 256) as u8
}

/// The frame `buf` after drawing `p`: each whole pixel within the radius
/// gets the particle's colour scaled by its glow, every other byte is kept.
pub open spec fn drawn(p: Particle, buf: Seq<u8>) -> Seq<u8> {
    Seq::new(
        buf.len(),
        |j: int|
            if j < (buf.len() / 4) * 4 {
                match glow(p, j / 4) {
                    Some(f) => tinted(p.rgba@[j % 4], f),
                    None => buf[j],
                }
            } else {
                buf[j]
            },
    )
}

impl Particle {
    /// Positions and velocities are in range and the radius is positive
    /// and bounded.
    pub open spec fn wf(&self) -> bool {
        &&& in_range(self.x as int)
        &&& in_range(self.y as int)
        &&& in_range(self.dx as int)
        &&& in_range(self.dy as int)
        &&& 0 < self.r <= MAX_RADIUS
    }

    /// A particle at pixel `(px, py)` with radius 4, moving right at 10
    /// pixels a step.
    pub fn new(px: i16, py: i16) -> (r: Particle)
        ensures
            r.wf(),
            r.x == px as int * SUBPIXELS,
            r.y == py as int * SUBPIXELS,
            r.r == 4 * SUBPIXELS,
            r.dx == 10 * SUBPIXELS,
            r.dy == 0,
            r.rgba == [0u8, 1u8, 1u8, 255u8],
    {
        Particle {
            x: px as i64 * SUBPIXELS,
            y: py as i64 * SUBPIXELS,
            r: 4 * SUBPIXELS,
            dx: 10 * SUBPIXELS,
            dy: 0,
            rgba: [0, 1, 1, 255],
        }
    }

    /// Horizontal position, in subpixels.
    pub fn x(&self) -> (r: i64)
        ensures
            r == self.x,
    {
        self.x
    }

    /// Vertical position, in subpixels.
    pub fn y(&self) -> (r: i64)
        ensures
            r == self.y,
    {
        self.y
    }

    /// One step toward `(tx, ty)`; a bare particle never reports a hit, so
    /// the result is always false.
    pub fn update(&mut self, tx: i64, ty: i64) -> (r: bool)
        requires
            old(self).wf(),
            in_range(tx as int),
            in_range(ty as int),
        ensures
            *final(self) == stepped(*old(self), tx as int, ty as int),
            final(self).wf(),
            !r,
    {
        proof {
            reveal(stepped);
        }
        let dx = axis_step(self.x, self.dx, self.r, WIDTH as i64 * SUBPIXELS, tx);
        let dy = axis_step(self.y, self.dy, self.r, HEIGHT as i64 * SUBPIXELS, ty);
        self.x = saturating(self.x + dx, LIMIT);
        self.y = saturating(self.y + dy, LIMIT);
        self.dx = dx;
        self.dy = dy;
        false
    }

    /// The glow of pixel `i`, as `glow` states it.
    pub fn glow_at(&self, i: usize) -> (r: Option<u8>)
        requires
            self.wf(),
            i < 0x4000_0000_0000_0000,
        ensures
            r == glow(*self, i as int),
    {
        let col: i64 = (i as u64 % WIDTH) as i64;
        let row: u64 = i as u64 / WIDTH;
        let r = self.r;
        if row > 0x100_0000_0000 {
            proof {
                let oy = row * SUBPIXELS - self.y;
                let ox = col * SUBPIXELS - self.x;
                assert(oy * oy >= r * r && ox * ox >= 0) by (nonlinear_arith)
                    requires
                        oy >= r,
                        r > 0,
                ;
            }
            return None;
        }
        let ox: i64 = col * SUBPIXELS - self.x;
        let oy: i64 = row as i64 * SUBPIXELS - self.y;
        if ox >= r || ox <= -r || oy >= r || oy <= -r {
            assert(ox * ox + oy * oy >= r * r) by (nonlinear_arith)
                requires
                    ox >= r || ox <= -r || oy >= r || oy <= -r,
                    r > 0,
            ;
            return None;
        }
        assert(0 <= ox * ox < r * r && 0 <= oy * oy < r * r && r * r <= 0x100_0000_0000) by (nonlinear_arith)
            requires
                -r < ox < r,
                -r < oy < r,
                0 < r <= 0x10_0000,
        ;
        let d2: i64 = ox * ox + oy * oy;
        if d2 >= r * r {
            return None;
        }
        let su = isqrt(d2 as u64);
        assert(su < r) by (nonlinear_arith)
            requires
                su * su <= d2,
                d2 < r * r,
                0 < r,
        ;
        let s = su as i64;
        let f = (r - s) * GLOW_PEAK / r;
        if f > 255 {
            Some(255)
        } else {
            Some(f as u8)
        }
    }

    /// Draws the particle into `frame`: see `drawn`.
    pub fn draw(&self, frame: &mut Vec<u8>)
        requires
            self.wf(),
        ensures
            final(frame)@ == drawn(*self, old(frame)@),
    {
        let ghost start = frame@;
        let n = frame.len() / 4;
        let mut i: usize = 0;
        while i < n
            invariant
                self.wf(),
                n == start.len() / 4,
                start.len() <= usize::MAX,
                i <= n,
                frame@.len() == start.len(),
                forall|j: int| 0 <= j < 4 * i ==> frame@[j] == drawn(*self, start)[j],
                forall|j: int| 4 * i <= j < start.len() ==> frame@[j] == start[j],
            decreases n - i,
        {
            match self.glow_at(i) {
                Some(f) => {
                    frame[4 * i] = tint(self.rgba[0], f);
                    frame[4 * i + 1] = tint(self.rgba[1], f);
                    frame[4 * i + 2] = tint(self.rgba[2], f);
                    frame[4 * i + 3] = tint(self.rgba[3], f);
                },
                None => {},
            }
            proof {
                assert forall|j: int| 4 * i <= j < 4 * i + 4 implies frame@[j] == drawn(*self, start)[j] by {
                    assert(j / 4 == i as int);
                    assert(j % 4 == j - 4 * i);
                }
            }
            i = i + 1;
        }
        assert(frame@ =~= drawn(*self, start));
    }
}

/// A channel scaled by a brightness factor, wrapping modulo 256.
fn tint(c: u8, f: u8) -> (r: u8)
    ensures
        r == tinted(c, f),
{
    let (a, b) = (c as u32, f as u32);
    assert(a * b < 0x1_0000) by (nonlinear_arith)
        requires
            a < 256,
            b < 256,
    ;
    ((a * b) % 256) as u8
}

/// The new velocity along one axis; see `next_velocity`.
fn axis_step(pos: i64, v: i64, r: i64, extent: i64, target: i64) -> (nv: i64)
    requires
        in_range(pos as int),
        in_range(v as int),
        in_range(target as int),
        0 < r <= MAX_RADIUS,
        0 < extent <= LIMIT,
    ensures
        nv == next_velocity(pos as int, v as int, r as int, extent as int, target as int),
        in_range(nv as int),
{
    let b = if pos + r > extent || pos - r < 0 { -v } else { v };
    let pull = scale(target - pos, PULL_NUM, PULL_DEN);
    scale(b + pull, DAMP_NUM, DAMP_DEN)
}

/// Drawing a particle that has not moved a second time changes nothing.
pub proof fn lemma_draw_idempotent(p: Particle, buf: Seq<u8>)
    ensures
        drawn(p, drawn(p, buf)) == drawn(p, buf),
{
    assert(drawn(p, drawn(p, buf)) =~= drawn(p, buf));
}

} // verus!
