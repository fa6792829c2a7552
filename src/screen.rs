//! The frame-wide fade that leaves motion trails, with shell-ring markers.

use vstd::prelude::*;
use crate::arith::{lemma_round_sqrt_at_least, round_sqrt, rounded_sqrt};
use crate::{HEIGHT, SHELL_SPACING, WIDTH};

verus! {

/// What the fade takes off every channel of every byte each frame.
pub const FADE_STEP: u8 = 4;

/// The value written on ring markers.
pub const RING_MARK: u8 = 70;

/// Ring markers are drawn at distances below this many pixels.
pub const RING_REACH: i64 = 100;

/// Distance, rounded to whole pixels, from the centre of the screen to pixel
/// `i` of a frame `WIDTH` pixels wide.
pub open spec fn center_distance(i: int) -> int {
    let cx = WIDTH / 2 - i % (WIDTH as int);
    let cy = HEIGHT / 2 - i / (WIDTH as int);
    round_sqrt(cx * cx + cy * cy)
}

/// Pixel `i` lies on a shell ring: its distance from the centre is a whole
/// number of shell spacings below `RING_REACH`.
pub open spec fn on_ring(i: int) -> bool {
    let d = center_distance(i);
    d % (SHELL_SPACING as int) == 0 && d < RING_REACH
}

/// The frame after the fade: ring pixels get `RING_MARK` on every byte,
/// every other byte drops by `FADE_STEP`, not below zero.
pub open spec fn faded(buf: Seq<u8>) -> Seq<u8> {
    Seq::new(
        buf.len(),
        |j: int|
            if on_ring(j / 4) {
                RING_MARK
            } else if buf[j] > FADE_STEP {
                (buf[j] - FADE_STEP) as u8
            } else {
                0u8
            },
    )
}

/// Whether pixel `i` lies on a shell ring.
pub fn ring_at(i: usize) -> (r: bool)
    ensures
        r == on_ring(i as int),
{
    let cx: i64 = (WIDTH / 2) as i64 - (i as u64 % WIDTH) as i64;
    let cy: i64 = (HEIGHT / 2) as i64 - (i as u64 / WIDTH) as i64;
    if cx >= RING_REACH || cx <= -RING_REACH || cy >= RING_REACH || cy <= -RING_REACH {
        proof {
            let n = cx * cx + cy * cy;
            assert(100 * 100 <= n) by (nonlinear_arith)
                requires
                    cx >= 100 || cx <= -100 || cy >= 100 || cy <= -100,
                    n == cx * cx + cy * cy,
            ;
            lemma_round_sqrt_at_least(n, 100);
        }
        return false;
    }
    assert(0 <= cx * cx < 10000 && 0 <= cy * cy < 10000) by (nonlinear_arith)
        requires
            -100 < cx < 100,
            -100 < cy < 100,
    ;
    let d = rounded_sqrt((cx * cx + cy * cy) as u64);
    d % (SHELL_SPACING as u64) == 0 && d < RING_REACH as u64
}

/// Fades `frame` and marks the shell rings: see `faded`.
pub fn fade(frame: &mut Vec<u8>)
    ensures
        final(frame)@ == faded(old(frame)@),
{
    let ghost start = frame@;
    let n = frame.len();
    let mut j: usize = 0;
    while j < n
        invariant
            n == start.len(),
            j <= n,
            frame@.len() == n,
            forall|k: int| 0 <= k < j ==> frame@[k] == faded(start)[k],
            forall|k: int| j <= k < n ==> frame@[k] == start[k],
        decreases n - j,
    {
        let b = frame[j];
        let v = if ring_at(j / 4) {
            RING_MARK
        } else {
            b.saturating_sub(FADE_STEP)
        };
        frame[j] = v;
        j = j + 1;
    }
    assert(frame@ =~= faded(start));
}

} // verus!
