//! Text drawn into the frame with the 8x8 Basic Latin font.

use vstd::prelude::*;
use crate::WIDTH;

verus! {

/// The eight rows of the Basic Latin glyph of `c`, bit `k` of a row being
/// column `k`.
pub uninterp spec fn glyph_of(c: char) -> Seq<u8>;

/// Relies on `font8x8::BASIC_FONTS.get`: its table holds one glyph for each
/// character below U+0080 and none for any other.
#[verifier::external_body]
fn basic_glyph(c: char) -> (r: Option<[u8; 8]>)
    ensures
        r.is_some() <==> (c as u32) < 0x80,
        r matches Some(g) ==> g@ == glyph_of(c),
{
    font8x8::UnicodeFonts::get(&font8x8::BASIC_FONTS, c)
}

/// Byte offset of step `t` of drawing text at pixel `(x, y)`: step `t`
/// is column `t % 8` of row `(t / 8) % 8` of character `t / 64`.
pub open spec fn glyph_point(x: int, y: int, t: int) -> int {
    (x + (t / 64) * 8 + t % 8 + (y + (t / 8) % 8) * (WIDTH as int)) * 4
}

/// Step `t` can be drawn: its character has a glyph and its pixel lies
/// wholly inside the frame, with a byte to spare.
pub open spec fn step_ok(txt: Seq<char>, x: int, y: int, len: int, t: int) -> bool {
    (txt[t / 64] as u32) < 0x80 && glyph_point(x, y, t) + 4 < len
}

/// Step `t` sets its pixel: white where the glyph's bit is set, opaque
/// black elsewhere.
pub open spec fn lit(txt: Seq<char>, t: int) -> bool {
    glyph_of(txt[t / 64])[(t / 8) % 8] & (1u8 << ((t % 8) as u8)) != 0
}

/// The frame after the first `t` steps.
pub open spec fn text_drawn(txt: Seq<char>, x: int, y: int, buf: Seq<u8>, t: int) -> Seq<u8>
    decreases t,
{
    if t <= 0 {
        buf
    } else {
        let prev = text_drawn(txt, x, y, buf, t - 1);
        let p = glyph_point(x, y, t - 1);
        let (v, a) = if lit(txt, t - 1) { (255u8, 255u8) } else { (0u8, 255u8) };
        prev.update(p, v).update(p + 1, v).update(p + 2, v).update(p + 3, a)
    }
}

/// The number of steps drawn from step `t` on: up to the first that cannot
/// be drawn, or all `64 * txt.len()` of them.
pub open spec fn text_stop(txt: Seq<char>, x: int, y: int, len: int, t: int) -> int
    decreases 64 * txt.len() - t,
{
    if t >= 64 * txt.len() {
        (64 * txt.len()) as int
    } else if !step_ok(txt, x, y, len, t) {
        t
    } else {
        text_stop(txt, x, y, len, t + 1)
    }
}

/// Draws `txt` with its top-left corner at pixel `(x, y)`, character after
/// character, row after row. Drawing stops at the first pixel that would not
/// fit in the frame, or at the first character without a glyph; the result
/// says whether the whole text was drawn.
pub fn render_text(x: usize, y: usize, txt: &Vec<char>, frame: &mut Vec<u8>) -> (r: bool)
    requires
        txt@.len() < 0x100_0000_0000_0000,
    ensures
        ({
            let stop = text_stop(txt@, x as int, y as int, old(frame)@.len() as int, 0);
            &&& final(frame)@ == text_drawn(txt@, x as int, y as int, old(frame)@, stop)
            &&& r == (stop == 64 * txt@.len())
        }),
{
    let ghost start = frame@;
    let ghost len = start.len() as int;
    let n = txt.len();
    let total: u64 = n as u64 * 64;
    let mut t: u64 = 0;
    while t < total
        invariant
            total == 64 * txt@.len(),
            n == txt@.len(),
            start == old(frame)@,
            len == start.len(),
            t <= total,
            frame@.len() == len,
            frame@ == text_drawn(txt@, x as int, y as int, start, t as int),
            text_stop(txt@, x as int, y as int, len, 0) == text_stop(txt@, x as int, y as int, len, t as int),
        decreases total - t,
    {
        assert(t / 64 < txt@.len()) by (nonlinear_arith)
            requires
                t < total,
                total == 64 * txt@.len(),
        ;
        let ci = (t / 64) as usize;
        let row = ((t / 8) % 8) as usize;
        let col = t % 8;
        let c = txt[ci];
        let g = match basic_glyph(c) {
            Some(g) => g,
            None => {
                assert(!step_ok(txt@, x as int, y as int, len, t as int));
                assert(text_stop(txt@, x as int, y as int, len, t as int) == t);
                return false;
            },
        };
        let p: u128 = (x as u128 + ci as u128 * 8 + col as u128 + (y as u128 + row as u128) * (WIDTH as u128)) * 4;
        assert(p == glyph_point(x as int, y as int, t as int));
        if p + 4 >= frame.len() as u128 {
            assert(!step_ok(txt@, x as int, y as int, len, t as int));
            assert(text_stop(txt@, x as int, y as int, len, t as int) == t);
            return false;
        }
        assert(step_ok(txt@, x as int, y as int, len, t as int));
        let on = g[row] & (1u8 << (col as u8)) != 0;
        let v: u8 = if on { 255 } else { 0 };
        let q = p as usize;
        frame[q] = v;
        frame[q + 1] = v;
        frame[q + 2] = v;
        frame[q + 3] = 255;
        t = t + 1;
    }
    true
}

} // verus!
