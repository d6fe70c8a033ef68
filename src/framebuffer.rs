use crate::types::{min, Rect};
use vstd::arithmetic::div_mod::{
    lemma_fundamental_div_mod, lemma_fundamental_div_mod_converse, lemma_mod_pos_bound,
};
use vstd::prelude::*;

verus! {

/// Bytes per pixel of an RGBA framebuffer.
pub const DEPTH: usize = 4;

/// Width of the framebuffer, in pixels.
pub const WIDTH: usize = 512;

/// Height of the framebuffer, in pixels.
pub const HEIGHT: usize = 480;

/// Whether byte `i` of the framebuffer (2048 bytes per row) belongs to a pixel
/// of `r`, clipped to the framebuffer.
pub open spec fn in_fill(r: Rect, i: int) -> bool {
    let y = i / 2048;
    let x = (i % 2048) / 4;
    &&& r.y <= y < min(r.y + r.h, 480)
    &&& r.x <= x < min(r.x + r.w, 512)
}

/// Byte `i` lies in row `i / 2048`, at pixel `(i % 2048) / 4` of that row.
proof fn lemma_byte_coords(i: int)
    requires
        i >= 0,
    ensures
        i == 2048 * (i / 2048) + i % 2048,
        0 <= i % 2048 < 2048,
        4 * ((i % 2048) / 4) <= i % 2048 < 4 * ((i % 2048) / 4) + 4,
{
    lemma_fundamental_div_mod(i, 2048);
    lemma_mod_pos_bound(i, 2048);
    lemma_fundamental_div_mod(i % 2048, 4);
    lemma_mod_pos_bound(i % 2048, 4);
}

/// Byte `i` of `fb` is painted if it belongs to `r` and comes before row `y`,
/// or in row `y` before byte `j`; otherwise it is as in `start`.
pub open spec fn painted_at(fb: Seq<u8>, start: Seq<u8>, r: Rect, c: [u8; 4], y: int, j: int, i: int) -> bool {
    let done = in_fill(r, i) && (i / 2048 < y || (i / 2048 == y && i < j));
    fb[i] == if done {
        c@[i % 4]
    } else {
        start[i]
    }
}

/// `fb` is `start` with the bytes of `r` painted up to row `y`, byte `j`.
pub open spec fn painted_upto(fb: Seq<u8>, start: Seq<u8>, r: Rect, c: [u8; 4], y: int, j: int) -> bool {
    forall|i: int| 0 <= i < start.len() ==> #[trigger] painted_at(fb, start, r, c, y, j, i)
}

/// Paints every whole pixel of `fb` with colour `c`.
pub fn clear(fb: &mut [u8], c: [u8; 4])
    ensures
        final(fb)@.len() == old(fb)@.len(),
        forall|i: int| 0 <= i < old(fb)@.len() / 4 * 4 ==> final(fb)@[i] == c@[i % 4],
        forall|i: int| old(fb)@.len() / 4 * 4 <= i < old(fb)@.len() ==> final(fb)@[i] == old(fb)@[i],
{
    let ghost start = fb@;
    let len = fb.len();
    let n = len / DEPTH;
    proof {
        lemma_fundamental_div_mod(start.len() as int, 4);
        lemma_mod_pos_bound(start.len() as int, 4);
    }
    let mut p: usize = 0;
    while p < n
        invariant
            len == start.len(),
            n == start.len() / 4,
            4 * n <= start.len(),
            p <= n,
            fb@.len() == start.len(),
            forall|i: int| 0 <= i < 4 * p ==> fb@[i] == c@[i % 4],
            forall|i: int| 4 * p <= i < start.len() ==> fb@[i] == start[i],
        decreases n - p,
    {
        let b = 4 * p;
        fb[b] = c[0];
        fb[b + 1] = c[1];
        fb[b + 2] = c[2];
        fb[b + 3] = c[3];
        p = p + 1;
    }
}

/// Paints the pixels of `r` that lie in the framebuffer with colour `c`.
pub fn rect(fb: &mut [u8], r: Rect, c: [u8; 4])
    requires
        0 <= r.x < WIDTH,
        0 <= r.y < HEIGHT,
        old(fb)@.len() >= min(r.y + r.h, 480) * 2048,
    ensures
        final(fb)@.len() == old(fb)@.len(),
        forall|i: int|
            0 <= i < old(fb)@.len() ==> final(fb)@[i] == if in_fill(r, i) {
                c@[i % 4]
            } else {
                old(fb)@[i]
            },
{
    let ghost start = fb@;
    let x1: usize = if r.x as usize + (r.w as usize) < WIDTH {
        r.x as usize + r.w as usize
    } else {
        WIDTH
    };
    let y1: usize = if r.y as usize + (r.h as usize) < HEIGHT {
        r.y as usize + r.h as usize
    } else {
        HEIGHT
    };
    let x0 = r.x as usize;
    let mut y: usize = r.y as usize;
    assert(painted_upto(fb@, start, r, c, y as int, 0));
    while y < y1
        invariant
            x0 == r.x,
            x1 == min(r.x + r.w, 512),
            y1 == min(r.y + r.h, 480),
            r.y <= y <= y1,
            0 <= r.x < 512,
            fb@.len() == start.len(),
            start.len() >= y1 * 2048,
            painted_upto(fb@, start, r, c, y as int, 0),
        decreases y1 - y,
    {
        let row = y * 2048;
        let mut j: usize = row + x0 * 4;
        assert forall|i: int| 0 <= i < start.len() && in_fill(r, i) && i / 2048 == y implies i
            >= row + x0 * 4 && i < row + x1 * 4 by {
            lemma_byte_coords(i);
        }
        assert(painted_upto(fb@, start, r, c, y as int, j as int)) by {
            assert forall|i: int| 0 <= i < start.len() implies #[trigger] painted_at(
                fb@,
                start,
                r,
                c,
                y as int,
                j as int,
                i,
            ) by {
                assert(painted_at(fb@, start, r, c, y as int, 0, i));
            }
        }
        while j < row + x1 * 4
            invariant
                x0 == r.x,
                x1 == min(r.x + r.w, 512),
                y1 == min(r.y + r.h, 480),
                r.y <= y < y1,
                0 <= r.x < 512,
                row == y * 2048,
                row + x0 * 4 <= j <= row + x1 * 4,
                fb@.len() == start.len(),
                start.len() >= y1 * 2048,
                forall|i: int|
                    0 <= i < start.len() && in_fill(r, i) && i / 2048 == y ==> i >= row + x0 * 4 && i
                        < row + x1 * 4,
                painted_upto(fb@, start, r, c, y as int, j as int),
            decreases row + x1 * 4 - j,
        {
            let t = j - row;
            proof {
                lemma_fundamental_div_mod_converse(j as int, 2048, y as int, t as int);
                lemma_byte_coords(j as int);
            }
            assert(in_fill(r, j as int));
            let ghost before = fb@;
            fb[j] = c[j % 4];
            assert(painted_upto(fb@, start, r, c, y as int, j + 1)) by {
                assert forall|i: int| 0 <= i < start.len() implies #[trigger] painted_at(
                    fb@,
                    start,
                    r,
                    c,
                    y as int,
                    j + 1,
                    i,
                ) by {
                    assert(painted_at(before, start, r, c, y as int, j as int, i));
                }
            }
            j = j + 1;
        }
        assert(painted_upto(fb@, start, r, c, y + 1, 0)) by {
            assert forall|i: int| 0 <= i < start.len() implies #[trigger] painted_at(
                fb@,
                start,
                r,
                c,
                y + 1,
                0,
                i,
            ) by {
                assert(painted_at(fb@, start, r, c, y as int, j as int, i));
            }
        }
        y = y + 1;
    }
    assert forall|i: int| 0 <= i < start.len() implies fb@[i] == (if in_fill(r, i) {
        c@[i % 4]
    } else {
        start[i]
    }) by {
        assert(painted_at(fb@, start, r, c, y as int, 0, i));
    }
}

} // verus!
