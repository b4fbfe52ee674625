//! The annotation timeline: which strokes and watermarks are on the overlay at
//! which time, what has to be drawn to get there, and which part of the frame
//! the overlay touches.
//!
//! The overlay has two layers, one for what was committed and one for the pen
//! stroke in progress. The functions return the drawing to be done on them, which
//! the program around the library does, and blend the layers over the video; how
//! two colours are mixed is the caller's.

use crate::annotate::{AnnotateDoc, DrawEvent, Rgba, Stroke, Tool, Watermark};
use crate::frame;
use crate::single::{F32, ONE_BITS};
use vstd::prelude::*;

verus! {

// ---------------------------------------------------------------------------
// Boxes
// ---------------------------------------------------------------------------

/// A box of pixels, half-open: from (x0, y0) up to but without (x1, y1).
#[derive(Debug, Clone, Copy, PartialEq, Eq, Structural)]
pub struct BBox {
    pub x0: i32,
    pub y0: i32,
    pub x1: i32,
    pub y1: i32,
}

impl BBox {
    /// Does the pixel lie in the box?
    pub open spec fn has(self, x: int, y: int) -> bool {
        self.x0 <= x < self.x1 && self.y0 <= y < self.y1
    }

    /// No pixel lies in it.
    pub open spec fn void(self) -> bool {
        self.x0 >= self.x1 || self.y0 >= self.y1
    }

    /// The smallest box around two boxes; an empty one adds nothing.
    pub open spec fn joined(self, o: BBox) -> BBox {
        if o.void() {
            self
        } else if self.void() {
            o
        } else {
            BBox {
                x0: if self.x0 <= o.x0 {
                    self.x0
                } else {
                    o.x0
                },
                y0: if self.y0 <= o.y0 {
                    self.y0
                } else {
                    o.y0
                },
                x1: if self.x1 >= o.x1 {
                    self.x1
                } else {
                    o.x1
                },
                y1: if self.y1 >= o.y1 {
                    self.y1
                } else {
                    o.y1
                },
            }
        }
    }

    /// A coordinate limited to the range from 0 to `hi`.
    pub open spec fn limited(v: i32, hi: u32) -> i32 {
        if v < 0 {
            0
        } else if v > hi {
            hi as i32
        } else {
            v
        }
    }

    /// The part of the box in a frame of the given size.
    pub open spec fn within(self, w: u32, h: u32) -> BBox {
        BBox {
            x0: Self::limited(self.x0, w),
            y0: Self::limited(self.y0, h),
            x1: Self::limited(self.x1, w),
            y1: Self::limited(self.y1, h),
        }
    }

    /// The box without pixels.
    pub fn empty() -> (r: Self)
        ensures
            r == (BBox { x0: i32::MAX, y0: i32::MAX, x1: i32::MIN, y1: i32::MIN }),
            r.void(),
    {
        Self { x0: i32::MAX, y0: i32::MAX, x1: i32::MIN, y1: i32::MIN }
    }

    pub fn is_empty(&self) -> (r: bool)
        ensures
            r == self.void(),
    {
        self.x0 >= self.x1 || self.y0 >= self.y1
    }

    /// Grows to the smallest box around itself and `o`.
    pub fn union(&mut self, o: BBox)
        ensures
            *final(self) == old(self).joined(o),
    {
        if o.is_empty() {
            return;
        }
        if self.is_empty() {
            *self = o;
            return;
        }
        *self = BBox {
            x0: if self.x0 <= o.x0 {
                self.x0
            } else {
                o.x0
            },
            y0: if self.y0 <= o.y0 {
                self.y0
            } else {
                o.y0
            },
            x1: if self.x1 >= o.x1 {
                self.x1
            } else {
                o.x1
            },
            y1: if self.y1 >= o.y1 {
                self.y1
            } else {
                o.y1
            },
        };
    }

    /// The part of the box in a frame of the given size.
    pub fn clamp(&self, w: u32, h: u32) -> (r: BBox)
        requires
            w <= i32::MAX,
            h <= i32::MAX,
        ensures
            r == self.within(w, h),
    {
        BBox {
            x0: limit(self.x0, w),
            y0: limit(self.y0, h),
            x1: limit(self.x1, w),
            y1: limit(self.y1, h),
        }
    }
}

fn limit(v: i32, hi: u32) -> (r: i32)
    requires
        hi <= i32::MAX,
    ensures
        r == BBox::limited(v, hi),
{
    if v < 0 {
        0
    } else if v as i64 > hi as i64 {
        hi as i32
    } else {
        v
    }
}

/// Whichever of three boxes are joined first, the result is the same.
pub proof fn law_box_join_grouping(a: BBox, b: BBox, c: BBox)
    ensures
        a.joined(b).joined(c) == a.joined(b.joined(c)),
{
}

/// A joined box holds the pixels of both, and it is the smallest box that does;
/// the order of joining does not matter.
pub proof fn law_box_join(a: BBox, b: BBox, c: BBox, x: int, y: int)
    ensures
        a.has(x, y) || b.has(x, y) ==> a.joined(b).has(x, y),
        (forall|u: int, v: int| a.has(u, v) || b.has(u, v) ==> #[trigger] c.has(u, v))
            && a.joined(b).has(x, y) ==> c.has(x, y),
        !a.void() && !b.void() ==> a.joined(b) == b.joined(a),
        a.joined(a) == a,
{
    if (forall|u: int, v: int| a.has(u, v) || b.has(u, v) ==> #[trigger] c.has(u, v)) && a.joined(
        b,
    ).has(x, y) {
        let j = a.joined(b);
        if !a.void() {
            assert(a.has(a.x0 as int, a.y0 as int));
            assert(a.has(a.x1 - 1, a.y1 - 1));
            assert(c.has(a.x0 as int, a.y0 as int));
            assert(c.has(a.x1 - 1, a.y1 - 1));
        }
        if !b.void() {
            assert(b.has(b.x0 as int, b.y0 as int));
            assert(b.has(b.x1 - 1, b.y1 - 1));
            assert(c.has(b.x0 as int, b.y0 as int));
            assert(c.has(b.x1 - 1, b.y1 - 1));
        }
    }
}

/// A box limited to a frame holds just its pixels in the frame.
pub proof fn law_box_clamp(a: BBox, w: u32, h: u32, x: int, y: int)
    requires
        w <= i32::MAX,
        h <= i32::MAX,
    ensures
        a.within(w, h).has(x, y) <==> a.has(x, y) && 0 <= x < w && 0 <= y < h,
{
}

// ---------------------------------------------------------------------------
// Blending
// ---------------------------------------------------------------------------

/// Where byte `c` of the pixel at (x, y) stands in a frame `w` pixels wide.
pub open spec fn byte_at(w: u32, x: int, y: int, c: int) -> int {
    (y * w + x) * 4 + c
}

/// The opacity of a layer's pixel.
pub open spec fn ink(layer: Seq<u8>, w: u32, x: int, y: int) -> u8 {
    layer[byte_at(w, x, y, 3)]
}

/// How many pixels of a row have ink, from `x0` up to but without `x1`.
pub open spec fn inked_in_row(layer: Seq<u8>, w: u32, y: int, x0: int, x1: int) -> nat
    decreases x1 - x0,
{
    if x1 <= x0 {
        0
    } else {
        inked_in_row(layer, w, y, x0, x1 - 1) + if ink(layer, w, x1 - 1, y) > 0 {
            1nat
        } else {
            0
        }
    }
}

/// How many pixels of a box have ink, in its rows above `y`.
pub open spec fn inked_above(layer: Seq<u8>, w: u32, d: BBox, y: int) -> nat
    decreases y - d.y0,
{
    if y <= d.y0 {
        0
    } else {
        inked_above(layer, w, d, y - 1) + inked_in_row(layer, w, y - 1, d.x0 as int, d.x1 as int)
    }
}

/// Is byte `c` of the pixel at (x, y) what blending makes of it? The colours of a
/// pixel with ink are mixed, red and blue changing places; its fourth byte and all
/// other pixels stay.
pub open spec fn blended<F: Fn(u8, u8, u8) -> u8>(
    mix: F,
    layer: Seq<u8>,
    before: Seq<u8>,
    after: Seq<u8>,
    w: u32,
    covered: bool,
    x: int,
    y: int,
    c: int,
) -> bool {
    let i = byte_at(w, x, y, c);
    if covered && ink(layer, w, x, y) > 0 && c < 3 {
        call_ensures(
            mix,
            (layer[byte_at(w, x, y, 2 - c)], before[i], ink(layer, w, x, y)),
            after[i],
        )
    } else {
        after[i] == before[i]
    }
}

/// How many pixels of the frame in a box have ink.
pub open spec fn inked(layer: Seq<u8>, w: u32, h: u32, bb: BBox) -> nat {
    inked_above(layer, w, bb.within(w, h), bb.within(w, h).y1 as int)
}

/// Is a frame what blending the part of a layer in a box makes of it?
pub open spec fn all_blended<F: Fn(u8, u8, u8) -> u8>(
    mix: F,
    layer: Seq<u8>,
    before: Seq<u8>,
    after: Seq<u8>,
    w: u32,
    h: u32,
    bb: BBox,
) -> bool {
    &&& after.len() == before.len()
    &&& forall|x: int, y: int, c: int|
        #![trigger byte_at(w, x, y, c)]
        0 <= x < w && 0 <= y < h && 0 <= c < 4 ==> blended(
            mix,
            layer,
            before,
            after,
            w,
            bb.has(x, y),
            x,
            y,
            c,
        )
}

/// Does blending the part of a layer in a box leave the pixel alone?
pub open spec fn bare(layer: Seq<u8>, w: u32, bb: BBox, x: int, y: int) -> bool {
    !bb.has(x, y) || ink(layer, w, x, y) == 0
}

/// A byte of a pixel on the frame lies within its bytes.
pub proof fn lemma_byte_inside(w: u32, h: u32, x: int, y: int, c: int)
    requires
        0 <= x < w,
        0 <= y < h,
        0 <= c < 4,
    ensures
        0 <= byte_at(w, x, y, c) < frame::size_of_frame(w as nat, h as nat),
        0 <= y * w,
        y * w + x < w * h,
{
    assert(0 <= y * w && y * w + w <= w * h) by (nonlinear_arith)
        requires
            0 <= y < h,
            0 <= w,
    ;
}

/// No two pixels share a byte.
pub proof fn lemma_byte_apart(w: u32, x: int, y: int, c: int, u: int, v: int, d: int)
    requires
        0 <= x < w,
        0 <= u < w,
        0 <= c < 4,
        0 <= d < 4,
        byte_at(w, x, y, c) == byte_at(w, u, v, d),
    ensures
        x == u && y == v && c == d,
{
    assert(y * w + x == v * w + u);
    assert(y == v) by (nonlinear_arith)
        requires
            y * w + x == v * w + u,
            0 <= x < w,
            0 <= u < w,
    ;
}

/// Blends one pixel of the layer over the frame. False where it has no ink.
fn blend_pixel<F: Fn(u8, u8, u8) -> u8>(
    frame: &mut [u8],
    layer: &[u8],
    w: u32,
    h: u32,
    x: u32,
    y: u32,
    mix: &F,
) -> (touched: bool)
    requires
        x < w,
        y < h,
        old(frame)@.len() == frame::size_of_frame(w as nat, h as nat),
        layer@.len() == frame::size_of_frame(w as nat, h as nat),
        forall|a: u8, b: u8, c: u8| call_requires(*mix, (a, b, c)),
    ensures
        final(frame)@.len() == old(frame)@.len(),
        touched == (ink(layer@, w, x as int, y as int) > 0),
        forall|u: int, v: int, c: int|
            #![trigger byte_at(w, u, v, c)]
            0 <= u < w && 0 <= v < h && 0 <= c < 4 ==> blended(
                *mix,
                layer@,
                old(frame)@,
                final(frame)@,
                w,
                u == x && v == y,
                u,
                v,
                c,
            ),
{
    proof {
        lemma_byte_inside(w, h, x as int, y as int, 0);
        lemma_byte_inside(w, h, x as int, y as int, 3);
    }
    let ghost start = frame@;
    let total: usize = layer.len();
    assert(byte_at(w, x as int, y as int, 3) < total);
    let i: usize = (y as usize * w as usize + x as usize) * 4;
    let alpha = layer[i + 3];
    assert(alpha == ink(layer@, w, x as int, y as int));
    if alpha == 0 {
        return false;
    }
    let blue = mix(layer[i + 2], frame[i], alpha);
    let green = mix(layer[i + 1], frame[i + 1], alpha);
    let red = mix(layer[i], frame[i + 2], alpha);
    frame[i] = blue;
    frame[i + 1] = green;
    frame[i + 2] = red;
    proof {
        assert forall|u: int, v: int, c: int|
            #![trigger byte_at(w, u, v, c)]
            0 <= u < w && 0 <= v < h && 0 <= c < 4 implies blended(
            *mix,
            layer@,
            start,
            frame@,
            w,
            u == x && v == y,
            u,
            v,
            c,
        ) by {
            let k = byte_at(w, u, v, c);
            lemma_byte_inside(w, h, u, v, c);
            if u != x || v != y {
                if k == i {
                    lemma_byte_apart(w, u, v, c, x as int, y as int, 0);
                }
                if k == i + 1 {
                    lemma_byte_apart(w, u, v, c, x as int, y as int, 1);
                }
                if k == i + 2 {
                    lemma_byte_apart(w, u, v, c, x as int, y as int, 2);
                }
                assert(frame@[k] == start[k]);
            }
        }
    }
    true
}

/// Blends the pixels of a row from `x0` up to but without `x1`; how many have ink.
fn blend_row<F: Fn(u8, u8, u8) -> u8>(
    frame: &mut [u8],
    layer: &[u8],
    w: u32,
    h: u32,
    y: u32,
    x0: u32,
    x1: u32,
    mix: &F,
) -> (count: u32)
    requires
        x0 <= x1 <= w,
        y < h,
        old(frame)@.len() == frame::size_of_frame(w as nat, h as nat),
        layer@.len() == frame::size_of_frame(w as nat, h as nat),
        forall|a: u8, b: u8, c: u8| call_requires(*mix, (a, b, c)),
    ensures
        final(frame)@.len() == old(frame)@.len(),
        count == inked_in_row(layer@, w, y as int, x0 as int, x1 as int),
        count <= w,
        forall|u: int, v: int, c: int|
            #![trigger byte_at(w, u, v, c)]
            0 <= u < w && 0 <= v < h && 0 <= c < 4 ==> blended(
                *mix,
                layer@,
                old(frame)@,
                final(frame)@,
                w,
                x0 <= u < x1 && v == y,
                u,
                v,
                c,
            ),
{
    let ghost start = frame@;
    let mut count: u32 = 0;
    let mut x: u32 = x0;
    while x < x1
        invariant
            x0 <= x <= x1 <= w,
            y < h,
            frame@.len() == start.len(),
            start.len() == frame::size_of_frame(w as nat, h as nat),
            layer@.len() == frame::size_of_frame(w as nat, h as nat),
            forall|a: u8, b: u8, c: u8| call_requires(*mix, (a, b, c)),
            count == inked_in_row(layer@, w, y as int, x0 as int, x as int),
            count <= x - x0,
            forall|u: int, v: int, c: int|
                #![trigger byte_at(w, u, v, c)]
                0 <= u < w && 0 <= v < h && 0 <= c < 4 ==> blended(
                    *mix,
                    layer@,
                    start,
                    frame@,
                    w,
                    x0 <= u < x && v == y,
                    u,
                    v,
                    c,
                ),
        decreases x1 - x,
    {
        if blend_pixel(frame, layer, w, h, x, y, mix) {
            count += 1;
        }
        x += 1;
    }
    count
}

/// Blends the part of a straight RGBA layer in a box over a BGRA frame of the same
/// size; how many pixels were blended. `mix` gives a colour from the layer's, the
/// frame's and the opacity.
pub fn blend_region<F: Fn(u8, u8, u8) -> u8>(
    frame: &mut [u8],
    layer: &[u8],
    w: u32,
    h: u32,
    bb: BBox,
    mix: &F,
) -> (count: usize)
    requires
        w <= i32::MAX,
        h <= i32::MAX,
        old(frame)@.len() == frame::size_of_frame(w as nat, h as nat),
        layer@.len() == frame::size_of_frame(w as nat, h as nat),
        forall|a: u8, b: u8, c: u8| call_requires(*mix, (a, b, c)),
    ensures
        count == inked(layer@, w, h, bb),
        count <= w * h,
        all_blended(*mix, layer@, old(frame)@, final(frame)@, w, h, bb),
{
    let d = bb.clamp(w, h);
    let total: usize = layer.len();
    let ghost start = frame@;
    let mut count: usize = 0;
    let mut y: i32 = d.y0;
    let x1: i32 = if d.x1 < d.x0 {
        d.x0
    } else {
        d.x1
    };
    assert(0 <= y * w) by (nonlinear_arith)
        requires
            0 <= y,
            0 <= w,
    ;
    while y < d.y1
        invariant
            d == bb.within(w, h),
            w <= i32::MAX,
            h <= i32::MAX,
            x1 == (if d.x1 < d.x0 {
                d.x0
            } else {
                d.x1
            }),
            d.y0 <= y,
            y <= d.y1 || y == d.y0,
            frame@.len() == start.len(),
            start.len() == frame::size_of_frame(w as nat, h as nat),
            layer@.len() == frame::size_of_frame(w as nat, h as nat),
            total == layer@.len(),
            forall|a: u8, b: u8, c: u8| call_requires(*mix, (a, b, c)),
            count == inked_above(layer@, w, d, y as int),
            count <= y * w,
            forall|u: int, v: int, c: int|
                #![trigger byte_at(w, u, v, c)]
                0 <= u < w && 0 <= v < h && 0 <= c < 4 ==> blended(
                    *mix,
                    layer@,
                    start,
                    frame@,
                    w,
                    d.has(u, v) && v < y,
                    u,
                    v,
                    c,
                ),
        decreases d.y1 - y,
    {
        proof {
            assert((y + 1) * w == y * w + w) by (nonlinear_arith);
            assert((y + 1) * w <= w * h) by (nonlinear_arith)
                requires
                    y + 1 <= h,
                    0 <= w,
            ;
            if x1 != d.x1 {
                assert(inked_in_row(layer@, w, y as int, d.x0 as int, d.x1 as int) == 0);
                assert(inked_in_row(layer@, w, y as int, d.x0 as int, x1 as int) == 0);
            }
        }
        let n = blend_row(frame, layer, w, h, y as u32, d.x0 as u32, x1 as u32, mix);
        count += n as usize;
        y += 1;
    }
    assert(y * w <= w * h) by (nonlinear_arith)
        requires
            y <= h,
            0 <= w,
    ;
    count
}

/// A row that counts no ink has none.
proof fn lemma_row_bare(layer: Seq<u8>, w: u32, y: int, x0: int, x1: int, x: int)
    requires
        inked_in_row(layer, w, y, x0, x1) == 0,
        x0 <= x < x1,
    ensures
        ink(layer, w, x, y) == 0,
    decreases x1 - x0,
{
    if x < x1 - 1 {
        lemma_row_bare(layer, w, y, x0, x1 - 1, x);
    }
}

/// Rows that count no ink have none.
proof fn lemma_rows_bare(layer: Seq<u8>, w: u32, d: BBox, end: int, x: int, y: int)
    requires
        inked_above(layer, w, d, end) == 0,
        d.y0 <= y < end,
        d.x0 <= x < d.x1,
    ensures
        ink(layer, w, x, y) == 0,
    decreases end - d.y0,
{
    if y < end - 1 {
        lemma_rows_bare(layer, w, d, end - 1, x, y);
    } else {
        lemma_row_bare(layer, w, y, d.x0 as int, d.x1 as int, x);
    }
}

/// Rows of no width have no ink.
proof fn lemma_no_width(layer: Seq<u8>, w: u32, d: BBox, end: int)
    requires
        d.x1 <= d.x0,
    ensures
        inked_above(layer, w, d, end) == 0,
    decreases end - d.y0,
{
    if end > d.y0 {
        lemma_no_width(layer, w, d, end - 1);
    }
}

/// Every byte of a frame belongs to a pixel.
proof fn lemma_byte_of_pixel(w: u32, h: u32, i: int) -> (p: (int, int, int))
    requires
        0 <= i < frame::size_of_frame(w as nat, h as nat),
    ensures
        0 <= p.0 < w,
        0 <= p.1 < h,
        0 <= p.2 < 4,
        byte_at(w, p.0, p.1, p.2) == i,
{
    let n = i / 4;
    assert(w > 0 && n < w * h) by (nonlinear_arith)
        requires
            0 <= i < w * h * 4,
            n == i / 4,
            w >= 0,
    ;
    let (x, y) = (n % (w as int), n / (w as int));
    assert(n == y * w + x && 0 <= x < w) by (nonlinear_arith)
        requires
            w > 0,
            x == n % (w as int),
            y == n / (w as int),
    ;
    assert(0 <= y < h) by (nonlinear_arith)
        requires
            0 <= n < w * h,
            n == y * w + x,
            0 <= x < w,
    ;
    (x, y, i % 4)
}

/// Blending keeps the fourth byte of every pixel, and all of a pixel that is out of
/// the box or has no ink.
pub proof fn law_blend_keeps<F: Fn(u8, u8, u8) -> u8>(
    mix: F,
    layer: Seq<u8>,
    before: Seq<u8>,
    after: Seq<u8>,
    w: u32,
    h: u32,
    bb: BBox,
    x: int,
    y: int,
    c: int,
)
    requires
        all_blended(mix, layer, before, after, w, h, bb),
        0 <= x < w,
        0 <= y < h,
        0 <= c < 4,
        c == 3 || bare(layer, w, bb, x, y),
    ensures
        after[byte_at(w, x, y, c)] == before[byte_at(w, x, y, c)],
{
}

/// Where blending counts no pixel, the frame stays as it was.
pub proof fn law_blend_nothing<F: Fn(u8, u8, u8) -> u8>(
    mix: F,
    layer: Seq<u8>,
    before: Seq<u8>,
    after: Seq<u8>,
    w: u32,
    h: u32,
    bb: BBox,
)
    requires
        w <= i32::MAX,
        h <= i32::MAX,
        before.len() == frame::size_of_frame(w as nat, h as nat),
        all_blended(mix, layer, before, after, w, h, bb),
        inked(layer, w, h, bb) == 0,
    ensures
        after == before,
{
    assert forall|i: int| 0 <= i < before.len() implies after[i] == before[i] by {
        let (x, y, c) = lemma_byte_of_pixel(w, h, i);
        let d = bb.within(w, h);
        if bb.has(x, y) {
            lemma_rows_bare(layer, w, d, d.y1 as int, x, y);
        }
        law_blend_keeps(mix, layer, before, after, w, h, bb, x, y, c);
    }
    assert(after =~= before);
}

/// Blending the part of a layer in an empty box counts no pixel.
pub proof fn law_blend_empty_box(layer: Seq<u8>, w: u32, h: u32, bb: BBox)
    requires
        w <= i32::MAX,
        h <= i32::MAX,
        bb.void(),
    ensures
        inked(layer, w, h, bb) == 0,
{
    let d = bb.within(w, h);
    if d.y1 > d.y0 {
        lemma_no_width(layer, w, d, d.y1 as int);
    }
}

// ---------------------------------------------------------------------------
// Time order
// ---------------------------------------------------------------------------

/// Entry `i` comes before entry `j`: it appears earlier, or at the same time and
/// was there first.
pub open spec fn earlier(times: Seq<u64>, i: int, j: int) -> bool {
    times[i] < times[j] || (times[i] == times[j] && i < j)
}

/// Does the order list entry `i`?
pub open spec fn lists(order: Seq<usize>, i: int) -> bool {
    exists|k: int| 0 <= k < order.len() && #[trigger] order[k] == i
}

/// Is `order` the list of the first `m` entries in time order?
pub open spec fn time_order(order: Seq<usize>, times: Seq<u64>, m: nat) -> bool {
    &&& order.len() == m
    &&& m <= times.len()
    &&& forall|k: int| 0 <= k < m ==> (#[trigger] order[k]) < m
    &&& forall|k: int, l: int|
        0 <= k < l < m ==> earlier(times, #[trigger] order[k] as int, #[trigger] order[l] as int)
    &&& forall|i: int| 0 <= i < m ==> #[trigger] lists(order, i)
}

/// The first position from `from` on whose entry appears after `now`, or the
/// length.
pub open spec fn reach(order: Seq<usize>, times: Seq<u64>, from: nat, now: u64) -> nat
    decreases order.len() - from,
{
    if from >= order.len() || times[order[from as int] as int] > now {
        from
    } else {
        reach(order, times, from + 1, now)
    }
}

proof fn lemma_reach(order: Seq<usize>, times: Seq<u64>, m: nat, from: nat, now: u64)
    requires
        time_order(order, times, m),
        from <= m,
    ensures
        from <= reach(order, times, from, now) <= m,
        forall|k: int|
            from <= k < reach(order, times, from, now) ==> times[#[trigger] order[k] as int] <= now,
        forall|k: int|
            reach(order, times, from, now) <= k < m ==> times[#[trigger] order[k] as int] > now,
    decreases m - from,
{
    if from < m && times[order[from as int] as int] <= now {
        lemma_reach(order, times, m, from + 1, now);
    } else if from < m {
        assert forall|k: int| from <= k < m implies times[#[trigger] order[k] as int] > now by {
            if k > from {
                assert(earlier(times, order[from as int] as int, order[k] as int));
            }
        }
    }
}

/// Inserting the next entry behind all that appear no later keeps the order.
proof fn lemma_insert_in_order(order: Seq<usize>, times: Seq<u64>, m: nat, pos: int)
    requires
        time_order(order, times, m),
        m < times.len(),
        m <= usize::MAX,
        0 <= pos <= m,
        forall|k: int| 0 <= k < pos ==> times[#[trigger] order[k] as int] <= times[m as int],
        forall|k: int| pos <= k < m ==> times[#[trigger] order[k] as int] > times[m as int],
    ensures
        time_order(order.insert(pos, m as usize), times, m + 1),
{
    let next = order.insert(pos, m as usize);
    assert forall|k: int| 0 <= k < m + 1 implies (#[trigger] next[k]) < m + 1 by {
        if k < pos {
            assert(next[k] == order[k]);
        } else if k > pos {
            assert(next[k] == order[k - 1]);
        }
    }
    assert forall|k: int, l: int| 0 <= k < l < m + 1 implies earlier(
        times,
        #[trigger] next[k] as int,
        #[trigger] next[l] as int,
    ) by {
        let a = if k < pos {
            k
        } else {
            k - 1
        };
        let b = if l < pos {
            l
        } else {
            l - 1
        };
        if k != pos {
            assert(next[k] == order[a]);
        }
        if l != pos {
            assert(next[l] == order[b]);
        }
        if k != pos && l != pos {
            assert(earlier(times, order[a] as int, order[b] as int));
        }
    }
    assert forall|i: int| 0 <= i < m + 1 implies #[trigger] lists(next, i) by {
        if i == m {
            assert(next[pos] == i);
        } else {
            assert(lists(order, i));
            let k = choose|k: int| 0 <= k < order.len() && #[trigger] order[k] == i;
            if k < pos {
                assert(next[k] == i);
            } else {
                assert(next[k + 1] == i);
            }
        }
    }
}

/// Where the entry `m` belongs among those before it.
fn place(order: &Vec<usize>, times: &Vec<u64>, m: usize) -> (pos: usize)
    requires
        time_order(order@, times@, m as nat),
        m < times@.len(),
    ensures
        pos <= m,
        forall|k: int| 0 <= k < pos ==> times@[#[trigger] order@[k] as int] <= times@[m as int],
        forall|k: int| pos <= k < m ==> times@[#[trigger] order@[k] as int] > times@[m as int],
{
    let mut pos: usize = 0;
    while pos < m && times[order[pos]] <= times[m]
        invariant
            time_order(order@, times@, m as nat),
            m < times@.len(),
            pos <= m,
            forall|k: int|
                0 <= k < pos ==> times@[#[trigger] order@[k] as int] <= times@[m as int],
        decreases m - pos,
    {
        pos += 1;
    }
    proof {
        if pos < m {
            assert forall|k: int| pos <= k < m implies times@[#[trigger] order@[k] as int]
                > times@[m as int] by {
                if k > pos {
                    assert(earlier(times@, order@[pos as int] as int, order@[k] as int));
                }
            }
        }
    }
    pos
}

/// The entries in time order; what appears at the same time keeps its order.
pub fn sort_by_time(times: &Vec<u64>) -> (order: Vec<usize>)
    ensures
        time_order(order@, times@, times@.len()),
{
    let mut order: Vec<usize> = Vec::new();
    let mut m: usize = 0;
    while m < times.len()
        invariant
            m <= times@.len(),
            time_order(order@, times@, m as nat),
        decreases times@.len() - m,
    {
        let pos = place(&order, times, m);
        proof {
            lemma_insert_in_order(order@, times@, m as nat, pos as int);
        }
        order.insert(pos, m);
        m += 1;
    }
    order
}

fn reach_of(order: &Vec<usize>, times: &Vec<u64>, from: usize, now: u64) -> (r: usize)
    requires
        time_order(order@, times@, times@.len()),
        from <= times@.len(),
    ensures
        r == reach(order@, times@, from as nat, now),
        from <= r <= times@.len(),
{
    let mut r: usize = from;
    while r < order.len() && times[order[r]] <= now
        invariant
            time_order(order@, times@, times@.len()),
            from <= r <= times@.len(),
            reach(order@, times@, from as nat, now) == reach(order@, times@, r as nat, now),
        decreases times@.len() - r,
    {
        r += 1;
    }
    r
}

/// When each stroke appears.
pub open spec fn stroke_times(s: Seq<Stroke>) -> Seq<u64> {
    s.map_values(|x: Stroke| x.appear_ms)
}

/// When each watermark appears.
pub open spec fn mark_times(s: Seq<Watermark>) -> Seq<u64> {
    s.map_values(|x: Watermark| x.appear_ms)
}

fn times_of_strokes(s: &Vec<Stroke>) -> (out: Vec<u64>)
    ensures
        out@ == stroke_times(s@),
{
    let mut out: Vec<u64> = Vec::new();
    let mut i: usize = 0;
    while i < s.len()
        invariant
            i <= s@.len(),
            out@ == stroke_times(s@.take(i as int)),
        decreases s@.len() - i,
    {
        out.push(s[i].appear_ms);
        i += 1;
        assert(out@ =~= stroke_times(s@.take(i as int)));
    }
    assert(s@.take(s@.len() as int) =~= s@);
    out
}

fn times_of_marks(s: &Vec<Watermark>) -> (out: Vec<u64>)
    ensures
        out@ == mark_times(s@),
{
    let mut out: Vec<u64> = Vec::new();
    let mut i: usize = 0;
    while i < s.len()
        invariant
            i <= s@.len(),
            out@ == mark_times(s@.take(i as int)),
        decreases s@.len() - i,
    {
        out.push(s[i].appear_ms);
        i += 1;
        assert(out@ =~= mark_times(s@.take(i as int)));
    }
    assert(s@.take(s@.len() as int) =~= s@);
    out
}

// ---------------------------------------------------------------------------
// The timeline
// ---------------------------------------------------------------------------

/// A live preview without news for longer than this is dropped.
pub const LIVE_TIMEOUT_MS: u64 = 2000;

/// Drawing to be done on the overlay.
#[derive(Debug, Clone, PartialEq, Eq)]
pub enum RasterOp {
    /// Wipe the committed layer.
    ClearMain,
    /// Wipe the layer of the stroke in progress.
    ClearLive,
    /// Draw a stroke of the document onto the committed layer.
    Stroke(usize),
    /// Draw a watermark of the document onto the committed layer.
    Watermark(usize),
    /// Wipe the layer of the stroke in progress and draw this stroke onto it.
    Live(Stroke),
}

/// The drawing of the strokes at the positions from `a` up to `b` of an order.
pub open spec fn stroke_ops(order: Seq<usize>, a: int, b: int) -> Seq<RasterOp> {
    order.subrange(a, b).map_values(|i: usize| RasterOp::Stroke(i))
}

/// The drawing of the watermarks at the positions from `a` up to `b` of an order.
pub open spec fn mark_ops(order: Seq<usize>, a: int, b: int) -> Seq<RasterOp> {
    order.subrange(a, b).map_values(|i: usize| RasterOp::Watermark(i))
}

fn push_stroke_ops(ops: &mut Vec<RasterOp>, order: &Vec<usize>, a: usize, b: usize)
    requires
        a <= b <= order@.len(),
    ensures
        final(ops)@ == old(ops)@ + stroke_ops(order@, a as int, b as int),
{
    let ghost start = ops@;
    let mut i: usize = a;
    while i < b
        invariant
            a <= i <= b <= order@.len(),
            ops@ == start + stroke_ops(order@, a as int, i as int),
        decreases b - i,
    {
        ops.push(RasterOp::Stroke(order[i]));
        i += 1;
        assert(ops@ =~= start + stroke_ops(order@, a as int, i as int));
    }
}

fn push_mark_ops(ops: &mut Vec<RasterOp>, order: &Vec<usize>, a: usize, b: usize)
    requires
        a <= b <= order@.len(),
    ensures
        final(ops)@ == old(ops)@ + mark_ops(order@, a as int, b as int),
{
    let ghost start = ops@;
    let mut i: usize = a;
    while i < b
        invariant
            a <= i <= b <= order@.len(),
            ops@ == start + mark_ops(order@, a as int, i as int),
        decreases b - i,
    {
        ops.push(RasterOp::Watermark(order[i]));
        i += 1;
        assert(ops@ =~= start + mark_ops(order@, a as int, i as int));
    }
}

/// The timed compositor's books.
pub struct Annotator {
    pub doc: AnnotateDoc,
    /// Strokes in time order; the first `applied` are on the overlay.
    pub stroke_order: Vec<usize>,
    pub wm_order: Vec<usize>,
    pub applied: usize,
    pub wm_applied: usize,
    pub w: u32,
    pub h: u32,
    /// Around everything on the committed layer. The overlay persists while the
    /// video changes, so that every frame blends this part.
    pub coverage: BBox,
    /// Around the stroke in progress.
    pub live_bb: BBox,
    pub live_since_ms: Option<u64>,
    pub last_now_ms: u64,
}

impl Annotator {
    pub open spec fn wf(self) -> bool {
        &&& time_order(
            self.stroke_order@,
            stroke_times(self.doc.strokes@),
            self.doc.strokes@.len(),
        )
        &&& time_order(
            self.wm_order@,
            mark_times(self.doc.watermarks@),
            self.doc.watermarks@.len(),
        )
        &&& self.applied <= self.doc.strokes@.len()
        &&& self.wm_applied <= self.doc.watermarks@.len()
        &&& forall|k: int|
            0 <= k < self.applied ==> stroke_times(
                self.doc.strokes@,
            )[#[trigger] self.stroke_order@[k] as int] <= self.last_now_ms
        &&& forall|k: int|
            0 <= k < self.wm_applied ==> mark_times(
                self.doc.watermarks@,
            )[#[trigger] self.wm_order@[k] as int] <= self.last_now_ms
    }

    /// Is stroke `i` on the overlay?
    pub open spec fn shows_stroke(self, i: int) -> bool {
        exists|k: int| 0 <= k < self.applied && #[trigger] self.stroke_order@[k] == i
    }

    /// Is watermark `i` on the overlay?
    pub open spec fn shows_mark(self, i: int) -> bool {
        exists|k: int| 0 <= k < self.wm_applied && #[trigger] self.wm_order@[k] == i
    }

    /// The overlay shows just what has appeared by `now`.
    pub open spec fn shows_until(self, now: u64) -> bool {
        &&& forall|i: int|
            0 <= i < self.doc.strokes@.len() ==> (#[trigger] self.shows_stroke(i)
                <==> self.doc.strokes@[i].appear_ms <= now)
        &&& forall|i: int|
            0 <= i < self.doc.watermarks@.len() ==> (#[trigger] self.shows_mark(i)
                <==> self.doc.watermarks@[i].appear_ms <= now)
    }

    /// No stroke is in progress.
    pub open spec fn no_live(self) -> bool {
        self.live_bb.void() && self.live_since_ms is None
    }

    /// Has the stroke in progress gone without news for too long?
    pub open spec fn live_stale(self, now: u64) -> bool {
        self.live_since_ms matches Some(t) && now > t && now - t > LIVE_TIMEOUT_MS
    }

    /// Things that time alone does not change.
    pub open spec fn same_document(self, other: Annotator) -> bool {
        &&& self.doc == other.doc
        &&& self.stroke_order == other.stroke_order
        &&& self.wm_order == other.wm_order
        &&& self.w == other.w
        &&& self.h == other.h
    }

    /// A compositor for a feed size, with an empty overlay.
    pub fn new(doc: AnnotateDoc, w: u32, h: u32) -> (r: Self)
        ensures
            r.wf(),
            r.doc == doc,
            r.w == w,
            r.h == h,
            r.applied == 0,
            r.wm_applied == 0,
            r.coverage.void(),
            r.no_live(),
            r.last_now_ms == 0,
    {
        let stroke_order = sort_by_time(&times_of_strokes(&doc.strokes));
        let wm_order = sort_by_time(&times_of_marks(&doc.watermarks));
        Self {
            doc,
            stroke_order,
            wm_order,
            applied: 0,
            wm_applied: 0,
            w,
            h,
            coverage: BBox::empty(),
            live_bb: BBox::empty(),
            live_since_ms: None,
            last_now_ms: 0,
        }
    }

    /// Is there nothing to annotate with?
    pub fn is_empty(&self) -> (r: bool)
        ensures
            r == (self.doc.strokes@.len() == 0 && self.doc.watermarks@.len() == 0),
    {
        self.doc.strokes.len() == 0 && self.doc.watermarks.len() == 0
    }

    fn clear_live(&mut self)
        requires
            old(self).wf(),
        ensures
            final(self).wf(),
            final(self).no_live(),
            final(self).same_document(*old(self)),
            final(self).applied == old(self).applied,
            final(self).wm_applied == old(self).wm_applied,
            final(self).coverage == old(self).coverage,
            final(self).last_now_ms == old(self).last_now_ms,
    {
        self.live_bb = BBox::empty();
        self.live_since_ms = None;
    }

    /// Draws every stroke and watermark that has appeared by `now_ms` and is not
    /// on the overlay yet, and drops a stroke in progress that went stale.
    pub fn apply_until(&mut self, now_ms: u64) -> (ops: Vec<RasterOp>)
        requires
            old(self).wf(),
        ensures
            final(self).wf(),
            final(self).same_document(*old(self)),
            final(self).last_now_ms == (if now_ms >= old(self).last_now_ms {
                now_ms
            } else {
                old(self).last_now_ms
            }),
            final(self).applied == reach(
                old(self).stroke_order@,
                stroke_times(old(self).doc.strokes@),
                old(self).applied as nat,
                now_ms,
            ),
            final(self).wm_applied == reach(
                old(self).wm_order@,
                mark_times(old(self).doc.watermarks@),
                old(self).wm_applied as nat,
                now_ms,
            ),
            ops@ == stroke_ops(
                old(self).stroke_order@,
                old(self).applied as int,
                final(self).applied as int,
            ) + mark_ops(
                old(self).wm_order@,
                old(self).wm_applied as int,
                final(self).wm_applied as int,
            ) + (if old(self).live_stale(now_ms) {
                seq![RasterOp::ClearLive]
            } else {
                Seq::empty()
            }),
            now_ms >= old(self).last_now_ms ==> final(self).shows_until(now_ms),
            final(self).coverage == old(self).coverage,
            old(self).live_stale(now_ms) ==> final(self).no_live(),
            !old(self).live_stale(now_ms) ==> final(self).live_bb == old(self).live_bb
                && final(self).live_since_ms == old(self).live_since_ms,
    {
        let stroke_ms = times_of_strokes(&self.doc.strokes);
        let mark_ms = times_of_marks(&self.doc.watermarks);
        let mut ops: Vec<RasterOp> = Vec::new();
        let to = reach_of(&self.stroke_order, &stroke_ms, self.applied, now_ms);
        let wm_to = reach_of(&self.wm_order, &mark_ms, self.wm_applied, now_ms);
        proof {
            lemma_reach(
                self.stroke_order@,
                stroke_ms@,
                stroke_ms@.len(),
                self.applied as nat,
                now_ms,
            );
            lemma_reach(
                self.wm_order@,
                mark_ms@,
                mark_ms@.len(),
                self.wm_applied as nat,
                now_ms,
            );
        }
        push_stroke_ops(&mut ops, &self.stroke_order, self.applied, to);
        push_mark_ops(&mut ops, &self.wm_order, self.wm_applied, wm_to);
        if now_ms > self.last_now_ms {
            self.last_now_ms = now_ms;
        }
        self.applied = to;
        self.wm_applied = wm_to;
        if let Some(since) = self.live_since_ms {
            if now_ms.saturating_sub(since) > LIVE_TIMEOUT_MS {
                self.clear_live();
                ops.push(RasterOp::ClearLive);
            }
        }
        proof {
            if now_ms >= old(self).last_now_ms {
                self.lemma_shows(now_ms);
            }
        }
        assert(ops@ =~= stroke_ops(
            old(self).stroke_order@,
            old(self).applied as int,
            self.applied as int,
        ) + mark_ops(old(self).wm_order@, old(self).wm_applied as int, self.wm_applied as int)
            + (if old(self).live_stale(now_ms) {
            seq![RasterOp::ClearLive]
        } else {
            Seq::empty()
        }));
        ops
    }

    proof fn lemma_shows(self, now: u64)
        requires
            self.wf(),
            forall|k: int|
                0 <= k < self.applied ==> stroke_times(
                    self.doc.strokes@,
                )[#[trigger] self.stroke_order@[k] as int] <= now,
            forall|k: int|
                self.applied <= k < self.doc.strokes@.len() ==> stroke_times(
                    self.doc.strokes@,
                )[#[trigger] self.stroke_order@[k] as int] > now,
            forall|k: int|
                0 <= k < self.wm_applied ==> mark_times(
                    self.doc.watermarks@,
                )[#[trigger] self.wm_order@[k] as int] <= now,
            forall|k: int|
                self.wm_applied <= k < self.doc.watermarks@.len() ==> mark_times(
                    self.doc.watermarks@,
                )[#[trigger] self.wm_order@[k] as int] > now,
        ensures
            self.shows_until(now),
    {
        assert forall|i: int| 0 <= i < self.doc.strokes@.len() implies (
        #[trigger] self.shows_stroke(i) <==> self.doc.strokes@[i].appear_ms <= now) by {
            assert(lists(self.stroke_order@, i));
            let k = choose|k: int|
                0 <= k < self.stroke_order@.len() && #[trigger] self.stroke_order@[k] == i;
            assert(stroke_times(self.doc.strokes@)[self.stroke_order@[k] as int]
                == self.doc.strokes@[i].appear_ms);
        }
        assert forall|i: int| 0 <= i < self.doc.watermarks@.len() implies (
        #[trigger] self.shows_mark(i) <==> self.doc.watermarks@[i].appear_ms <= now) by {
            assert(lists(self.wm_order@, i));
            let k = choose|k: int|
                0 <= k < self.wm_order@.len() && #[trigger] self.wm_order@[k] == i;
            assert(mark_times(self.doc.watermarks@)[self.wm_order@[k] as int]
                == self.doc.watermarks@[i].appear_ms);
        }
    }
}

/// The order of what is there already does not depend on what comes behind it.
proof fn lemma_order_extends(order: Seq<usize>, times: Seq<u64>, more: Seq<u64>, m: nat)
    requires
        time_order(order, times, m),
        m <= more.len(),
        forall|i: int| 0 <= i < m ==> times[i] == more[i],
    ensures
        time_order(order, more, m),
{
    assert forall|k: int, l: int| 0 <= k < l < m implies earlier(
        more,
        #[trigger] order[k] as int,
        #[trigger] order[l] as int,
    ) by {
        assert(earlier(times, order[k] as int, order[l] as int));
    }
}

/// The strokes of a document after a drawing event.
pub open spec fn strokes_after(strokes: Seq<Stroke>, ev: DrawEvent, now_ms: u64) -> Seq<Stroke> {
    match ev {
        DrawEvent::AddStroke(s) => strokes.push(Stroke { appear_ms: now_ms, ..s }),
        DrawEvent::PenLive { .. } => strokes,
        DrawEvent::Undo => if strokes.len() > 0 {
            strokes.drop_last()
        } else {
            strokes
        },
        DrawEvent::Clear => Seq::empty(),
    }
}

proof fn lemma_reach_on(order: Seq<usize>, times: Seq<u64>, from: nat, between: u64, now: u64)
    requires
        from <= order.len(),
        between <= now,
    ensures
        from <= reach(order, times, from, between) <= reach(order, times, from, now),
        reach(order, times, from, now) <= order.len(),
        reach(order, times, reach(order, times, from, between), now) == reach(
            order,
            times,
            from,
            now,
        ),
    decreases order.len() - from,
{
    if from < order.len() && times[order[from as int] as int] <= now {
        lemma_reach_on(order, times, from + 1, between, now);
    }
}

/// Frame by frame comes to the same as all at once: a frame in between takes its
/// part of the drawing, and the next one goes on right behind it, so that nothing
/// is drawn twice and nothing is left out.
pub proof fn law_drawn_once(
    order: Seq<usize>,
    times: Seq<u64>,
    from: nat,
    between: u64,
    now: u64,
)
    requires
        from <= order.len(),
        between <= now,
    ensures
        ({
            let mid = reach(order, times, from, between);
            let end = reach(order, times, from, now);
            &&& reach(order, times, mid, now) == end
            &&& stroke_ops(order, from as int, mid as int) + stroke_ops(
                order,
                mid as int,
                end as int,
            ) == stroke_ops(order, from as int, end as int)
            &&& mark_ops(order, from as int, mid as int) + mark_ops(order, mid as int, end as int)
                == mark_ops(order, from as int, end as int)
        }),
{
    lemma_reach_on(order, times, from, between, now);
    let mid = reach(order, times, from, between);
    let end = reach(order, times, from, now);
    assert(stroke_ops(order, from as int, mid as int) + stroke_ops(order, mid as int, end as int)
        =~= stroke_ops(order, from as int, end as int));
    assert(mark_ops(order, from as int, mid as int) + mark_ops(order, mid as int, end as int)
        =~= mark_ops(order, from as int, end as int));
}

/// Undo takes back the last stroke that was added, however much of it was shown
/// while it was being drawn.
pub proof fn law_undo_takes_back(
    strokes: Seq<Stroke>,
    live: DrawEvent,
    s: Stroke,
    t0: u64,
    t1: u64,
    t2: u64,
)
    requires
        live is PenLive,
    ensures
        strokes_after(strokes, live, t0) == strokes,
        strokes_after(
            strokes_after(strokes_after(strokes, live, t0), DrawEvent::AddStroke(s), t1),
            DrawEvent::Undo,
            t2,
        ) == strokes,
{
    assert(strokes.push(Stroke { appear_ms: t1, ..s }).drop_last() =~= strokes);
}

impl Annotator {
    /// The state just after everything was drawn anew, and the drawing for it.
    pub open spec fn drawn_anew(self, ops: Seq<RasterOp>) -> bool {
        &&& self.wf()
        &&& self.no_live()
        &&& self.coverage.void()
        &&& self.shows_until(self.last_now_ms)
        &&& ops == seq![RasterOp::ClearMain, RasterOp::ClearLive] + stroke_ops(
            self.stroke_order@,
            0,
            self.applied as int,
        ) + mark_ops(self.wm_order@, 0, self.wm_applied as int)
    }

    /// Draws everything anew after strokes were taken away.
    pub fn rebuild(&mut self) -> (ops: Vec<RasterOp>)
        ensures
            final(self).drawn_anew(ops@),
            final(self).doc == old(self).doc,
            final(self).w == old(self).w,
            final(self).h == old(self).h,
            final(self).last_now_ms == old(self).last_now_ms,
    {
        self.coverage = BBox::empty();
        self.live_bb = BBox::empty();
        self.live_since_ms = None;
        self.stroke_order = sort_by_time(&times_of_strokes(&self.doc.strokes));
        self.wm_order = sort_by_time(&times_of_marks(&self.doc.watermarks));
        self.applied = 0;
        self.wm_applied = 0;
        let now = self.last_now_ms;
        let mut ops: Vec<RasterOp> = Vec::new();
        ops.push(RasterOp::ClearMain);
        ops.push(RasterOp::ClearLive);
        let ghost head = ops@;
        let mut rest = self.apply_until(now);
        let ghost tail = rest@;
        ops.append(&mut rest);
        assert(ops@ =~= head + tail);
        assert(ops@ =~= seq![RasterOp::ClearMain, RasterOp::ClearLive] + stroke_ops(
            self.stroke_order@,
            0,
            self.applied as int,
        ) + mark_ops(self.wm_order@, 0, self.wm_applied as int));
        ops
    }

    /// Puts a live stroke on the overlay at once, behind everything that has
    /// appeared by then.
    fn add_live_stroke(&mut self, s: Stroke, now_ms: u64) -> (ops: Vec<RasterOp>)
        requires
            old(self).wf(),
        ensures
            final(self).wf(),
            final(self).doc.same_but_strokes(old(self).doc),
            final(self).doc.strokes@ == old(self).doc.strokes@.push(
                Stroke { appear_ms: now_ms, ..s },
            ),
            final(self).no_live(),
            final(self).shows_stroke(old(self).doc.strokes@.len() as int),
            final(self).coverage == old(self).coverage,
            final(self).w == old(self).w,
            final(self).h == old(self).h,
            final(self).last_now_ms == (if now_ms >= old(self).last_now_ms {
                now_ms
            } else {
                old(self).last_now_ms
            }),
            final(self).wm_order == old(self).wm_order,
            final(self).wm_applied == old(self).wm_applied,
            final(self).applied == reach(
                old(self).stroke_order@,
                stroke_times(old(self).doc.strokes@),
                old(self).applied as nat,
                now_ms,
            ) + 1,
            ops@ == seq![RasterOp::ClearLive] + stroke_ops(
                old(self).stroke_order@,
                old(self).applied as int,
                final(self).applied - 1,
            ) + seq![RasterOp::Stroke(old(self).doc.strokes@.len() as usize)],
    {
        let ghost before = *self;
        self.clear_live();
        let mut ops: Vec<RasterOp> = Vec::new();
        ops.push(RasterOp::ClearLive);
        let stroke_ms = times_of_strokes(&self.doc.strokes);
        let due = reach_of(&self.stroke_order, &stroke_ms, self.applied, now_ms);
        proof {
            lemma_reach(
                self.stroke_order@,
                stroke_ms@,
                stroke_ms@.len(),
                self.applied as nat,
                now_ms,
            );
        }
        push_stroke_ops(&mut ops, &self.stroke_order, self.applied, due);
        let idx: usize = self.doc.strokes.len();
        let stamped = Stroke { appear_ms: now_ms, ..s };
        let ghost stamp = stamped;
        self.doc.strokes.push(stamped);
        let count: usize = self.doc.strokes.len();
        assert(due < count);
        let times = times_of_strokes(&self.doc.strokes);
        assert(times@ =~= stroke_ms@.push(now_ms));
        proof {
            lemma_order_extends(self.stroke_order@, stroke_ms@, times@, idx as nat);
        }
        let pos = place(&self.stroke_order, &times, idx);
        proof {
            lemma_insert_in_order(self.stroke_order@, times@, idx as nat, pos as int);
        }
        let ghost order = self.stroke_order@;
        self.stroke_order.insert(pos, idx);
        self.applied = due + 1;
        if now_ms > self.last_now_ms {
            self.last_now_ms = now_ms;
        }
        ops.push(RasterOp::Stroke(idx));
        proof {
            assert(pos <= due) by {
                if pos > due {
                    assert(times@[order[due as int] as int] <= now_ms);
                }
            }
            assert(self.stroke_order@[pos as int] == idx);
            assert forall|k: int| 0 <= k < self.applied implies times@[
                #[trigger] self.stroke_order@[k] as int
            ] <= self.last_now_ms by {
                if k < pos {
                    assert(self.stroke_order@[k] == order[k]);
                    assert(times@[order[k] as int] <= times@[idx as int]);
                } else if k > pos {
                    assert(self.stroke_order@[k] == order[k - 1]);
                    assert(stroke_ms@[order[k - 1] as int] == times@[order[k - 1] as int]);
                    if k - 1 < before.applied {
                        assert(stroke_ms@[before.stroke_order@[k - 1] as int]
                            <= before.last_now_ms);
                    }
                }
            }
            assert(self.doc.strokes@ =~= before.doc.strokes@.push(stamp));
        }
        assert(ops@ =~= seq![RasterOp::ClearLive] + stroke_ops(
            old(self).stroke_order@,
            old(self).applied as int,
            self.applied - 1,
        ) + seq![RasterOp::Stroke(idx)]);
        ops
    }

    /// Shows the pen stroke in progress, in place of what was shown of it before.
    /// Without points there is no stroke in progress.
    fn show_live(
        &mut self,
        color: Rgba,
        width_px: F32,
        points: Vec<(F32, F32)>,
        now_ms: u64,
    ) -> (op: RasterOp)
        requires
            old(self).wf(),
        ensures
            final(self).wf(),
            final(self).same_document(*old(self)),
            final(self).applied == old(self).applied,
            final(self).wm_applied == old(self).wm_applied,
            final(self).coverage == old(self).coverage,
            final(self).last_now_ms == old(self).last_now_ms,
            points@.len() == 0 ==> final(self).no_live() && op == RasterOp::ClearLive,
            points@.len() > 0 ==> {
                &&& final(self).live_since_ms == Some(now_ms)
                &&& final(self).live_bb.void()
                &&& op is Live
                &&& op->Live_0.points == points
                &&& op->Live_0.color == color
                &&& op->Live_0.width_px == width_px.larger(F32 { bits: ONE_BITS })
                &&& op->Live_0.tool == Tool::Pen
                &&& op->Live_0.text is None
                &&& op->Live_0.appear_ms == now_ms
                &&& op->Live_0.font_px is None
                &&& !op->Live_0.filled
                &&& op->Live_0.font_path is None
            },
    {
        if points.len() == 0 {
            self.clear_live();
            return RasterOp::ClearLive;
        }
        self.live_bb = BBox::empty();
        self.live_since_ms = Some(now_ms);
        RasterOp::Live(
            Stroke {
                points,
                color,
                width_px: width_px.max_of(F32 { bits: ONE_BITS }),
                tool: Tool::Pen,
                text: None,
                appear_ms: now_ms,
                font_px: None,
                filled: false,
                font_path: None,
            },
        )
    }

    /// Applies one live drawing event at clock `now_ms`.
    pub fn apply_event(&mut self, ev: DrawEvent, now_ms: u64) -> (ops: Vec<RasterOp>)
        requires
            old(self).wf(),
        ensures
            final(self).wf(),
            final(self).w == old(self).w,
            final(self).h == old(self).h,
            final(self).doc.strokes@ == strokes_after(old(self).doc.strokes@, ev, now_ms),
            match ev {
                DrawEvent::AddStroke(s) => {
                    &&& final(self).doc.same_but_strokes(old(self).doc)
                    &&& final(self).no_live()
                    &&& final(self).shows_stroke(old(self).doc.strokes@.len() as int)
                    &&& final(self).coverage == old(self).coverage
                    &&& final(self).last_now_ms == (if now_ms >= old(self).last_now_ms {
                        now_ms
                    } else {
                        old(self).last_now_ms
                    })
                    &&& final(self).wm_applied == old(self).wm_applied
                    &&& final(self).applied == reach(
                        old(self).stroke_order@,
                        stroke_times(old(self).doc.strokes@),
                        old(self).applied as nat,
                        now_ms,
                    ) + 1
                    &&& ops@ == seq![RasterOp::ClearLive] + stroke_ops(
                        old(self).stroke_order@,
                        old(self).applied as int,
                        final(self).applied - 1,
                    ) + seq![RasterOp::Stroke(old(self).doc.strokes@.len() as usize)]
                },
                DrawEvent::PenLive { color, width_px, points } => {
                    &&& final(self).same_document(*old(self))
                    &&& final(self).applied == old(self).applied
                    &&& final(self).wm_applied == old(self).wm_applied
                    &&& final(self).coverage == old(self).coverage
                    &&& final(self).last_now_ms == old(self).last_now_ms
                    &&& ops@.len() == 1
                    &&& if points@.len() == 0 {
                        ops@[0] == RasterOp::ClearLive && final(self).no_live()
                    } else {
                        &&& final(self).live_since_ms == Some(now_ms)
                        &&& final(self).live_bb.void()
                        &&& ops@[0] is Live
                        &&& ops@[0]->Live_0.points == points
                        &&& ops@[0]->Live_0.color == color
                        &&& ops@[0]->Live_0.width_px == width_px.larger(F32 { bits: ONE_BITS })
                        &&& ops@[0]->Live_0.tool == Tool::Pen
                        &&& ops@[0]->Live_0.text is None
                        &&& ops@[0]->Live_0.appear_ms == now_ms
                        &&& ops@[0]->Live_0.font_px is None
                        &&& !ops@[0]->Live_0.filled
                        &&& ops@[0]->Live_0.font_path is None
                    }
                },
                DrawEvent::Undo => {
                    &&& final(self).doc.same_but_strokes(old(self).doc)
                    &&& final(self).last_now_ms == old(self).last_now_ms
                    &&& final(self).drawn_anew(ops@)
                },
                DrawEvent::Clear => {
                    &&& final(self).doc.watermarks@.len() == 0
                    &&& final(self).doc.version == old(self).doc.version
                    &&& final(self).doc.canvas_w == old(self).doc.canvas_w
                    &&& final(self).doc.canvas_h == old(self).doc.canvas_h
                    &&& final(self).doc.burn_in == old(self).doc.burn_in
                    &&& final(self).last_now_ms == old(self).last_now_ms
                    &&& final(self).drawn_anew(ops@)
                },
            },
    {
        match ev {
            DrawEvent::AddStroke(s) => self.add_live_stroke(s, now_ms),
            DrawEvent::PenLive { color, width_px, points } => {
                let op = self.show_live(color, width_px, points, now_ms);
                let mut ops: Vec<RasterOp> = Vec::new();
                ops.push(op);
                ops
            },
            DrawEvent::Undo => {
                self.doc.strokes.pop();
                self.rebuild()
            },
            DrawEvent::Clear => {
                self.doc.clear();
                self.rebuild()
            },
        }
    }

    /// Books the box of something that was drawn onto the committed layer.
    pub fn note_drawn(&mut self, bb: BBox)
        requires
            old(self).wf(),
        ensures
            final(self).wf(),
            final(self).coverage == old(self).coverage.joined(bb),
            final(self).same_document(*old(self)),
            final(self).applied == old(self).applied,
            final(self).wm_applied == old(self).wm_applied,
            final(self).live_bb == old(self).live_bb,
            final(self).live_since_ms == old(self).live_since_ms,
            final(self).last_now_ms == old(self).last_now_ms,
    {
        let mut c = self.coverage;
        c.union(bb);
        self.coverage = c;
    }

    /// Books the box of the stroke in progress.
    pub fn note_live(&mut self, bb: BBox)
        requires
            old(self).wf(),
        ensures
            final(self).wf(),
            final(self).live_bb == bb,
            final(self).same_document(*old(self)),
            final(self).applied == old(self).applied,
            final(self).wm_applied == old(self).wm_applied,
            final(self).coverage == old(self).coverage,
            final(self).live_since_ms == old(self).live_since_ms,
            final(self).last_now_ms == old(self).last_now_ms,
    {
        self.live_bb = bb;
    }

    /// Blends the committed layer and then that of the stroke in progress over a BGRA
    /// frame of the feed's size; how many pixels were blended.
    pub fn blend_bgra<F: Fn(u8, u8, u8) -> u8>(
        &self,
        frame: &mut [u8],
        layer: &[u8],
        live: &[u8],
        mix: &F,
    ) -> (count: usize)
        requires
            self.w <= i32::MAX,
            self.h <= i32::MAX,
            old(frame)@.len() == frame::size_of_frame(self.w as nat, self.h as nat),
            layer@.len() == frame::size_of_frame(self.w as nat, self.h as nat),
            live@.len() == frame::size_of_frame(self.w as nat, self.h as nat),
            forall|a: u8, b: u8, c: u8| call_requires(*mix, (a, b, c)),
        ensures
            count == inked(layer@, self.w, self.h, self.coverage) + inked(
                live@,
                self.w,
                self.h,
                self.live_bb,
            ),
            final(frame)@.len() == old(frame)@.len(),
            exists|between: Seq<u8>| #[trigger]
                all_blended(
                    *mix,
                    layer@,
                    old(frame)@,
                    between,
                    self.w,
                    self.h,
                    self.coverage,
                ) && all_blended(
                    *mix,
                    live@,
                    between,
                    final(frame)@,
                    self.w,
                    self.h,
                    self.live_bb,
                ),
            forall|x: int, y: int, c: int|
                #![trigger byte_at(self.w, x, y, c)]
                0 <= x < self.w && 0 <= y < self.h && 0 <= c < 4 && (c == 3 || (bare(
                    layer@,
                    self.w,
                    self.coverage,
                    x,
                    y,
                ) && bare(live@, self.w, self.live_bb, x, y))) ==> final(frame)@[byte_at(
                    self.w,
                    x,
                    y,
                    c,
                )] == old(frame)@[byte_at(self.w, x, y, c)],
            count == 0 ==> final(frame)@ == old(frame)@,
            self.coverage.void() && self.live_bb.void() ==> count == 0,
    {
        let ghost start = frame@;
        let drawn = blend_region(frame, layer, self.w, self.h, self.coverage, mix);
        let ghost between = frame@;
        let moving = blend_region(frame, live, self.w, self.h, self.live_bb, mix);
        proof {
            if drawn == 0 {
                law_blend_nothing(
                    *mix,
                    layer@,
                    start,
                    between,
                    self.w,
                    self.h,
                    self.coverage,
                );
            }
            if moving == 0 {
                law_blend_nothing(
                    *mix,
                    live@,
                    between,
                    frame@,
                    self.w,
                    self.h,
                    self.live_bb,
                );
            }
            if self.coverage.void() {
                law_blend_empty_box(layer@, self.w, self.h, self.coverage);
            }
            if self.live_bb.void() {
                law_blend_empty_box(live@, self.w, self.h, self.live_bb);
            }
        }
        let total: usize = layer.len();
        assert(drawn + moving <= total);
        drawn + moving
    }
}

// ---------------------------------------------------------------------------
// Shapes
// ---------------------------------------------------------------------------

/// A box between two corners.
#[derive(Debug, Clone, Copy, PartialEq, Eq, Structural)]
pub struct Corners {
    pub x0: i32,
    pub y0: i32,
    pub x1: i32,
    pub y1: i32,
}

/// The box between two points, whichever way it was dragged.
pub open spec fn box_between(a: (i32, i32), b: (i32, i32)) -> Corners {
    Corners {
        x0: if a.0 <= b.0 {
            a.0
        } else {
            b.0
        },
        y0: if a.1 <= b.1 {
            a.1
        } else {
            b.1
        },
        x1: if a.0 >= b.0 {
            a.0
        } else {
            b.0
        },
        y1: if a.1 >= b.1 {
            a.1
        } else {
            b.1
        },
    }
}

fn corners(a: (i32, i32), b: (i32, i32)) -> (r: Corners)
    ensures
        r == box_between(a, b),
{
    Corners {
        x0: if a.0 <= b.0 {
            a.0
        } else {
            b.0
        },
        y0: if a.1 <= b.1 {
            a.1
        } else {
            b.1
        },
        x1: if a.0 >= b.0 {
            a.0
        } else {
            b.0
        },
        y1: if a.1 >= b.1 {
            a.1
        } else {
            b.1
        },
    }
}

/// One thing to draw of a stroke, in pixels.
#[derive(Debug, Clone, Copy, PartialEq, Eq)]
pub enum Prim {
    /// A dot of the stroke's width.
    Stamp((i32, i32)),
    /// A line of the stroke's width.
    Segment((i32, i32), (i32, i32)),
    /// The two barbs at the second point of an arrow.
    Barbs((i32, i32), (i32, i32)),
    FillRect(Corners),
    FillEllipse(Corners),
    OutlineEllipse(Corners),
    /// Text with its top left corner here.
    Text((i32, i32)),
    /// An image with its top left corner here, scaled to the given size.
    Image { at: (i32, i32), w: u32, h: u32 },
}

/// A side of an image: the distance of its corners, and at least a pixel.
pub open spec fn side(a: i32, b: i32) -> u32 {
    let d = if a >= b {
        a - b
    } else {
        b - a
    };
    if d < 1 {
        1
    } else {
        d as u32
    }
}

fn side_of(a: i32, b: i32) -> (r: u32)
    ensures
        r == side(a, b),
{
    let d: i64 = if a >= b {
        a as i64 - b as i64
    } else {
        b as i64 - a as i64
    };
    if d < 1 {
        1
    } else {
        d as u32
    }
}

/// Has the stroke a text that is not empty?
pub open spec fn has_text(t: Option<String>) -> bool {
    t matches Some(s) && s@.len() > 0
}

/// What is drawn of a stroke whose points lie at the pixels `pts`.
pub open spec fn prims_of(s: Stroke, pts: Seq<(i32, i32)>) -> Seq<Prim> {
    let (a, b) = (pts[0], pts.last());
    let c = box_between(a, b);
    if pts.len() == 0 {
        Seq::empty()
    } else {
        match s.tool {
            Tool::Pen => if pts.len() == 1 {
                seq![Prim::Stamp(a)]
            } else {
                Seq::new((pts.len() - 1) as nat, |i: int| Prim::Segment(pts[i], pts[i + 1]))
            },
            Tool::Line => seq![Prim::Segment(a, b)],
            Tool::Arrow => seq![Prim::Segment(a, b), Prim::Barbs(a, b)],
            Tool::Rect => if s.filled {
                seq![Prim::FillRect(c)]
            } else {
                seq![
                    Prim::Segment((c.x0, c.y0), (c.x1, c.y0)),
                    Prim::Segment((c.x1, c.y0), (c.x1, c.y1)),
                    Prim::Segment((c.x1, c.y1), (c.x0, c.y1)),
                    Prim::Segment((c.x0, c.y1), (c.x0, c.y0)),
                ]
            },
            Tool::Ellipse => if s.filled {
                seq![Prim::FillEllipse(c)]
            } else {
                seq![Prim::OutlineEllipse(c)]
            },
            Tool::Text => if has_text(s.text) {
                seq![Prim::Text(a)]
            } else {
                Seq::empty()
            },
            Tool::Image => if has_text(s.text) {
                seq![Prim::Image { at: (c.x0, c.y0), w: side(a.0, b.0), h: side(a.1, b.1) }]
            } else {
                Seq::empty()
            },
        }
    }
}

/// What is to be drawn of a stroke whose points lie at the pixels `pts`.
pub fn stroke_prims(s: &Stroke, pts: &Vec<(i32, i32)>) -> (out: Vec<Prim>)
    ensures
        out@ == prims_of(*s, pts@),
        pts@.len() == 0 ==> out@.len() == 0,
        s.tool == Tool::Line && pts@.len() > 0 ==> out@ == seq![
            Prim::Segment(pts@[0], pts@[pts@.len() - 1]),
        ],
        s.tool == Tool::Arrow && pts@.len() > 0 ==> out@ == seq![
            Prim::Segment(pts@[0], pts@[pts@.len() - 1]),
            Prim::Barbs(pts@[0], pts@[pts@.len() - 1]),
        ],
        s.tool == Tool::Pen && pts@.len() == 1 ==> out@ == seq![Prim::Stamp(pts@[0])],
        s.tool == Tool::Pen && pts@.len() > 1 ==> out@.len() == pts@.len() - 1 && forall|i: int|
            0 <= i < out@.len() ==> #[trigger] out@[i] == Prim::Segment(pts@[i], pts@[i + 1]),
        s.tool == Tool::Text && pts@.len() > 0 ==> out@ == (if s.text matches Some(t)
            && t@.len() > 0 {
            seq![Prim::Text(pts@[0])]
        } else {
            Seq::empty()
        }),
{
    let mut out: Vec<Prim> = Vec::new();
    if pts.len() == 0 {
        return out;
    }
    let a = pts[0];
    let b = pts[pts.len() - 1];
    let c = corners(a, b);
    let worded = match &s.text {
        Some(t) => !t.as_str().is_empty(),
        None => false,
    };
    match s.tool {
        Tool::Pen => {
            if pts.len() == 1 {
                out.push(Prim::Stamp(a));
            } else {
                let mut i: usize = 0;
                while i < pts.len() - 1
                    invariant
                        pts@.len() > 1,
                        i <= pts@.len() - 1,
                        out@ == Seq::new(
                            i as nat,
                            |k: int| Prim::Segment(pts@[k], pts@[k + 1]),
                        ),
                    decreases pts@.len() - i,
                {
                    out.push(Prim::Segment(pts[i], pts[i + 1]));
                    i += 1;
                    assert(out@ =~= Seq::new(
                        i as nat,
                        |k: int| Prim::Segment(pts@[k], pts@[k + 1]),
                    ));
                }
            }
        },
        Tool::Line => out.push(Prim::Segment(a, b)),
        Tool::Arrow => {
            out.push(Prim::Segment(a, b));
            out.push(Prim::Barbs(a, b));
        },
        Tool::Rect => {
            if s.filled {
                out.push(Prim::FillRect(c));
            } else {
                out.push(Prim::Segment((c.x0, c.y0), (c.x1, c.y0)));
                out.push(Prim::Segment((c.x1, c.y0), (c.x1, c.y1)));
                out.push(Prim::Segment((c.x1, c.y1), (c.x0, c.y1)));
                out.push(Prim::Segment((c.x0, c.y1), (c.x0, c.y0)));
            }
        },
        Tool::Ellipse => {
            if s.filled {
                out.push(Prim::FillEllipse(c));
            } else {
                out.push(Prim::OutlineEllipse(c));
            }
        },
        Tool::Text => {
            if worded {
                out.push(Prim::Text(a));
            }
        },
        Tool::Image => {
            if worded {
                out.push(
                    Prim::Image { at: (c.x0, c.y0), w: side_of(a.0, b.0), h: side_of(a.1, b.1) },
                );
            }
        },
    }
    assert(out@ =~= prims_of(*s, pts@));
    out
}

// ---------------------------------------------------------------------------
// What holds on every input
// ---------------------------------------------------------------------------

/// An arrow is the line from the first point to the last, with its head at the last.
pub proof fn law_arrow_points_at_its_end(s: Stroke, pts: Seq<(i32, i32)>)
    requires
        s.tool == Tool::Arrow,
        pts.len() > 0,
    ensures
        prims_of(s, pts).len() == 2,
        prims_of(s, pts)[0] matches Prim::Segment(from, to) && from == pts[0] && to == pts[pts.len()
            - 1],
        prims_of(s, pts)[1] matches Prim::Barbs(tail, tip) && tail == pts[0] && tip == pts[pts.len()
            - 1],
{
}

/// A line runs from the first point to the last; what lies between does not count.
pub proof fn law_line_spans_the_drag(s: Stroke, pts: Seq<(i32, i32)>)
    requires
        s.tool == Tool::Line,
        pts.len() > 0,
    ensures
        prims_of(s, pts).len() == 1,
        prims_of(s, pts)[0] matches Prim::Segment(from, to) && from == pts[0] && to == pts[pts.len()
            - 1],
{
}

/// A pen path goes through every point in order, each piece starting where the one
/// before it ended. A single point is a dot.
pub proof fn law_pen_goes_through_all_points(s: Stroke, pts: Seq<(i32, i32)>, i: int)
    requires
        s.tool == Tool::Pen,
        0 <= i < pts.len(),
    ensures
        pts.len() == 1 ==> prims_of(s, pts) == seq![Prim::Stamp(pts[0])],
        pts.len() > 1 ==> prims_of(s, pts).len() == pts.len() - 1,
        i > 0 ==> (prims_of(s, pts)[i - 1] matches Prim::Segment(_, to) && to == pts[i]),
        i < pts.len() - 1 ==> (prims_of(s, pts)[i] matches Prim::Segment(from, _) && from
            == pts[i]),
{
}

/// The box between two points holds both, and its edges go through them.
pub proof fn law_box_between(a: (i32, i32), b: (i32, i32))
    ensures
        ({
            let c = box_between(a, b);
            &&& c.x0 <= a.0 <= c.x1 && c.x0 <= b.0 <= c.x1
            &&& c.y0 <= a.1 <= c.y1 && c.y0 <= b.1 <= c.y1
            &&& (c.x0 == a.0 && c.x1 == b.0) || (c.x0 == b.0 && c.x1 == a.0)
            &&& (c.y0 == a.1 && c.y1 == b.1) || (c.y0 == b.1 && c.y1 == a.1)
            &&& c == box_between(b, a)
        }),
{
}

/// An outlined rectangle is a closed path of four straight sides around the box of
/// the drag, and a filled one is that box.
pub proof fn law_rectangle_is_the_box(s: Stroke, pts: Seq<(i32, i32)>, c: Corners)
    requires
        s.tool == Tool::Rect,
        pts.len() > 0,
        c.x0 <= c.x1,
        c.y0 <= c.y1,
        (c.x0 == pts[0].0 && c.x1 == pts.last().0) || (c.x1 == pts[0].0 && c.x0
            == pts.last().0),
        (c.y0 == pts[0].1 && c.y1 == pts.last().1) || (c.y1 == pts[0].1 && c.y0
            == pts.last().1),
    ensures
        s.filled ==> prims_of(s, pts) == seq![Prim::FillRect(c)],
        !s.filled ==> prims_of(s, pts).len() == 4 && {
            let p = prims_of(s, pts);
            &&& p[0] == Prim::Segment((c.x0, c.y0), (c.x1, c.y0))
            &&& p[1] == Prim::Segment((c.x1, c.y0), (c.x1, c.y1))
            &&& p[2] == Prim::Segment((c.x1, c.y1), (c.x0, c.y1))
            &&& p[3] == Prim::Segment((c.x0, c.y1), (c.x0, c.y0))
        },
{
    assert(c == box_between(pts[0], pts.last()));
}

/// An ellipse fills the box of the drag, or is its outline.
pub proof fn law_ellipse_fits_the_box(s: Stroke, pts: Seq<(i32, i32)>, c: Corners)
    requires
        s.tool == Tool::Ellipse,
        pts.len() > 0,
        c.x0 <= c.x1,
        c.y0 <= c.y1,
        (c.x0 == pts[0].0 && c.x1 == pts.last().0) || (c.x1 == pts[0].0 && c.x0
            == pts.last().0),
        (c.y0 == pts[0].1 && c.y1 == pts.last().1) || (c.y1 == pts[0].1 && c.y0
            == pts.last().1),
    ensures
        s.filled ==> prims_of(s, pts) == seq![Prim::FillEllipse(c)],
        !s.filled ==> prims_of(s, pts) == seq![Prim::OutlineEllipse(c)],
{
    assert(c == box_between(pts[0], pts.last()));
}

/// Text stands at the first point, and is drawn only where there is some.
pub proof fn law_text_stands_at_the_first_point(s: Stroke, pts: Seq<(i32, i32)>)
    requires
        s.tool == Tool::Text,
        pts.len() > 0,
    ensures
        prims_of(s, pts).len() <= 1,
        prims_of(s, pts).len() == 1 <==> (s.text is Some && s.text->0@.len() > 0),
        prims_of(s, pts).len() == 1 ==> prims_of(s, pts)[0] == Prim::Text(pts[0]),
{
}

/// An image stands at the top left corner of the drag and is as large as the drag,
/// but never without width or height. One without a path is not drawn.
pub proof fn law_image_fills_the_box(s: Stroke, pts: Seq<(i32, i32)>)
    requires
        s.tool == Tool::Image,
        pts.len() > 0,
    ensures
        prims_of(s, pts).len() <= 1,
        prims_of(s, pts).len() == 1 <==> (s.text is Some && s.text->0@.len() > 0),
        prims_of(s, pts).len() == 1 ==> (prims_of(s, pts)[0] matches Prim::Image { at, w, h } && {
            let (a, b) = (pts[0], pts.last());
            &&& at.0 <= a.0 && at.0 <= b.0 && (at.0 == a.0 || at.0 == b.0)
            &&& at.1 <= a.1 && at.1 <= b.1 && (at.1 == a.1 || at.1 == b.1)
            &&& w >= 1 && h >= 1
            &&& a.0 != b.0 ==> (w == a.0 - b.0 || w == b.0 - a.0)
            &&& a.0 == b.0 ==> w == 1
            &&& a.1 != b.1 ==> (h == a.1 - b.1 || h == b.1 - a.1)
            &&& a.1 == b.1 ==> h == 1
        }),
{
}

/// Rectangles, ellipses and images do not depend on the way they were dragged.
pub proof fn law_shapes_ignore_the_way_of_the_drag(s: Stroke, a: (i32, i32), b: (i32, i32))
    requires
        s.tool == Tool::Rect || s.tool == Tool::Ellipse || s.tool == Tool::Image,
    ensures
        prims_of(s, seq![a, b]) == prims_of(s, seq![b, a]),
{
    assert(box_between(a, b) == box_between(b, a));
}

/// Where blending reads and writes: the layer holds red, green, blue and opacity,
/// the frame blue, green and red, rows of `w` pixels of four bytes from the top.
pub proof fn law_blend_mixes_matching_colours<F: Fn(u8, u8, u8) -> u8>(
    mix: F,
    layer: Seq<u8>,
    before: Seq<u8>,
    after: Seq<u8>,
    w: u32,
    h: u32,
    bb: BBox,
    x: int,
    y: int,
)
    requires
        all_blended(mix, layer, before, after, w, h, bb),
        0 <= x < w,
        0 <= y < h,
        bb.x0 <= x < bb.x1,
        bb.y0 <= y < bb.y1,
        layer[(y * w + x) * 4 + 3] > 0,
    ensures
        ({
            let i = (y * w + x) * 4;
            &&& call_ensures(mix, (layer[i + 2], before[i], layer[i + 3]), after[i])
            &&& call_ensures(mix, (layer[i + 1], before[i + 1], layer[i + 3]), after[i + 1])
            &&& call_ensures(mix, (layer[i], before[i + 2], layer[i + 3]), after[i + 2])
            &&& after[i + 3] == before[i + 3]
        }),
{
    assert(byte_at(w, x, y, 0) == (y * w + x) * 4);
    assert(byte_at(w, x, y, 1) == (y * w + x) * 4 + 1);
    assert(byte_at(w, x, y, 2) == (y * w + x) * 4 + 2);
    assert(byte_at(w, x, y, 3) == (y * w + x) * 4 + 3);
}

/// A pixel with ink counts once and one without does not; two neighbouring runs
/// count what they count together.
pub proof fn law_ink_adds_up(layer: Seq<u8>, w: u32, y: int, x0: int, m: int, x1: int)
    requires
        x0 <= m <= x1,
    ensures
        inked_in_row(layer, w, y, x0, x1) == inked_in_row(layer, w, y, x0, m) + inked_in_row(
            layer,
            w,
            y,
            m,
            x1,
        ),
        inked_in_row(layer, w, y, m, m) == 0,
        inked_in_row(layer, w, y, m, m + 1) == (if layer[(y * w + m) * 4 + 3] > 0 {
            1nat
        } else {
            0
        }),
    decreases x1 - m,
{
    assert(inked_in_row(layer, w, y, m, m) == 0);
    if m < x1 {
        law_ink_adds_up(layer, w, y, x0, m, x1 - 1);
    }
}

/// The ink of a box is that of its rows.
pub proof fn law_ink_of_rows(layer: Seq<u8>, w: u32, d: BBox, y: int)
    ensures
        y <= d.y0 ==> inked_above(layer, w, d, y) == 0,
        y >= d.y0 ==> inked_above(layer, w, d, y + 1) == inked_above(layer, w, d, y)
            + inked_in_row(layer, w, y, d.x0 as int, d.x1 as int),
{
}

/// The ink that blending counts is that of the box, as far as it lies on the frame.
pub proof fn law_ink_is_counted_on_the_frame(layer: Seq<u8>, w: u32, h: u32, bb: BBox)
    requires
        w <= i32::MAX,
        h <= i32::MAX,
        0 <= bb.x0 <= bb.x1 <= w,
        0 <= bb.y0 <= bb.y1 <= h,
    ensures
        inked(layer, w, h, bb) == inked_above(layer, w, bb, bb.y1 as int),
{
    assert(bb.within(w, h) == bb);
}

/// A box holds a pixel from its left and top edge up to but without the others.
pub proof fn law_box_edges(b: BBox, x: int, y: int)
    ensures
        b.has(x, y) <==> b.x0 <= x && x < b.x1 && b.y0 <= y && y < b.y1,
        b.has(x, y) ==> !b.void(),
        !b.void() ==> b.has(b.x0 as int, b.y0 as int) && b.has(b.x1 - 1, b.y1 - 1),
{
}

/// A time order goes by the clock, and what appears at once stays as it was.
pub proof fn law_time_order(order: Seq<usize>, times: Seq<u64>, m: nat, k: int, l: int)
    requires
        time_order(order, times, m),
        0 <= k < l < m,
    ensures
        times[order[k] as int] <= times[order[l] as int],
        times[order[k] as int] == times[order[l] as int] ==> order[k] < order[l],
        order[k] != order[l],
{
    assert(earlier(times, order[k] as int, order[l] as int));
}

/// Every entry has its place in a time order.
pub proof fn law_time_order_leaves_none_out(
    order: Seq<usize>,
    times: Seq<u64>,
    m: nat,
    i: int,
)
    requires
        time_order(order, times, m),
        0 <= i < m,
    ensures
        order.len() == m,
        exists|k: int| 0 <= k < m && #[trigger] order[k] == i,
{
    assert(lists(order, i));
}

/// What has been reached by now is what has appeared by now.
pub proof fn law_reached_is_due(
    order: Seq<usize>,
    times: Seq<u64>,
    m: nat,
    from: nat,
    now: u64,
    k: int,
)
    requires
        time_order(order, times, m),
        from <= k < m,
    ensures
        k < reach(order, times, from, now) <==> times[order[k] as int] <= now,
{
    lemma_reach(order, times, m, from, now);
}

/// The times are those at which the entries appear.
pub proof fn law_times_are_appearances(s: Seq<Stroke>, m: Seq<Watermark>, i: int)
    ensures
        stroke_times(s).len() == s.len(),
        mark_times(m).len() == m.len(),
        0 <= i < s.len() ==> stroke_times(s)[i] == s[i].appear_ms,
        0 <= i < m.len() ==> mark_times(m)[i] == m[i].appear_ms,
{
}

/// The drawing between two positions is one operation for each of them, in order.
pub proof fn law_one_operation_each(order: Seq<usize>, a: int, b: int, k: int)
    requires
        0 <= a <= k < b <= order.len(),
    ensures
        stroke_ops(order, a, b).len() == b - a,
        mark_ops(order, a, b).len() == b - a,
        stroke_ops(order, a, b)[k - a] == RasterOp::Stroke(order[k]),
        mark_ops(order, a, b)[k - a] == RasterOp::Watermark(order[k]),
{
}

/// A stroke that is drawn live appears now and is otherwise as it was drawn; undo
/// takes the last one away, and clearing all of them.
pub proof fn law_live_events(strokes: Seq<Stroke>, s: Stroke, now_ms: u64, i: int)
    ensures
        ({
            let after = strokes_after(strokes, DrawEvent::AddStroke(s), now_ms);
            &&& after.len() == strokes.len() + 1
            &&& after[strokes.len() as int].appear_ms == now_ms
            &&& after[strokes.len() as int] == (Stroke { appear_ms: now_ms, ..s })
            &&& 0 <= i < strokes.len() ==> after[i] == strokes[i]
        }),
        strokes.len() > 0 ==> strokes_after(strokes, DrawEvent::Undo, now_ms).len()
            == strokes.len() - 1,
        0 <= i < strokes.len() - 1 ==> strokes_after(strokes, DrawEvent::Undo, now_ms)[i]
            == strokes[i],
        strokes_after(strokes, DrawEvent::Clear, now_ms).len() == 0,
{
}

/// A stroke in progress is given up two seconds after the last news of it.
pub proof fn law_live_timeout(a: Annotator, now: u64, t: u64)
    requires
        a.live_since_ms == Some(t),
    ensures
        a.live_stale(now) <==> now > t + 2000,
{
}

/// On the overlay is what has appeared, and nothing else.
pub proof fn law_overlay_shows_what_appeared(a: Annotator, now: u64, i: int)
    requires
        a.shows_until(now),
    ensures
        0 <= i < a.doc.strokes@.len() ==> ((exists|k: int|
            0 <= k < a.applied && #[trigger] a.stroke_order@[k] == i) <==> a.doc.strokes@[i].appear_ms
            <= now),
        0 <= i < a.doc.watermarks@.len() ==> ((exists|k: int|
            0 <= k < a.wm_applied && #[trigger] a.wm_order@[k] == i)
            <==> a.doc.watermarks@[i].appear_ms <= now),
{
    if 0 <= i < a.doc.strokes@.len() {
        assert(a.shows_stroke(i) <==> a.doc.strokes@[i].appear_ms <= now);
    }
    if 0 <= i < a.doc.watermarks@.len() {
        assert(a.shows_mark(i) <==> a.doc.watermarks@[i].appear_ms <= now);
    }
}

/// Drawing anew wipes both layers first, and then draws the strokes and the
/// watermarks that have appeared, in their order.
pub proof fn law_drawing_anew(a: Annotator, ops: Seq<RasterOp>, k: int)
    requires
        a.drawn_anew(ops),
    ensures
        ops.len() == 2 + a.applied + a.wm_applied,
        ops[0] == RasterOp::ClearMain,
        ops[1] == RasterOp::ClearLive,
        0 <= k < a.applied ==> ops[2 + k] == RasterOp::Stroke(a.stroke_order@[k]),
        0 <= k < a.wm_applied ==> ops[2 + a.applied + k] == RasterOp::Watermark(a.wm_order@[k]),
        a.live_since_ms is None,
        a.live_bb.void(),
        a.coverage.void(),
        a.shows_until(a.last_now_ms),
{
}

/// The order of drawing is that of the moments in which things appear.
pub proof fn law_drawing_order(a: Annotator, k: int, l: int)
    requires
        a.wf(),
        0 <= k < l < a.doc.strokes@.len(),
    ensures
        a.stroke_order@.len() == a.doc.strokes@.len(),
        a.doc.strokes@[a.stroke_order@[k] as int].appear_ms
            <= a.doc.strokes@[a.stroke_order@[l] as int].appear_ms,
        a.applied <= a.doc.strokes@.len(),
        a.wm_applied <= a.doc.watermarks@.len(),
{
    law_time_order(
        a.stroke_order@,
        stroke_times(a.doc.strokes@),
        a.doc.strokes@.len(),
        k,
        l,
    );
}

/// Time changes nothing of the document or of the size.
pub proof fn law_same_document(a: Annotator, b: Annotator)
    requires
        a.same_document(b),
    ensures
        a.doc == b.doc,
        a.stroke_order == b.stroke_order,
        a.wm_order == b.wm_order,
        a.w == b.w,
        a.h == b.h,
{
}

} // verus!
