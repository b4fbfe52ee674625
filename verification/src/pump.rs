//! The encode pump: what happens to a frame between capture and the encoder.
//!
//! Every backend delivers tight top-down BGRA frames here. The pump keeps the
//! encoder's canvas fixed, keeps the books, decides which cursor marks are drawn
//! and which pixels they touch, and which frames become previews. The shades of
//! the marks are the caller's.

use crate::encode;
use crate::encode::ffmpeg_encoder_name;
use crate::frame;
use crate::raster;
use crate::raster::BBox;
use crate::frame::adapt_frame;
use crate::types::{CursorFx, EncoderKind};
use vstd::prelude::*;

verus! {

/// A tight top-down BGRA frame for the encoder.
#[derive(Debug, Clone, PartialEq, Eq)]
pub struct RawFrame {
    pub w: u32,
    pub h: u32,
    pub bgra: Vec<u8>,
    /// Cursor position in frame pixels, where it is over the frame.
    pub cursor: Option<(i32, i32)>,
    /// A mouse button went down with this frame.
    pub clicked: bool,
}

/// Does the point lie in a frame of the given size?
pub open spec fn in_frame(p: (i32, i32), w: u32, h: u32) -> bool {
    0 <= p.0 < w && 0 <= p.1 < h
}

impl RawFrame {
    /// The bytes are those of the size, and the cursor lies in the frame.
    pub open spec fn wf(self) -> bool {
        &&& self.bgra@.len() == frame::size_of_frame(self.w as nat, self.h as nat)
        &&& self.w <= i32::MAX
        &&& self.h <= i32::MAX
        &&& self.cursor matches Some(p) ==> in_frame(p, self.w, self.h)
    }

    /// Are the bytes those of the size, and does the cursor lie in the frame?
    pub fn is_valid(&self) -> (r: bool)
        ensures
            r == self.wf(),
    {
        assert(self.w * self.h <= 0xffff_ffff * 0xffff_ffff) by (nonlinear_arith)
            requires
                self.w <= 0xffff_ffff,
                self.h <= 0xffff_ffff,
        ;
        let want: u128 = (self.w as u128) * (self.h as u128);
        let cursor_fits = match self.cursor {
            Some((x, y)) => 0 <= x && (x as i64) < self.w as i64 && 0 <= y && (y as i64)
                < self.h as i64,
            None => true,
        };
        self.bgra.len() as u128 == want * 4 && self.w <= 0x7fff_ffff && self.h <= 0x7fff_ffff
            && cursor_fits
    }
}

/// A preview for drawing windows: a frame as the encoder got it.
#[derive(Debug, Clone, PartialEq, Eq)]
pub struct PreviewFrame {
    pub w: u32,
    pub h: u32,
    pub bgra: Vec<u8>,
}

// ---------------------------------------------------------------------------
// The cursor
// ---------------------------------------------------------------------------

/// Where a virtual-screen point lies relative to the feed: to the window's
/// corner for windows, else to the feed's origin and its crop.
pub open spec fn relative(
    p: int,
    window: Option<i32>,
    origin: i32,
    crop: Option<u32>,
) -> int {
    match window {
        Some(corner) => p - corner,
        None => p - origin - (match crop {
            Some(c) => c as int,
            None => 0,
        }),
    }
}

/// A virtual-screen point in feed pixels, where it lies on the feed. No point is
/// further than an `i32` tells.
pub open spec fn cursor_in_feed(
    pt: (i32, i32),
    win_rect: Option<(i32, i32)>,
    origin: (i32, i32),
    crop: Option<(u32, u32, u32, u32)>,
    feed_w: u32,
    feed_h: u32,
) -> Option<(i32, i32)> {
    let fx = relative(
        pt.0 as int,
        match win_rect {
            Some(r) => Some(r.0),
            None => None,
        },
        origin.0,
        match crop {
            Some(c) => Some(c.0),
            None => None,
        },
    );
    let fy = relative(
        pt.1 as int,
        match win_rect {
            Some(r) => Some(r.1),
            None => None,
        },
        origin.1,
        match crop {
            Some(c) => Some(c.1),
            None => None,
        },
    );
    if 0 <= fx < feed_w && 0 <= fy < feed_h && fx <= i32::MAX && fy <= i32::MAX {
        Some((fx as i32, fy as i32))
    } else {
        None
    }
}

/// Maps a virtual-screen cursor point into feed pixels. Window targets use the
/// live window corner; screens and regions use the fixed origin and the crop
/// offset. `None` where the cursor is off the feed.
pub fn map_cursor_to_frame(
    pt: (i32, i32),
    win_rect: Option<(i32, i32)>,
    origin: (i32, i32),
    crop: Option<(u32, u32, u32, u32)>,
    feed_w: u32,
    feed_h: u32,
) -> (r: Option<(i32, i32)>)
    ensures
        r == cursor_in_feed(pt, win_rect, origin, crop, feed_w, feed_h),
        r matches Some(p) ==> in_frame(p, feed_w, feed_h),
{
    let (fx, fy): (i64, i64) = match win_rect {
        Some((left, top)) => (pt.0 as i64 - left as i64, pt.1 as i64 - top as i64),
        None => {
            let (cx, cy): (u32, u32) = match crop {
                Some((x, y, _, _)) => (x, y),
                None => (0, 0),
            };
            (
                pt.0 as i64 - origin.0 as i64 - cx as i64,
                pt.1 as i64 - origin.1 as i64 - cy as i64,
            )
        },
    };
    let last: i64 = i32::MAX as i64;
    if fx >= 0 && fy >= 0 && fx < feed_w as i64 && fy < feed_h as i64 && fx <= last && fy <= last {
        Some((fx as i32, fy as i32))
    } else {
        None
    }
}

/// The corner of the window that is recorded.
#[derive(Debug, Clone, Copy, PartialEq, Eq, Structural)]
pub enum WindowCorner {
    /// No window is recorded.
    NoWindow,
    /// The window could not be asked.
    Unknown,
    At(i32, i32),
}

/// The cursor of one frame, and whether a button went down on it.
///
/// `pt` is `None` where the position could not be read. Without a position, or
/// without the corner of the recorded window, the buttons are not looked at. A
/// button counts where it is down and was up; off the feed it does not.
pub fn sample_cursor(
    pt: Option<(i32, i32)>,
    corner: WindowCorner,
    origin: (i32, i32),
    crop: Option<(u32, u32, u32, u32)>,
    feed_w: u32,
    feed_h: u32,
    buttons: (bool, bool),
    prev: &mut (bool, bool),
) -> (r: (Option<(i32, i32)>, bool))
    ensures
        (pt is None || corner == WindowCorner::Unknown) ==> r == (None::<(i32, i32)>, false)
            && *final(prev) == *old(prev),
        corner != WindowCorner::Unknown ==> (pt matches Some(p) ==> {
            let win = match corner {
                WindowCorner::At(x, y) => Some((x, y)),
                _ => None,
            };
            &&& r.0 == cursor_in_feed(p, win, origin, crop, feed_w, feed_h)
            &&& r.1 == (r.0 is Some && ((buttons.0 && !old(prev).0) || (buttons.1 && !old(
                prev,
            ).1)))
            &&& *final(prev) == buttons
        }),
{
    let point = match pt {
        Some(p) => p,
        None => {
            return (None, false);
        },
    };
    let win = match corner {
        WindowCorner::NoWindow => None,
        WindowCorner::Unknown => {
            return (None, false);
        },
        WindowCorner::At(x, y) => Some((x, y)),
    };
    let cursor = map_cursor_to_frame(point, win, origin, crop, feed_w, feed_h);
    let edge = (buttons.0 && !prev.0) || (buttons.1 && !prev.1);
    *prev = buttons;
    (cursor, edge && cursor.is_some())
}

/// Does the crop rectangle lie in a frame of the given size?
pub fn crop_fits(crop: (u32, u32, u32, u32), frame_w: u32, frame_h: u32) -> (r: bool)
    ensures
        r == (crop.0 + crop.2 <= frame_w && crop.1 + crop.3 <= frame_h),
{
    crop.0 as u64 + crop.2 as u64 <= frame_w as u64 && crop.1 as u64 + crop.3 as u64
        <= frame_h as u64
}

/// Where a coordinate ends up when its frame is fitted onto the canvas.
pub open spec fn rebased(p: int, src: u32, dst: u32) -> int {
    let n = frame::common(src, dst);
    p - frame::centred(src, n) + frame::centred(dst, n)
}

fn rebase(p: i32, src: u32, dst: u32) -> (r: i32)
    requires
        0 <= p < src,
        src <= i32::MAX,
        dst <= i32::MAX,
    ensures
        r == rebased(p as int, src, dst),
{
    let n: u32 = if src <= dst {
        src
    } else {
        dst
    };
    let off: i64 = ((src - n) / 2) as i64;
    let on: i64 = ((dst - n) / 2) as i64;
    (p as i64 - off + on) as i32
}

/// The cursor stays on the picture: where a fitted frame still shows the pixel
/// under the cursor, the moved cursor points at that pixel.
pub proof fn law_cursor_follows_pixels(
    src: Seq<u8>,
    src_w: u32,
    src_h: u32,
    dst_w: u32,
    dst_h: u32,
    p: (i32, i32),
)
    requires
        src.len() == frame::size_of_frame(src_w as nat, src_h as nat),
        in_frame(p, src_w, src_h),
        0 <= rebased(p.0 as int, src_w, dst_w) < dst_w,
        0 <= rebased(p.1 as int, src_h, dst_h) < dst_h,
    ensures
        frame::pixel(
            frame::fitted(src, src_w, src_h, dst_w, dst_h),
            dst_w as nat,
            rebased(p.0 as int, src_w, dst_w),
            rebased(p.1 as int, src_h, dst_h),
        ) == frame::pixel(src, src_w as nat, p.0 as int, p.1 as int),
{
    frame::law_fit_pixels(
        src,
        src_w,
        src_h,
        dst_w,
        dst_h,
        rebased(p.0 as int, src_w, dst_w),
        rebased(p.1 as int, src_h, dst_h),
    );
}

// ---------------------------------------------------------------------------
// Marks
// ---------------------------------------------------------------------------

/// A click ripple: where and when it began, in milliseconds of the recording.
#[derive(Debug, Clone, Copy, PartialEq, Eq, Structural)]
pub struct Ripple {
    pub x: i32,
    pub y: i32,
    pub born_ms: u64,
}

/// How old a ripple is; a clock that lags counts as no age.
pub open spec fn age_of(r: Ripple, now_ms: u64) -> u64 {
    if now_ms >= r.born_ms {
        (now_ms - r.born_ms) as u64
    } else {
        0
    }
}

/// How many ripples are kept at most.
pub const MAX_RIPPLES: usize = 8;

/// The ripples that have not reached their lifetime, in order.
pub open spec fn alive(rs: Seq<Ripple>, now_ms: u64, life_ms: u32) -> Seq<Ripple>
    decreases rs.len(),
{
    if rs.len() == 0 {
        Seq::empty()
    } else if age_of(rs.last(), now_ms) < life_ms {
        alive(rs.drop_last(), now_ms, life_ms).push(rs.last())
    } else {
        alive(rs.drop_last(), now_ms, life_ms)
    }
}

/// The ripples after a click: the newest at the end, the oldest dropped where
/// there are too many.
pub open spec fn with_click(rs: Seq<Ripple>, r: Ripple) -> Seq<Ripple> {
    if rs.len() + 1 > MAX_RIPPLES {
        rs.push(r).skip(1)
    } else {
        rs.push(r)
    }
}

/// A ring to draw on the frame.
#[derive(Debug, Clone, Copy, PartialEq, Eq)]
pub struct Ring {
    pub x: i32,
    pub y: i32,
    pub rgba: [u8; 4],
    /// The age of a click ripple; `None` for the highlight ring.
    pub age_ms: Option<u64>,
    pub additive: bool,
}

/// Does the place lie on a frame of this size?
pub open spec fn on_frame(w: u32, h: u32, x: i32, y: i32) -> bool {
    0 <= x < w && 0 <= y < h
}

/// The rings of a frame of this size: the highlight first, then the ripples from
/// the oldest. A ring whose centre is off the frame is not drawn.
pub open spec fn rings(
    fx: CursorFx,
    cursor: Option<(i32, i32)>,
    rs: Seq<Ripple>,
    now_ms: u64,
    w: u32,
    h: u32,
) -> Seq<Ring> {
    let highlight = match cursor {
        Some((x, y)) if fx.highlight && on_frame(w, h, x, y) => seq![
            Ring {
                x,
                y,
                rgba: fx.style.hl_rgba,
                age_ms: None,
                additive: fx.style.additive,
            },
        ],
        _ => Seq::empty(),
    };
    let ripples = if fx.ripple {
        ripple_rings(fx, rs, now_ms, w, h)
    } else {
        Seq::empty()
    };
    highlight + ripples
}

/// The rings of the ripples whose centre is on the frame, in order.
pub open spec fn ripple_rings(
    fx: CursorFx,
    rs: Seq<Ripple>,
    now_ms: u64,
    w: u32,
    h: u32,
) -> Seq<Ring>
    decreases rs.len(),
{
    if rs.len() == 0 {
        Seq::empty()
    } else {
        let before = ripple_rings(fx, rs.drop_last(), now_ms, w, h);
        if on_frame(w, h, rs.last().x, rs.last().y) {
            before.push(ripple_ring(fx, rs.last(), now_ms))
        } else {
            before
        }
    }
}

fn is_on_frame(w: u32, h: u32, x: i32, y: i32) -> (r: bool)
    ensures
        r == on_frame(w, h, x, y),
{
    0 <= x && (x as i64) < w as i64 && 0 <= y && (y as i64) < h as i64
}

/// The ring of a ripple.
pub open spec fn ripple_ring(fx: CursorFx, r: Ripple, now_ms: u64) -> Ring {
    Ring {
        x: r.x,
        y: r.y,
        rgba: fx.style.ripple_rgba,
        age_ms: Some(age_of(r, now_ms)),
        additive: fx.style.additive,
    }
}

/// The opacity of a ripple that has faded: its colour's own, scaled down.
pub fn ring_alpha(fade: u8, base: u8) -> (r: u8)
    ensures
        r == (fade as int * base as int) / 255,
{
    assert(fade * base <= 255 * 255) by (nonlinear_arith)
        requires
            fade <= 255,
            base <= 255,
    ;
    ((fade as u16 * base as u16) / 255) as u8
}

/// The pixels of an edge of `n` from `at - reach` to `at + reach`: the first, and
/// the one behind the last.
pub open spec fn span(at: i32, reach: u32, n: u32) -> (int, int) {
    (
        if at < reach {
            0
        } else {
            at - reach
        },
        if at + reach + 1 < n {
            at + reach + 1
        } else {
            n as int
        },
    )
}

/// The pixels of a frame that a ring may touch: those no further than `reach` from
/// the centre, across and along, and none where the centre is off the frame.
pub open spec fn ring_area(w: u32, h: u32, cx: i32, cy: i32, reach: u32) -> BBox {
    if on_frame(w, h, cx, cy) {
        BBox {
            x0: span(cx, reach, w).0 as i32,
            y0: span(cy, reach, h).0 as i32,
            x1: span(cx, reach, w).1 as i32,
            y1: span(cy, reach, h).1 as i32,
        }
    } else {
        BBox { x0: 0, y0: 0, x1: 0, y1: 0 }
    }
}

/// The colours of a pixel: blue, green and red.
pub open spec fn colours(frame: Seq<u8>, w: u32, x: int, y: int) -> (u8, u8, u8) {
    (
        frame[raster::byte_at(w, x, y, 0)],
        frame[raster::byte_at(w, x, y, 1)],
        frame[raster::byte_at(w, x, y, 2)],
    )
}

/// Is the pixel at (x, y) what shading an area makes of it? In the area its colours
/// come from its place relative to the centre and its colours before; its fourth
/// byte stays, and so do all other pixels.
pub open spec fn shaded<F: Fn(i32, i32, (u8, u8, u8)) -> (u8, u8, u8)>(
    shade: F,
    before: Seq<u8>,
    after: Seq<u8>,
    w: u32,
    centre: (i32, i32),
    area: BBox,
    x: int,
    y: int,
) -> bool {
    &&& after[raster::byte_at(w, x, y, 3)] == before[raster::byte_at(w, x, y, 3)]
    &&& if area.has(x, y) {
        call_ensures(
            shade,
            ((x - centre.0) as i32, (y - centre.1) as i32, colours(before, w, x, y)),
            colours(after, w, x, y),
        )
    } else {
        colours(after, w, x, y) == colours(before, w, x, y)
    }
}

/// Is all of the frame what shading an area makes of it?
pub open spec fn all_shaded<F: Fn(i32, i32, (u8, u8, u8)) -> (u8, u8, u8)>(
    shade: F,
    before: Seq<u8>,
    after: Seq<u8>,
    w: u32,
    h: u32,
    centre: (i32, i32),
    area: BBox,
) -> bool {
    &&& after.len() == before.len()
    &&& forall|x: int, y: int|
        0 <= x < w && 0 <= y < h ==> #[trigger] shaded(
            shade,
            before,
            after,
            w,
            centre,
            area,
            x,
            y,
        )
}

/// Shading one area and then another one beside it is shading both.
proof fn lemma_shaded_on<F: Fn(i32, i32, (u8, u8, u8)) -> (u8, u8, u8)>(
    shade: F,
    a: Seq<u8>,
    b: Seq<u8>,
    c: Seq<u8>,
    w: u32,
    h: u32,
    centre: (i32, i32),
    one: BBox,
    other: BBox,
    both: BBox,
)
    requires
        all_shaded(shade, a, b, w, h, centre, one),
        all_shaded(shade, b, c, w, h, centre, other),
        forall|x: int, y: int| #[trigger]
            both.has(x, y) <==> one.has(x, y) || other.has(x, y),
        forall|x: int, y: int| !(#[trigger] one.has(x, y) && other.has(x, y)),
    ensures
        all_shaded(shade, a, c, w, h, centre, both),
{
    assert forall|x: int, y: int| 0 <= x < w && 0 <= y < h implies #[trigger] shaded(
        shade,
        a,
        c,
        w,
        centre,
        both,
        x,
        y,
    ) by {
        assert(shaded(shade, a, b, w, centre, one, x, y));
        assert(shaded(shade, b, c, w, centre, other, x, y));
        assert(both.has(x, y) <==> one.has(x, y) || other.has(x, y));
        assert(!(one.has(x, y) && other.has(x, y)));
    }
}

fn shade_pixel<F: Fn(i32, i32, (u8, u8, u8)) -> (u8, u8, u8)>(
    frame: &mut [u8],
    w: u32,
    h: u32,
    centre: (i32, i32),
    x: u32,
    y: u32,
    shade: &F,
)
    requires
        x < w <= i32::MAX,
        y < h <= i32::MAX,
        on_frame(w, h, centre.0, centre.1),
        old(frame)@.len() == frame::size_of_frame(w as nat, h as nat),
        forall|a: i32, b: i32, c: (u8, u8, u8)| call_requires(*shade, (a, b, c)),
    ensures
        all_shaded(
            *shade,
            old(frame)@,
            final(frame)@,
            w,
            h,
            centre,
            (BBox { x0: x as i32, y0: y as i32, x1: (x + 1) as i32, y1: (y + 1) as i32 }),
        ),
{
    proof {
        raster::lemma_byte_inside(w, h, x as int, y as int, 0);
        raster::lemma_byte_inside(w, h, x as int, y as int, 3);
    }
    let ghost start = frame@;
    let total: usize = frame.len();
    assert(raster::byte_at(w, x as int, y as int, 3) < total);
    let i: usize = (y as usize * w as usize + x as usize) * 4;
    let (b, g, r) = shade(
        x as i32 - centre.0,
        y as i32 - centre.1,
        (frame[i], frame[i + 1], frame[i + 2]),
    );
    frame[i] = b;
    frame[i + 1] = g;
    frame[i + 2] = r;
    proof {
        let area = BBox { x0: x as i32, y0: y as i32, x1: (x + 1) as i32, y1: (y + 1) as i32 };
        assert forall|u: int, v: int| 0 <= u < w && 0 <= v < h implies #[trigger] shaded(
            *shade,
            start,
            frame@,
            w,
            centre,
            area,
            u,
            v,
        ) by {
            raster::lemma_byte_inside(w, h, u, v, 0);
            raster::lemma_byte_inside(w, h, u, v, 3);
            let k = raster::byte_at(w, u, v, 0);
            if u != x || v != y {
                if k == i {
                    raster::lemma_byte_apart(w, u, v, 0, x as int, y as int, 0);
                }
                assert(k + 4 <= i || i + 4 <= k);
            }
        }
    }
}

fn shade_row<F: Fn(i32, i32, (u8, u8, u8)) -> (u8, u8, u8)>(
    frame: &mut [u8],
    w: u32,
    h: u32,
    centre: (i32, i32),
    y: u32,
    x0: u32,
    x1: u32,
    shade: &F,
)
    requires
        x0 <= x1 <= w <= i32::MAX,
        y < h <= i32::MAX,
        on_frame(w, h, centre.0, centre.1),
        old(frame)@.len() == frame::size_of_frame(w as nat, h as nat),
        forall|a: i32, b: i32, c: (u8, u8, u8)| call_requires(*shade, (a, b, c)),
    ensures
        all_shaded(
            *shade,
            old(frame)@,
            final(frame)@,
            w,
            h,
            centre,
            (BBox { x0: x0 as i32, y0: y as i32, x1: x1 as i32, y1: (y + 1) as i32 }),
        ),
{
    let ghost start = frame@;
    let mut x: u32 = x0;
    while x < x1
        invariant
            x0 <= x <= x1 <= w <= i32::MAX,
            y < h <= i32::MAX,
            on_frame(w, h, centre.0, centre.1),
            start.len() == frame::size_of_frame(w as nat, h as nat),
            forall|a: i32, b: i32, c: (u8, u8, u8)| call_requires(*shade, (a, b, c)),
            all_shaded(
                *shade,
                start,
                frame@,
                w,
                h,
                centre,
                (BBox { x0: x0 as i32, y0: y as i32, x1: x as i32, y1: (y + 1) as i32 }),
            ),
        decreases x1 - x,
    {
        let ghost before = frame@;
        shade_pixel(frame, w, h, centre, x, y, shade);
        proof {
            lemma_shaded_on(
                *shade,
                start,
                before,
                frame@,
                w,
                h,
                centre,
                BBox { x0: x0 as i32, y0: y as i32, x1: x as i32, y1: (y + 1) as i32 },
                BBox { x0: x as i32, y0: y as i32, x1: (x + 1) as i32, y1: (y + 1) as i32 },
                BBox { x0: x0 as i32, y0: y as i32, x1: (x + 1) as i32, y1: (y + 1) as i32 },
            );
        }
        x += 1;
    }
}

fn span_on(at: i32, reach: u32, n: u32) -> (r: (u32, u32))
    requires
        0 <= at < n,
    ensures
        (r.0 as int, r.1 as int) == span(at, reach, n),
        r.0 < r.1 <= n,
{
    let from: u32 = (at as u32).saturating_sub(reach);
    let behind: u64 = at as u64 + reach as u64 + 1;
    let to: u32 = if behind < n as u64 {
        behind as u32
    } else {
        n
    };
    (from, to)
}

/// Draws a ring onto a BGRA frame: every pixel no further than `reach` from the
/// centre is shaded, so that a ring at an edge of the frame is cut off there. A ring
/// whose centre is off the frame is not drawn. `shade` gives the colours of a pixel
/// from its place relative to the centre and the colours that it has.
pub fn blend_ring<F: Fn(i32, i32, (u8, u8, u8)) -> (u8, u8, u8)>(
    frame: &mut [u8],
    w: u32,
    h: u32,
    centre: (i32, i32),
    reach: u32,
    shade: F,
)
    requires
        w <= i32::MAX,
        h <= i32::MAX,
        old(frame)@.len() == frame::size_of_frame(w as nat, h as nat),
        forall|a: i32, b: i32, c: (u8, u8, u8)| call_requires(shade, (a, b, c)),
    ensures
        all_shaded(
            shade,
            old(frame)@,
            final(frame)@,
            w,
            h,
            centre,
            ring_area(w, h, centre.0, centre.1, reach),
        ),
        !on_frame(w, h, centre.0, centre.1) ==> final(frame)@ == old(frame)@,
{
    if !is_on_frame(w, h, centre.0, centre.1) {
        return;
    }
    let ghost start = frame@;
    let (x0, x1) = span_on(centre.0, reach, w);
    let (y0, y1) = span_on(centre.1, reach, h);
    let mut y: u32 = y0;
    while y < y1
        invariant
            x0 < x1 <= w <= i32::MAX,
            y0 <= y <= y1 <= h <= i32::MAX,
            on_frame(w, h, centre.0, centre.1),
            start.len() == frame::size_of_frame(w as nat, h as nat),
            forall|a: i32, b: i32, c: (u8, u8, u8)| call_requires(shade, (a, b, c)),
            all_shaded(
                shade,
                start,
                frame@,
                w,
                h,
                centre,
                (BBox { x0: x0 as i32, y0: y0 as i32, x1: x1 as i32, y1: y as i32 }),
            ),
        decreases y1 - y,
    {
        let ghost before = frame@;
        shade_row(frame, w, h, centre, y, x0, x1, &shade);
        proof {
            lemma_shaded_on(
                shade,
                start,
                before,
                frame@,
                w,
                h,
                centre,
                BBox { x0: x0 as i32, y0: y0 as i32, x1: x1 as i32, y1: y as i32 },
                BBox { x0: x0 as i32, y0: y as i32, x1: x1 as i32, y1: (y + 1) as i32 },
                BBox { x0: x0 as i32, y0: y0 as i32, x1: x1 as i32, y1: (y + 1) as i32 },
            );
        }
        y += 1;
    }
}

// ---------------------------------------------------------------------------
// The pump
// ---------------------------------------------------------------------------

/// What a recording amounted to.
#[derive(Debug, Clone, Copy, PartialEq, Eq, Structural)]
pub struct FfmpegStats {
    /// Frames handed to the encoder.
    pub written: u64,
    /// Frames that arrived at another size than the canvas and were fitted.
    pub skipped: u64,
    /// Frames that carried annotation pixels.
    pub annotated_frames: u64,
}

/// Every how many frames a preview is made: about five a second.
pub open spec fn preview_interval(fps: u32) -> u64 {
    if fps / 5 == 0 {
        1
    } else {
        (fps / 5) as u64
    }
}

/// Every how many frames a preview is made.
pub fn preview_every(fps: u32) -> (r: u64)
    ensures
        r == preview_interval(fps),
        r > 0,
{
    if fps / 5 == 0 {
        1
    } else {
        (fps / 5) as u64
    }
}

/// The state of the pump between two frames.
pub struct Pump {
    pub native_w: u32,
    pub native_h: u32,
    pub cursor_fx: Option<CursorFx>,
    /// Zero where no previews are made.
    pub preview_every: u64,
    pub stats: FfmpegStats,
    pub ripples: Vec<Ripple>,
}

impl Pump {
    pub open spec fn wf(self) -> bool {
        &&& self.native_w <= i32::MAX
        &&& self.native_h <= i32::MAX
        &&& frame::size_of_frame(self.native_w as nat, self.native_h as nat) <= usize::MAX
        &&& self.ripples@.len() <= MAX_RIPPLES
    }

    /// A pump for a feed of the given size, with nothing done yet.
    pub fn new(
        native_w: u32,
        native_h: u32,
        cursor_fx: Option<CursorFx>,
        preview_every: u64,
    ) -> (r: Self)
        requires
            native_w <= i32::MAX,
            native_h <= i32::MAX,
            frame::size_of_frame(native_w as nat, native_h as nat) <= usize::MAX,
        ensures
            r.wf(),
            r.native_w == native_w,
            r.native_h == native_h,
            r.cursor_fx == cursor_fx,
            r.preview_every == preview_every,
            r.stats == (FfmpegStats { written: 0, skipped: 0, annotated_frames: 0 }),
            r.ripples@.len() == 0,
    {
        Self {
            native_w,
            native_h,
            cursor_fx,
            preview_every,
            stats: FfmpegStats { written: 0, skipped: 0, annotated_frames: 0 },
            ripples: Vec::new(),
        }
    }

    /// Brings a frame to the canvas size: never dropped, never a new encoder.
    /// The cursor moves with the picture. The flag asks for a message, which the
    /// first three odd frames get.
    pub fn fit(&mut self, f: RawFrame) -> (r: (RawFrame, bool))
        requires
            old(self).wf(),
            f.wf(),
            old(self).stats.skipped < u64::MAX,
        ensures
            final(self).wf(),
            ({
                let odd = f.w != old(self).native_w || f.h != old(self).native_h;
                &&& r.0.w == old(self).native_w
                &&& r.0.h == old(self).native_h
                &&& r.0.bgra@ == frame::fitted(
                    f.bgra@,
                    f.w,
                    f.h,
                    old(self).native_w,
                    old(self).native_h,
                )
                &&& r.0.bgra@.len() == frame::size_of_frame(
                    old(self).native_w as nat,
                    old(self).native_h as nat,
                )
                &&& r.0.clicked == f.clicked
                &&& match (f.cursor, r.0.cursor) {
                    (Some(p), Some(q)) => q.0 == rebased(p.0 as int, f.w, old(self).native_w) && q.1
                        == rebased(p.1 as int, f.h, old(self).native_h),
                    (None, None) => true,
                    _ => false,
                }
                &&& final(self).stats.skipped == old(self).stats.skipped + (if odd {
                    1int
                } else {
                    0
                })
                &&& r.1 == (odd && final(self).stats.skipped <= 3)
            }),
            final(self).stats.written == old(self).stats.written,
            final(self).stats.annotated_frames == old(self).stats.annotated_frames,
            final(self).ripples == old(self).ripples,
            final(self).native_w == old(self).native_w,
            final(self).native_h == old(self).native_h,
            final(self).cursor_fx == old(self).cursor_fx,
            final(self).preview_every == old(self).preview_every,
    {
        if f.w == self.native_w && f.h == self.native_h {
            proof {
                frame::law_fit_same_size(f.bgra@, f.w, f.h);
            }
            return (f, false);
        }
        self.stats.skipped = self.stats.skipped + 1;
        let cursor = match f.cursor {
            Some((x, y)) => Some(
                (rebase(x, f.w, self.native_w), rebase(y, f.h, self.native_h)),
            ),
            None => None,
        };
        let bgra = adapt_frame(f.w, f.h, f.bgra.as_slice(), self.native_w, self.native_h);
        (
            RawFrame { w: self.native_w, h: self.native_h, bgra, cursor, clicked: f.clicked },
            self.stats.skipped <= 3,
        )
    }

    /// Books whether annotations touched a frame.
    pub fn note_annotated(&mut self, touched: bool)
        requires
            old(self).wf(),
            old(self).stats.annotated_frames < u64::MAX,
        ensures
            final(self).wf(),
            final(self).stats.annotated_frames == old(self).stats.annotated_frames + (if touched {
                1int
            } else {
                0
            }),
            final(self).stats.written == old(self).stats.written,
            final(self).stats.skipped == old(self).stats.skipped,
            final(self).ripples == old(self).ripples,
            final(self).native_w == old(self).native_w,
            final(self).native_h == old(self).native_h,
            final(self).cursor_fx == old(self).cursor_fx,
            final(self).preview_every == old(self).preview_every,
    {
        if touched {
            self.stats.annotated_frames = self.stats.annotated_frames + 1;
        }
    }

    /// The rings to draw on a frame, on top of everything else. A click begins a
    /// ripple, and ripples past their lifetime go. A ring whose centre is off the
    /// canvas is left out.
    pub fn cursor_rings(
        &mut self,
        cursor: Option<(i32, i32)>,
        clicked: bool,
        now_ms: u64,
    ) -> (r: Vec<Ring>)
        requires
            old(self).wf(),
        ensures
            final(self).wf(),
            match old(self).cursor_fx {
                None => r@.len() == 0 && final(self).ripples@ == old(self).ripples@,
                Some(fx) => {
                    let after_click = match cursor {
                        Some((x, y)) if clicked => with_click(
                            old(self).ripples@,
                            Ripple { x, y, born_ms: now_ms },
                        ),
                        _ => old(self).ripples@,
                    };
                    let kept = alive(after_click, now_ms, fx.style.ripple_ms);
                    final(self).ripples@ == kept && r@ == rings(
                        fx,
                        cursor,
                        kept,
                        now_ms,
                        old(self).native_w,
                        old(self).native_h,
                    )
                },
            },
            final(self).stats == old(self).stats,
            final(self).native_w == old(self).native_w,
            final(self).native_h == old(self).native_h,
            final(self).cursor_fx == old(self).cursor_fx,
            final(self).preview_every == old(self).preview_every,
    {
        let mut out: Vec<Ring> = Vec::new();
        let fx = match self.cursor_fx {
            Some(fx) => fx,
            None => {
                return out;
            },
        };
        if clicked {
            if let Some((x, y)) = cursor {
                self.ripples.push(Ripple { x, y, born_ms: now_ms });
                if self.ripples.len() > MAX_RIPPLES {
                    let ghost full = self.ripples@;
                    self.ripples.remove(0);
                    assert(self.ripples@ =~= full.skip(1));
                }
            }
        }
        let ghost after_click = self.ripples@;
        proof {
            lemma_alive_len(after_click, now_ms, fx.style.ripple_ms);
        }
        self.ripples = keep_alive(&self.ripples, now_ms, fx.style.ripple_ms);
        let ghost kept = self.ripples@;
        let w = self.native_w;
        let h = self.native_h;
        if fx.highlight {
            if let Some((x, y)) = cursor {
                if is_on_frame(w, h, x, y) {
                    out.push(
                        Ring {
                            x,
                            y,
                            rgba: fx.style.hl_rgba,
                            age_ms: None,
                            additive: fx.style.additive,
                        },
                    );
                }
            }
        }
        let ghost head = out@;
        if fx.ripple {
            let mut i: usize = 0;
            while i < self.ripples.len()
                invariant
                    i <= self.ripples@.len(),
                    self.ripples@ == kept,
                    out@ == head + ripple_rings(fx, kept.take(i as int), now_ms, w, h),
                decreases self.ripples@.len() - i,
            {
                let r = self.ripples[i];
                assert(kept.take(i + 1).drop_last() == kept.take(i as int));
                if is_on_frame(w, h, r.x, r.y) {
                    out.push(
                        Ring {
                            x: r.x,
                            y: r.y,
                            rgba: fx.style.ripple_rgba,
                            age_ms: Some(now_ms.saturating_sub(r.born_ms)),
                            additive: fx.style.additive,
                        },
                    );
                }
                i += 1;
                assert(out@ =~= head + ripple_rings(fx, kept.take(i as int), now_ms, w, h));
            }
            assert(kept.take(kept.len() as int) =~= kept);
        }
        assert(out@ =~= rings(fx, cursor, kept, now_ms, w, h));
        out
    }

    /// Books a frame that the encoder took. True where a preview of it is due.
    pub fn note_written(&mut self) -> (preview: bool)
        requires
            old(self).wf(),
            old(self).stats.written < u64::MAX,
        ensures
            final(self).wf(),
            final(self).stats.written == old(self).stats.written + 1,
            final(self).stats.skipped == old(self).stats.skipped,
            final(self).stats.annotated_frames == old(self).stats.annotated_frames,
            preview == (old(self).preview_every > 0 && final(self).stats.written
                % old(self).preview_every == 0),
            final(self).ripples == old(self).ripples,
            final(self).native_w == old(self).native_w,
            final(self).native_h == old(self).native_h,
            final(self).cursor_fx == old(self).cursor_fx,
            final(self).preview_every == old(self).preview_every,
    {
        self.stats.written = self.stats.written + 1;
        self.preview_every > 0 && self.stats.written % self.preview_every == 0
    }
}

proof fn lemma_alive_len(rs: Seq<Ripple>, now_ms: u64, life_ms: u32)
    ensures
        alive(rs, now_ms, life_ms).len() <= rs.len(),
    decreases rs.len(),
{
    if rs.len() > 0 {
        lemma_alive_len(rs.drop_last(), now_ms, life_ms);
    }
}

fn keep_alive(rs: &Vec<Ripple>, now_ms: u64, life_ms: u32) -> (out: Vec<Ripple>)
    ensures
        out@ == alive(rs@, now_ms, life_ms),
{
    let mut out: Vec<Ripple> = Vec::new();
    let mut i: usize = 0;
    while i < rs.len()
        invariant
            i <= rs@.len(),
            out@ == alive(rs@.take(i as int), now_ms, life_ms),
        decreases rs@.len() - i,
    {
        let r = rs[i];
        assert(rs@.take(i + 1).drop_last() == rs@.take(i as int));
        if now_ms.saturating_sub(r.born_ms) < life_ms as u64 {
            out.push(r);
        }
        i += 1;
    }
    assert(rs@.take(rs@.len() as int) == rs@);
    out
}

/// A ripple that is drawn has not reached its lifetime, so that a lifetime of
/// zero shows none.
pub proof fn law_drawn_ripples_live(rs: Seq<Ripple>, now_ms: u64, life_ms: u32)
    ensures
        forall|i: int|
            0 <= i < alive(rs, now_ms, life_ms).len() ==> age_of(
                #[trigger] alive(rs, now_ms, life_ms)[i],
                now_ms,
            ) < life_ms,
        life_ms == 0 ==> alive(rs, now_ms, life_ms).len() == 0,
    decreases rs.len(),
{
    if rs.len() > 0 {
        law_drawn_ripples_live(rs.drop_last(), now_ms, life_ms);
        let head = alive(rs.drop_last(), now_ms, life_ms);
        let all = alive(rs, now_ms, life_ms);
        assert forall|i: int| 0 <= i < all.len() implies age_of(#[trigger] all[i], now_ms)
            < life_ms by {
            if i < head.len() {
                assert(all[i] == head[i]);
            }
        }
    }
}

/// The ffmpeg name of an encoder, for messages.
pub fn encoder_name(kind: EncoderKind) -> (r: &'static str)
    ensures
        r@ == encode::encoder_name_of(kind, kind),
{
    ffmpeg_encoder_name(kind, kind)
}

// ---------------------------------------------------------------------------
// What holds on every input
// ---------------------------------------------------------------------------

/// On a window, a point of the screen is as far from the cursor's place in the feed
/// as the window's corner is from the origin, whatever the monitor and the crop are.
pub proof fn law_cursor_on_a_window(
    q: (i32, i32),
    pt: (i32, i32),
    corner: (i32, i32),
    origin: (i32, i32),
    crop: Option<(u32, u32, u32, u32)>,
    w: u32,
    h: u32,
)
    ensures
        cursor_in_feed(pt, Some(corner), origin, crop, w, h) == Some(q) <==> 0 <= q.0 < w && 0
            <= q.1 < h && pt.0 == corner.0 + q.0 && pt.1 == corner.1 + q.1,
{
}

/// On a monitor, the cursor's place counts from the monitor's corner, and from that
/// of the region where one is recorded. A point off the feed has no place.
pub proof fn law_cursor_on_a_monitor(
    q: (i32, i32),
    pt: (i32, i32),
    origin: (i32, i32),
    crop: (u32, u32, u32, u32),
    w: u32,
    h: u32,
)
    ensures
        cursor_in_feed(pt, None, origin, None, w, h) == Some(q) <==> 0 <= q.0 < w && 0 <= q.1 < h
            && pt.0 == origin.0 + q.0 && pt.1 == origin.1 + q.1,
        cursor_in_feed(pt, None, origin, Some(crop), w, h) == Some(q) <==> 0 <= q.0 < w && 0
            <= q.1 < h && pt.0 == origin.0 + crop.0 + q.0 && pt.1 == origin.1 + crop.1 + q.1,
{
}

/// A coordinate moves by what its frame is moved: let the part that both sizes have
/// room for begin at `cut` of the source and at `put` of the canvas, each time in the
/// middle but for an odd pixel.
pub proof fn law_cursor_moves_with_the_picture(p: int, src: u32, dst: u32, n: int, cut: int, put: int)
    requires
        n <= src && n <= dst && (n == src || n == dst),
        0 <= src - n - 2 * cut <= 1,
        0 <= dst - n - 2 * put <= 1,
    ensures
        rebased(p, src, dst) == p - cut + put,
        rebased(p + 1, src, dst) == rebased(p, src, dst) + 1,
{
}

/// A ripple gets older with the clock, and has no age before it was born.
pub proof fn law_ripples_age(r: Ripple, now_ms: u64)
    ensures
        now_ms >= r.born_ms ==> r.born_ms + age_of(r, now_ms) == now_ms,
        now_ms < r.born_ms ==> age_of(r, now_ms) == 0,
{
}

/// Whether a ripple stays does not depend on the others, and those that stay keep
/// their order.
pub proof fn law_each_ripple_by_itself(a: Seq<Ripple>, b: Seq<Ripple>, now_ms: u64, life_ms: u32)
    ensures
        alive(a + b, now_ms, life_ms) == alive(a, now_ms, life_ms) + alive(b, now_ms, life_ms),
    decreases b.len(),
{
    if b.len() == 0 {
        assert(a + b =~= a);
        assert(alive(b, now_ms, life_ms) =~= Seq::empty());
        assert(alive(a, now_ms, life_ms) + Seq::<Ripple>::empty() =~= alive(a, now_ms, life_ms));
    } else {
        law_each_ripple_by_itself(a, b.drop_last(), now_ms, life_ms);
        assert((a + b).drop_last() =~= a + b.drop_last());
        assert((a + b).last() == b.last());
        assert(alive(a + b, now_ms, life_ms) =~= alive(a, now_ms, life_ms) + alive(
            b,
            now_ms,
            life_ms,
        ));
    }
}

/// A ripple stays while it is younger than the lifetime, and goes when it reaches it.
pub proof fn law_one_ripple(r: Ripple, now_ms: u64, life_ms: u32)
    ensures
        now_ms < r.born_ms + life_ms && life_ms > 0 ==> alive(seq![r], now_ms, life_ms) == seq![r],
        now_ms >= r.born_ms + life_ms ==> alive(seq![r], now_ms, life_ms).len() == 0,
{
    assert(seq![r].drop_last() =~= Seq::<Ripple>::empty());
    assert(alive(Seq::<Ripple>::empty(), now_ms, life_ms) =~= Seq::empty());
    assert(Seq::<Ripple>::empty().push(r) =~= seq![r]);
}

/// A click is the newest ripple. Eight are kept, and the oldest makes room.
pub proof fn law_click_is_newest(rs: Seq<Ripple>, r: Ripple, i: int)
    requires
        rs.len() <= 8,
    ensures
        with_click(rs, r).len() == (if rs.len() < 8 {
            rs.len() + 1
        } else {
            8
        }),
        with_click(rs, r)[with_click(rs, r).len() - 1] == r,
        1 <= i < with_click(rs, r).len() ==> with_click(rs, r)[with_click(rs, r).len() - 1 - i]
            == rs[rs.len() - i],
{
}

/// The cursor is marked where the highlight is on and the cursor is on the frame, in
/// the highlight's colour; with both effects off nothing is drawn.
pub proof fn law_highlight_is_at_the_cursor(
    fx: CursorFx,
    at: (i32, i32),
    known: bool,
    rs: Seq<Ripple>,
    now_ms: u64,
    w: u32,
    h: u32,
)
    ensures
        ({
            let cursor = if known {
                Some(at)
            } else {
                None
            };
            let marked = fx.highlight && known && 0 <= at.0 < w && 0 <= at.1 < h;
            let all = rings(fx, cursor, rs, now_ms, w, h);
            &&& marked ==> all.len() > 0 && all[0] == (Ring {
                x: at.0,
                y: at.1,
                rgba: fx.style.hl_rgba,
                age_ms: None,
                additive: fx.style.additive,
            })
            &&& !fx.ripple ==> all.len() == (if marked {
                1nat
            } else {
                0
            })
            &&& !marked && fx.ripple ==> all == ripple_rings(fx, rs, now_ms, w, h)
            &&& marked && fx.ripple ==> all.skip(1) == ripple_rings(fx, rs, now_ms, w, h)
        }),
{
    let cursor = if known {
        Some(at)
    } else {
        None
    };
    let all = rings(fx, cursor, rs, now_ms, w, h);
    assert(Seq::<Ring>::empty() + ripple_rings(fx, rs, now_ms, w, h) =~= ripple_rings(
        fx,
        rs,
        now_ms,
        w,
        h,
    ));
    if all.len() > 0 {
        assert(all.skip(1) =~= all.subrange(1, all.len() as int));
        assert(fx.ripple && all.len() == ripple_rings(fx, rs, now_ms, w, h).len() + 1
            ==> all.skip(1) =~= ripple_rings(fx, rs, now_ms, w, h));
    }
}

/// Each ripple on the frame is drawn where it was clicked, in the ripples' colour and
/// at its age, in the order of the clicks; one off the frame is not drawn.
pub proof fn law_ripples_are_at_their_clicks(
    fx: CursorFx,
    rs: Seq<Ripple>,
    r: Ripple,
    now_ms: u64,
    w: u32,
    h: u32,
)
    requires
        now_ms >= r.born_ms,
    ensures
        ripple_rings(fx, Seq::empty(), now_ms, w, h).len() == 0,
        0 <= r.x < w && 0 <= r.y < h ==> ripple_rings(fx, rs.push(r), now_ms, w, h)
            == ripple_rings(fx, rs, now_ms, w, h).push(
            Ring {
                x: r.x,
                y: r.y,
                rgba: fx.style.ripple_rgba,
                age_ms: Some((now_ms - r.born_ms) as u64),
                additive: fx.style.additive,
            },
        ),
        !(0 <= r.x < w && 0 <= r.y < h) ==> ripple_rings(fx, rs.push(r), now_ms, w, h)
            == ripple_rings(fx, rs, now_ms, w, h),
{
    assert(rs.push(r).drop_last() =~= rs);
}

/// A ring touches the pixels of the frame that are no further from its centre than
/// its reach, along either axis.
pub proof fn law_ring_reaches(w: u32, h: u32, cx: i32, cy: i32, reach: u32, x: int, y: int)
    requires
        w <= i32::MAX,
        h <= i32::MAX,
        0 <= cx < w,
        0 <= cy < h,
        0 <= x < w,
        0 <= y < h,
    ensures
        ring_area(w, h, cx, cy, reach).has(x, y) <==> -reach <= x - cx <= reach && -reach <= y - cy
            <= reach,
{
}

/// A ring whose centre is off the frame touches nothing.
pub proof fn law_ring_off_the_frame(w: u32, h: u32, cx: i32, cy: i32, reach: u32)
    requires
        !(0 <= cx < w && 0 <= cy < h),
    ensures
        ring_area(w, h, cx, cy, reach).void(),
{
}

/// Shading sees a pixel by its distance from the centre and by its blue, green and
/// red, and leaves the fourth byte and everything out of the area alone.
pub proof fn law_shading_of_a_pixel<F: Fn(i32, i32, (u8, u8, u8)) -> (u8, u8, u8)>(
    shade: F,
    before: Seq<u8>,
    after: Seq<u8>,
    w: u32,
    h: u32,
    centre: (i32, i32),
    area: BBox,
    x: int,
    y: int,
)
    requires
        all_shaded(shade, before, after, w, h, centre, area),
        0 <= x < w,
        0 <= y < h,
    ensures
        ({
            let i = (y * w + x) * 4;
            &&& after.len() == before.len()
            &&& after[i + 3] == before[i + 3]
            &&& area.has(x, y) ==> call_ensures(
                shade,
                (
                    (x - centre.0) as i32,
                    (y - centre.1) as i32,
                    (before[i], before[i + 1], before[i + 2]),
                ),
                (after[i], after[i + 1], after[i + 2]),
            )
            &&& !area.has(x, y) ==> after[i] == before[i] && after[i + 1] == before[i + 1]
                && after[i + 2] == before[i + 2]
        }),
{
    assert(shaded(shade, before, after, w, centre, area, x, y));
    assert(raster::byte_at(w, x, y, 0) == (y * w + x) * 4);
    assert(raster::byte_at(w, x, y, 1) == (y * w + x) * 4 + 1);
    assert(raster::byte_at(w, x, y, 2) == (y * w + x) * 4 + 2);
    assert(raster::byte_at(w, x, y, 3) == (y * w + x) * 4 + 3);
}

/// About five previews are shown a second: each fifth part of the frame rate, and
/// every frame where the rate is below five.
pub proof fn law_five_previews_a_second(fps: u32)
    ensures
        preview_interval(fps) >= 1,
        fps >= 5 ==> 5 * preview_interval(fps) <= fps < 5 * preview_interval(fps) + 5,
        fps < 5 ==> preview_interval(fps) == 1,
{
}

/// A frame is sound where it has four bytes a pixel and its cursor, if it has one, is
/// on one of its pixels.
pub proof fn law_sound_frames(f: RawFrame, p: (i32, i32), w: u32, h: u32)
    ensures
        in_frame(p, w, h) <==> p.0 >= 0 && p.1 >= 0 && p.0 < w && p.1 < h,
        f.wf() ==> f.bgra@.len() == 4 * (f.w as int * f.h as int),
        f.wf() ==> (f.cursor matches Some(q) ==> 0 <= q.0 < f.w && 0 <= q.1 < f.h),
{
    frame::law_frame_size(f.w as nat, f.h as nat);
}

} // verus!
