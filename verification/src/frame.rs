//! Tight pixel frames: four bytes a pixel, rows from top to bottom, no padding.
//!
//! Frames are modelled by their rows. `stack` puts rows on top of each other,
//! and every operation here says which rows its result is stacked from.

use vstd::prelude::*;

verus! {

/// The rows `row(0)` to `row(n - 1)` one after the other.
pub open spec fn stack(n: nat, row: spec_fn(int) -> Seq<u8>) -> Seq<u8>
    decreases n,
{
    if n == 0 {
        Seq::empty()
    } else {
        stack((n - 1) as nat, row) + row(n - 1)
    }
}

/// Zero bytes.
pub open spec fn zeros(n: nat) -> Seq<u8> {
    Seq::new(n, |i: int| 0u8)
}

/// The bytes of a frame of the given size.
pub open spec fn size_of_frame(w: nat, h: nat) -> nat {
    w * h * 4
}

/// The bytes of `n` pixels of `src` from the pixel (x, y) on, where rows are `w` pixels wide.
pub open spec fn run_at(src: Seq<u8>, w: nat, x: nat, y: int, n: nat) -> Seq<u8> {
    let from = (y * w + x) * 4;
    src.subrange(from, from + n * 4)
}

/// The four bytes of the pixel (x, y) of a frame whose rows are `w` pixels wide.
pub open spec fn pixel(src: Seq<u8>, w: nat, x: int, y: int) -> Seq<u8> {
    let from = (y * w + x) * 4;
    src.subrange(from, from + 4)
}

/// Rows of one length stack up to that length times their number.
pub proof fn lemma_stack_len(n: nat, row: spec_fn(int) -> Seq<u8>, len: nat)
    requires
        forall|y: int| 0 <= y < n ==> (#[trigger] row(y)).len() == len,
    ensures
        stack(n, row).len() == n * len,
    decreases n,
{
    if n > 0 {
        let m = (n - 1) as nat;
        lemma_stack_len(m, row, len);
        assert(n * len == m * len + len) by (nonlinear_arith)
            requires
                n == m + 1,
        ;
        assert(row(m as int).len() == len);
    } else {
        assert(0 * len == 0) by (nonlinear_arith);
    }
}

/// In a stack of rows of one length each row stays where it belongs.
pub proof fn lemma_stack_row(n: nat, row: spec_fn(int) -> Seq<u8>, len: nat, y: int)
    requires
        forall|y: int| 0 <= y < n ==> (#[trigger] row(y)).len() == len,
        0 <= y < n,
    ensures
        0 <= y * len,
        y * len + len <= stack(n, row).len(),
        stack(n, row).subrange(y * len, y * len + len) == row(y),
    decreases n,
{
    let m = (n - 1) as nat;
    lemma_stack_len(m, row, len);
    assert(row(m as int).len() == len);
    if y == m {
        assert(y * len == m * len);
    } else {
        lemma_stack_row(m, row, len, y);
        let part = stack(m, row).subrange(y * len, y * len + len);
        assert(stack(n, row).subrange(y * len, y * len + len) =~= part);
    }
    assert(stack(n, row).subrange(y * len, y * len + len) =~= row(y));
}

/// Equal rows stack up to equal frames.
pub proof fn lemma_stack_same(n: nat, a: spec_fn(int) -> Seq<u8>, b: spec_fn(int) -> Seq<u8>)
    requires
        forall|y: int| 0 <= y < n ==> #[trigger] a(y) == b(y),
    ensures
        stack(n, a) == stack(n, b),
    decreases n,
{
    if n > 0 {
        lemma_stack_same((n - 1) as nat, a, b);
        assert(a(n - 1) == b(n - 1));
    }
}

/// A frame is the stack of its own rows.
pub proof fn lemma_rows(src: Seq<u8>, w: nat, n: nat)
    requires
        n * w * 4 <= src.len(),
    ensures
        stack(n, |y: int| run_at(src, w, 0, y, w)) == src.take((n * w * 4) as int),
    decreases n,
{
    let row = |y: int| run_at(src, w, 0, y, w);
    if n > 0 {
        let m = (n - 1) as nat;
        assert(n * w * 4 == m * w * 4 + w * 4) by (nonlinear_arith)
            requires
                n == m + 1,
        ;
        lemma_rows(src, w, m);
        assert((m * w + 0) * 4 == m * w * 4);
        assert(row(m as int) == src.subrange((m * w * 4) as int, (m * w * 4 + w * 4) as int));
        assert(src.take((n * w * 4) as int) == src.take((m * w * 4) as int) + src.subrange(
            (m * w * 4) as int,
            (n * w * 4) as int,
        ));
    } else {
        assert(0 * w * 4 == 0) by (nonlinear_arith);
        assert(src.take(0) == Seq::<u8>::empty());
    }
}

/// The pixel (x, y) lies in the run that begins before it in the same row.
pub proof fn lemma_pixel_of_run(src: Seq<u8>, w: nat, x: nat, y: int, n: nat, k: int)
    requires
        0 <= k < n,
        0 <= y,
        (y * w + x + n) * 4 <= src.len(),
    ensures
        run_at(src, w, x, y, n).subrange(k * 4, k * 4 + 4) == pixel(src, w, x + k, y),
{
    assert(0 <= y * w) by (nonlinear_arith)
        requires
            0 <= y,
    ;
    let from = (y * w + x) * 4;
    assert((y * w + (x + k)) * 4 == from + k * 4);
    assert(run_at(src, w, x, y, n).subrange(k * 4, k * 4 + 4) == pixel(src, w, x + k, y));
}

// ---------------------------------------------------------------------------
// Building frames
// ---------------------------------------------------------------------------

/// Appends zero bytes.
fn push_zeros(out: &mut Vec<u8>, n: usize)
    ensures
        final(out)@ == old(out)@ + zeros(n as nat),
{
    let ghost start = out@;
    let mut i: usize = 0;
    while i < n
        invariant
            i <= n,
            out@ == start + zeros(i as nat),
        decreases n - i,
    {
        out.push(0);
        i += 1;
        assert(out@ =~= start + zeros(i as nat));
    }
}

/// Appends the bytes of `src` from `a` up to `b`.
fn push_slice(out: &mut Vec<u8>, src: &[u8], a: usize, b: usize)
    requires
        a <= b <= src@.len(),
    ensures
        final(out)@ == old(out)@ + src@.subrange(a as int, b as int),
{
    let ghost start = out@;
    let mut i: usize = a;
    while i < b
        invariant
            a <= i <= b <= src@.len(),
            out@ == start + src@.subrange(a as int, i as int),
        decreases b - i,
    {
        out.push(src[i]);
        i += 1;
        assert(src@.subrange(a as int, i as int) == src@.subrange(a as int, i - 1).push(
            src@[i - 1],
        ));
        assert(out@ =~= start + src@.subrange(a as int, i as int));
    }
}

// ---------------------------------------------------------------------------
// Fitting a frame onto the canvas
// ---------------------------------------------------------------------------

/// How many of `src` pixels fit across `dst` pixels.
pub open spec fn common(src: u32, dst: u32) -> nat {
    if src <= dst {
        src as nat
    } else {
        dst as nat
    }
}

/// Where a centred run of `n` pixels begins among `total`.
pub open spec fn centred(total: u32, n: nat) -> nat {
    ((total - n) / 2) as nat
}

/// Row `y` of a frame fitted onto the canvas: black where the source does not
/// reach, else the middle of the source row.
pub open spec fn fitted_row(
    src: Seq<u8>,
    src_w: u32,
    src_h: u32,
    dst_w: u32,
    dst_h: u32,
    y: int,
) -> Seq<u8> {
    let (cw, ch) = (common(src_w, dst_w), common(src_h, dst_h));
    let (sx, sy) = (centred(src_w, cw), centred(src_h, ch));
    let (dx, dy) = (centred(dst_w, cw), centred(dst_h, ch));
    if dy <= y < dy + ch {
        zeros(dx * 4) + run_at(src, src_w as nat, sx, sy + y - dy, cw) + zeros(
            ((dst_w - dx - cw) * 4) as nat,
        )
    } else {
        zeros(dst_w as nat * 4)
    }
}

/// A frame fitted onto the canvas: cut around the middle where it is larger,
/// framed in black where it is smaller.
pub open spec fn fitted(
    src: Seq<u8>,
    src_w: u32,
    src_h: u32,
    dst_w: u32,
    dst_h: u32,
) -> Seq<u8> {
    stack(dst_h as nat, |y: int| fitted_row(src, src_w, src_h, dst_w, dst_h, y))
}

proof fn lemma_run_inside(w: nat, h: nat, x: nat, y: nat, n: nat)
    requires
        x + n <= w,
        y < h,
    ensures
        0 <= (y * w + x) * 4,
        (y * w + x + n) * 4 <= w * h * 4,
{
    assert((y + 1) * w <= w * h) by (nonlinear_arith)
        requires
            y + 1 <= h,
    ;
    assert((y + 1) * w == y * w + w) by (nonlinear_arith);
}

/// Fits a top-down frame onto a canvas of another size, centred: crops where the
/// frame is larger and pads with black where it is smaller.
pub fn adapt_frame(src_w: u32, src_h: u32, src: &[u8], dst_w: u32, dst_h: u32) -> (dst: Vec<u8>)
    requires
        size_of_frame(src_w as nat, src_h as nat) <= src@.len(),
        size_of_frame(dst_w as nat, dst_h as nat) <= usize::MAX,
    ensures
        dst@ == fitted(src@, src_w, src_h, dst_w, dst_h),
        dst@.len() == size_of_frame(dst_w as nat, dst_h as nat),
{
    let total: usize = src.len();
    let sw: usize = src_w as usize;
    let dw: usize = dst_w as usize;
    let copy_w: usize = if src_w <= dst_w {
        src_w as usize
    } else {
        dst_w as usize
    };
    let copy_h: usize = if src_h <= dst_h {
        src_h as usize
    } else {
        dst_h as usize
    };
    let src_x: usize = (src_w as usize - copy_w) / 2;
    let src_y: usize = (src_h as usize - copy_h) / 2;
    let dst_x: usize = (dst_w as usize - copy_w) / 2;
    let dst_y: usize = (dst_h as usize - copy_h) / 2;
    let ghost row = |y: int| fitted_row(src@, src_w, src_h, dst_w, dst_h, y);
    let mut dst: Vec<u8> = Vec::new();
    let mut y: usize = 0;
    while y < dst_h as usize
        invariant
            y <= dst_h,
            total == src@.len(),
            sw == src_w,
            dw == dst_w,
            copy_w == common(src_w, dst_w),
            copy_h == common(src_h, dst_h),
            src_x == centred(src_w, copy_w as nat),
            src_y == centred(src_h, copy_h as nat),
            dst_x == centred(dst_w, copy_w as nat),
            dst_y == centred(dst_h, copy_h as nat),
            size_of_frame(src_w as nat, src_h as nat) <= src@.len(),
            size_of_frame(dst_w as nat, dst_h as nat) <= usize::MAX,
            row == (|y: int| fitted_row(src@, src_w, src_h, dst_w, dst_h, y)),
            dst@ == stack(y as nat, row),
        decreases dst_h - y,
    {
        let ghost before = dst@;
        assert(dst_w * 4 <= size_of_frame(dst_w as nat, dst_h as nat)) by (nonlinear_arith)
            requires
                dst_h >= 1,
        ;
        if dst_y <= y && y < dst_y + copy_h {
            let r: usize = src_y + (y - dst_y);
            proof {
                lemma_run_inside(
                    src_w as nat,
                    src_h as nat,
                    src_x as nat,
                    r as nat,
                    copy_w as nat,
                );
                assert(0 <= r * src_w) by (nonlinear_arith);
            }
            let s0: usize = (r * sw + src_x) * 4;
            push_zeros(&mut dst, dst_x * 4);
            push_slice(&mut dst, src, s0, s0 + copy_w * 4);
            push_zeros(&mut dst, (dw - dst_x - copy_w) * 4);
        } else {
            push_zeros(&mut dst, dw * 4);
        }
        assert(dst@ =~= before + row(y as int));
        y += 1;
    }
    proof {
        lemma_fitted_len(src@, src_w, src_h, dst_w, dst_h);
    }
    dst
}

/// Every row of a fitted frame has the canvas width.
proof fn lemma_fitted_row_len(
    src: Seq<u8>,
    src_w: u32,
    src_h: u32,
    dst_w: u32,
    dst_h: u32,
    y: int,
)
    requires
        size_of_frame(src_w as nat, src_h as nat) <= src.len(),
    ensures
        fitted_row(src, src_w, src_h, dst_w, dst_h, y).len() == dst_w as nat * 4,
{
    let (cw, ch) = (common(src_w, dst_w), common(src_h, dst_h));
    let (sx, sy) = (centred(src_w, cw), centred(src_h, ch));
    let dy = centred(dst_h, ch);
    if dy <= y < dy + ch {
        lemma_run_inside(src_w as nat, src_h as nat, sx, (sy + y - dy) as nat, cw);
    }
}

/// A fitted frame always has the size of the canvas.
pub proof fn lemma_fitted_len(src: Seq<u8>, src_w: u32, src_h: u32, dst_w: u32, dst_h: u32)
    requires
        size_of_frame(src_w as nat, src_h as nat) <= src.len(),
    ensures
        fitted(src, src_w, src_h, dst_w, dst_h).len() == size_of_frame(dst_w as nat, dst_h as nat),
{
    let row = |y: int| fitted_row(src, src_w, src_h, dst_w, dst_h, y);
    assert forall|y: int| 0 <= y < dst_h implies (#[trigger] row(y)).len() == dst_w as nat * 4 by {
        lemma_fitted_row_len(src, src_w, src_h, dst_w, dst_h, y);
    }
    lemma_stack_len(dst_h as nat, row, dst_w as nat * 4);
    assert(dst_h as nat * (dst_w as nat * 4) == dst_w as nat * dst_h as nat * 4)
        by (nonlinear_arith);
}

/// Fitting a frame onto a canvas of its own size changes nothing.
pub proof fn law_fit_same_size(src: Seq<u8>, w: u32, h: u32)
    requires
        src.len() == size_of_frame(w as nat, h as nat),
    ensures
        fitted(src, w, h, w, h) == src,
{
    let a = |y: int| fitted_row(src, w, h, w, h, y);
    let b = |y: int| run_at(src, w as nat, 0, y, w as nat);
    assert forall|y: int| 0 <= y < h implies #[trigger] a(y) == b(y) by {
        assert(a(y) =~= b(y));
    }
    lemma_stack_same(h as nat, a, b);
    assert(h as nat * w as nat * 4 == w as nat * h as nat * 4) by (nonlinear_arith);
    lemma_rows(src, w as nat, h as nat);
    assert(src.take(src.len() as int) == src);
}

/// Each pixel of a fitted frame is black, or it is the source pixel at the same
/// place relative to the middle.
pub proof fn law_fit_pixels(
    src: Seq<u8>,
    src_w: u32,
    src_h: u32,
    dst_w: u32,
    dst_h: u32,
    x: int,
    y: int,
)
    requires
        size_of_frame(src_w as nat, src_h as nat) <= src.len(),
        0 <= x < dst_w,
        0 <= y < dst_h,
    ensures
        ({
            let (cw, ch) = (common(src_w, dst_w), common(src_h, dst_h));
            let (sx, sy) = (centred(src_w, cw), centred(src_h, ch));
            let (dx, dy) = (centred(dst_w, cw), centred(dst_h, ch));
            let out = fitted(src, src_w, src_h, dst_w, dst_h);
            pixel(out, dst_w as nat, x, y) == if dx <= x < dx + cw && dy <= y < dy + ch {
                pixel(src, src_w as nat, x - dx + sx, y - dy + sy)
            } else {
                zeros(4)
            }
        }),
{
    let (cw, ch) = (common(src_w, dst_w), common(src_h, dst_h));
    let (sx, sy) = (centred(src_w, cw), centred(src_h, ch));
    let (dx, dy) = (centred(dst_w, cw), centred(dst_h, ch));
    let out = fitted(src, src_w, src_h, dst_w, dst_h);
    let row = |y: int| fitted_row(src, src_w, src_h, dst_w, dst_h, y);
    let len = dst_w as nat * 4;
    assert forall|y: int| 0 <= y < dst_h implies (#[trigger] row(y)).len() == len by {
        lemma_fitted_row_len(src, src_w, src_h, dst_w, dst_h, y);
    }
    lemma_stack_row(dst_h as nat, row, len, y);
    assert(y * len == (y * dst_w) * 4) by (nonlinear_arith)
        requires
            len == dst_w * 4,
    ;
    let line = row(y);
    assert(line.len() == len);
    assert(pixel(out, dst_w as nat, x, y) =~= out.subrange(y * len, y * len + len).subrange(
        x * 4,
        x * 4 + 4,
    ));
    let got = line.subrange(x * 4, x * 4 + 4);
    if dy <= y < dy + ch && dx <= x < dx + cw {
        let r = (sy + y - dy) as nat;
        lemma_run_inside(src_w as nat, src_h as nat, sx, r, cw);
        let run = run_at(src, src_w as nat, sx, r as int, cw);
        lemma_pixel_of_run(src, src_w as nat, sx, r as int, cw, x - dx);
        assert(got =~= run.subrange((x - dx) * 4, (x - dx) * 4 + 4));
    } else if dy <= y < dy + ch {
        let r = (sy + y - dy) as nat;
        lemma_run_inside(src_w as nat, src_h as nat, sx, r, cw);
        assert(got =~= zeros(4));
    } else {
        assert(got =~= zeros(4));
    }
}

/// A frame that was padded onto a larger canvas comes back when it is cropped
/// out again.
pub proof fn law_pad_then_crop(src: Seq<u8>, src_w: u32, src_h: u32, dst_w: u32, dst_h: u32)
    requires
        src.len() == size_of_frame(src_w as nat, src_h as nat),
        src_w <= dst_w,
        src_h <= dst_h,
    ensures
        fitted(fitted(src, src_w, src_h, dst_w, dst_h), dst_w, dst_h, src_w, src_h) == src,
{
    let out = fitted(src, src_w, src_h, dst_w, dst_h);
    let row = |y: int| fitted_row(src, src_w, src_h, dst_w, dst_h, y);
    let len = dst_w as nat * 4;
    let (dx, dy) = (centred(dst_w, src_w as nat), centred(dst_h, src_h as nat));
    assert forall|y: int| 0 <= y < dst_h implies (#[trigger] row(y)).len() == len by {
        lemma_fitted_row_len(src, src_w, src_h, dst_w, dst_h, y);
    }
    let a = |y: int| fitted_row(out, dst_w, dst_h, src_w, src_h, y);
    let b = |y: int| run_at(src, src_w as nat, 0, y, src_w as nat);
    assert forall|y: int| 0 <= y < src_h implies #[trigger] a(y) == b(y) by {
        let yy = dy + y;
        lemma_stack_row(dst_h as nat, row, len, yy);
        assert(yy * len == (yy * dst_w) * 4) by (nonlinear_arith)
            requires
                len == dst_w * 4,
        ;
        lemma_run_inside(src_w as nat, src_h as nat, 0, y as nat, src_w as nat);
        let cut = run_at(out, dst_w as nat, dx, yy, src_w as nat);
        assert(cut =~= out.subrange(yy * len, yy * len + len).subrange(
            (dx * 4) as int,
            (dx * 4 + src_w * 4) as int,
        ));
        assert(row(yy).subrange((dx * 4) as int, (dx * 4 + src_w * 4) as int) =~= b(y));
        assert(a(y) =~= cut);
    }
    lemma_stack_same(src_h as nat, a, b);
    assert(src_h as nat * src_w as nat * 4 == src_w as nat * src_h as nat * 4) by (nonlinear_arith);
    lemma_rows(src, src_w as nat, src_h as nat);
    assert(src.take(src.len() as int) == src);
}

// ---------------------------------------------------------------------------
// Channel order
// ---------------------------------------------------------------------------

/// Byte `i` of a frame with the first and third byte of each pixel swapped.
/// Bytes behind the last whole pixel stay.
pub open spec fn swapped_byte(s: Seq<u8>, i: int) -> u8 {
    if i - i % 4 + 4 > s.len() {
        s[i]
    } else if i % 4 == 0 {
        s[i + 2]
    } else if i % 4 == 2 {
        s[i - 2]
    } else {
        s[i]
    }
}

/// A frame with red and blue swapped.
pub open spec fn swapped(s: Seq<u8>) -> Seq<u8> {
    Seq::new(s.len(), |i: int| swapped_byte(s, i))
}

/// Swaps RGBA to BGRA, or back, in place.
pub fn rgba_to_bgra_in_place(buf: &mut [u8])
    ensures
        final(buf)@ == swapped(old(buf)@),
{
    let ghost start = buf@;
    let n: usize = buf.len();
    let mut i: usize = 0;
    while n - i >= 4
        invariant
            i <= n,
            n == buf@.len(),
            n == start.len(),
            i % 4 == 0,
            forall|k: int| 0 <= k < i ==> #[trigger] buf@[k] == swapped_byte(start, k),
            forall|k: int| i <= k < n ==> #[trigger] buf@[k] == start[k],
        decreases n - i,
    {
        let a = buf[i];
        let b = buf[i + 2];
        buf[i] = b;
        buf[i + 2] = a;
        i += 4;
    }
    assert(buf@ =~= swapped(start));
}

/// A BGRA frame as opaque RGBA: red and blue swapped, every alpha 255.
pub open spec fn opaque(s: Seq<u8>) -> Seq<u8> {
    Seq::new(
        s.len(),
        |i: int|
            if i % 4 == 3 {
                255u8
            } else {
                swapped_byte(s, i)
            },
    )
}

/// Turns a BGRA frame into opaque RGBA.
pub fn bgra_to_opaque_rgba(bgra: &[u8]) -> (out: Vec<u8>)
    requires
        bgra@.len() % 4 == 0,
    ensures
        out@ == opaque(bgra@),
{
    let n: usize = bgra.len();
    let mut out: Vec<u8> = Vec::new();
    let mut i: usize = 0;
    while i < n
        invariant
            n == bgra@.len(),
            n % 4 == 0,
            i <= n,
            i % 4 == 0,
            out@.len() == i,
            forall|k: int| 0 <= k < i ==> #[trigger] out@[k] == opaque(bgra@)[k],
        decreases n - i,
    {
        out.push(bgra[i + 2]);
        out.push(bgra[i + 1]);
        out.push(bgra[i]);
        out.push(255);
        i += 4;
    }
    assert(out@ =~= opaque(bgra@));
    out
}

/// Swapping red and blue twice changes nothing.
pub proof fn law_swap_twice(s: Seq<u8>)
    ensures
        swapped(swapped(s)) == s,
{
    assert forall|i: int| 0 <= i < s.len() implies swapped(swapped(s))[i] == s[i] by {
        let t = swapped(s);
        if i - i % 4 + 4 <= s.len() {
            if i % 4 == 0 {
                assert(t[i + 2] == s[i]);
            } else if i % 4 == 2 {
                assert(t[i - 2] == s[i]);
            }
        }
    }
    assert(swapped(swapped(s)) =~= s);
}

// ---------------------------------------------------------------------------
// Cropping
// ---------------------------------------------------------------------------

/// The rectangle of `w` by `h` pixels at (x, y) of a frame `sw` pixels wide.
pub open spec fn cropped(src: Seq<u8>, sw: u32, x: u32, y: u32, w: u32, h: u32) -> Seq<u8> {
    stack(h as nat, |r: int| run_at(src, sw as nat, x as nat, y + r, w as nat))
}

/// Does the frame reach to the end of the last row that is cut out?
pub open spec fn crop_reaches(len: nat, sw: u32, x: u32, y: u32, w: u32, h: u32) -> bool {
    h > 0 ==> ((y + h - 1) * sw + x + w) * 4 <= len
}

/// Cuts a rectangle out of a tight frame.
pub fn crop_rgba(src: &[u8], sw: u32, x: u32, y: u32, w: u32, h: u32) -> (out: Vec<u8>)
    requires
        crop_reaches(src@.len(), sw, x, y, w, h),
        y + h <= usize::MAX,
    ensures
        out@ == cropped(src@, sw, x, y, w, h),
        out@.len() == size_of_frame(w as nat, h as nat),
{
    let total: usize = src.len();
    let ghost row = |r: int| run_at(src@, sw as nat, x as nat, y + r, w as nat);
    let mut out: Vec<u8> = Vec::new();
    let mut r: u32 = 0;
    while r < h
        invariant
            r <= h,
            y + h <= usize::MAX,
            total == src@.len(),
            crop_reaches(src@.len(), sw, x, y, w, h),
            row == (|r: int| run_at(src@, sw as nat, x as nat, y + r, w as nat)),
            out@ == stack(r as nat, row),
        decreases h - r,
    {
        proof {
            lemma_crop_row(src@.len(), sw, x, y, w, h, r as int);
        }
        let ghost before = out@;
        let line: usize = y as usize + r as usize;
        let s0: usize = (line * (sw as usize) + x as usize) * 4;
        push_slice(&mut out, src, s0, s0 + (w as usize) * 4);
        assert(out@ =~= before + row(r as int));
        r += 1;
    }
    proof {
        assert forall|r: int| 0 <= r < h implies (#[trigger] row(r)).len() == w as nat * 4 by {
            lemma_crop_row(src@.len(), sw, x, y, w, h, r);
        }
        lemma_stack_len(h as nat, row, w as nat * 4);
        assert(h as nat * (w as nat * 4) == w as nat * h as nat * 4) by (nonlinear_arith);
    }
    out
}

proof fn lemma_crop_row(len: nat, sw: u32, x: u32, y: u32, w: u32, h: u32, r: int)
    requires
        crop_reaches(len, sw, x, y, w, h),
        0 <= r < h,
    ensures
        0 <= (y + r) * sw,
        ((y + r) * sw + x + w) * 4 <= len,
{
    assert((y + r) * sw <= (y + h - 1) * sw) by (nonlinear_arith)
        requires
            0 <= y + r <= y + h - 1,
    ;
    assert(0 <= (y + r) * sw) by (nonlinear_arith)
        requires
            0 <= y + r,
    ;
}

/// Cutting the whole frame out changes nothing.
pub proof fn law_crop_whole(src: Seq<u8>, w: u32, h: u32)
    requires
        src.len() == size_of_frame(w as nat, h as nat),
    ensures
        cropped(src, w, 0, 0, w, h) == src,
{
    let a = |r: int| run_at(src, w as nat, 0, 0 + r, w as nat);
    let b = |y: int| run_at(src, w as nat, 0, y, w as nat);
    assert forall|y: int| 0 <= y < h implies #[trigger] a(y) == b(y) by {}
    lemma_stack_same(h as nat, a, b);
    assert(cropped(src, w, 0, 0, w, h) == stack(h as nat, a)) by {
        lemma_stack_same(
            h as nat,
            |r: int| run_at(src, w as nat, 0u32 as nat, 0u32 + r, w as nat),
            a,
        );
    }
    assert(h as nat * w as nat * 4 == w as nat * h as nat * 4) by (nonlinear_arith);
    lemma_rows(src, w as nat, h as nat);
    assert(src.take(src.len() as int) == src);
}

/// The pixel at (i, j) of a cut-out is the one at (x + i, y + j) of the frame.
pub proof fn law_crop_pixels(
    src: Seq<u8>,
    sw: u32,
    x: u32,
    y: u32,
    w: u32,
    h: u32,
    i: int,
    j: int,
)
    requires
        crop_reaches(src.len(), sw, x, y, w, h),
        0 <= i < w,
        0 <= j < h,
    ensures
        pixel(cropped(src, sw, x, y, w, h), w as nat, i, j) == pixel(src, sw as nat, x + i, y + j),
{
    let row = |r: int| run_at(src, sw as nat, x as nat, y + r, w as nat);
    let len = w as nat * 4;
    assert forall|r: int| 0 <= r < h implies (#[trigger] row(r)).len() == len by {
        lemma_crop_row(src.len(), sw, x, y, w, h, r);
    }
    lemma_stack_row(h as nat, row, len, j);
    lemma_crop_row(src.len(), sw, x, y, w, h, j);
    assert(j * len == (j * w) * 4) by (nonlinear_arith)
        requires
            len == w * 4,
    ;
    let out = cropped(src, sw, x, y, w, h);
    assert(pixel(out, w as nat, i, j) =~= out.subrange(j * len, j * len + len).subrange(
        i * 4,
        i * 4 + 4,
    ));
    lemma_pixel_of_run(src, sw as nat, x as nat, y + j, w as nat, i);
}

/// Cutting a rectangle out of a cut-out is cutting it out of the frame.
pub proof fn law_crop_twice(
    src: Seq<u8>,
    sw: u32,
    outer: (u32, u32, u32, u32),
    inner: (u32, u32, u32, u32),
)
    requires
        crop_reaches(src.len(), sw, outer.0, outer.1, outer.2, outer.3),
        inner.0 + inner.2 <= outer.2,
        inner.1 + inner.3 <= outer.3,
        outer.0 + inner.0 <= u32::MAX,
        outer.1 + inner.1 <= u32::MAX,
    ensures
        cropped(
            cropped(src, sw, outer.0, outer.1, outer.2, outer.3),
            outer.2,
            inner.0,
            inner.1,
            inner.2,
            inner.3,
        ) == cropped(
            src,
            sw,
            (outer.0 + inner.0) as u32,
            (outer.1 + inner.1) as u32,
            inner.2,
            inner.3,
        ),
{
    let (x, y, w, h) = outer;
    let (u, v, iw, ih) = inner;
    let cut = cropped(src, sw, x, y, w, h);
    let row = |r: int| run_at(src, sw as nat, x as nat, y + r, w as nat);
    let len = w as nat * 4;
    assert forall|r: int| 0 <= r < h implies (#[trigger] row(r)).len() == len by {
        lemma_crop_row(src.len(), sw, x, y, w, h, r);
    }
    let a = |r: int| run_at(cut, w as nat, u as nat, v + r, iw as nat);
    let b = |r: int|
        run_at(src, sw as nat, (x + u) as u32 as nat, (y + v) as u32 + r, iw as nat);
    assert forall|r: int| 0 <= r < ih implies #[trigger] a(r) == b(r) by {
        let j = v + r;
        lemma_stack_row(h as nat, row, len, j);
        lemma_crop_row(src.len(), sw, x, y, w, h, j);
        assert(j * len == (j * w) * 4) by (nonlinear_arith)
            requires
                len == w * 4,
        ;
        assert(a(r) =~= cut.subrange(j * len, j * len + len).subrange(u * 4, (u + iw) * 4));
        assert(b(r) =~= row(j).subrange(u * 4, (u + iw) * 4));
    }
    lemma_stack_same(ih as nat, a, b);
}

// ---------------------------------------------------------------------------
// Row order
// ---------------------------------------------------------------------------

/// A frame with its rows from bottom to top.
pub open spec fn flipped(src: Seq<u8>, w: u32, h: u32) -> Seq<u8> {
    stack(h as nat, |y: int| run_at(src, w as nat, 0, h - 1 - y, w as nat))
}

proof fn lemma_flip_bounds(w: u32, h: u32)
    ensures
        size_of_frame(w as nat, h as nat) == h * (w * 4),
        0 * (w * 4) == 0,
{
    assert(size_of_frame(w as nat, h as nat) == h * (w * 4)) by (nonlinear_arith);
}

/// Writes the rows of `src` into `dst` from bottom to top. The buffer is reused
/// across frames: it grows where it is too short and is never cut. How much memory
/// it holds beyond its length is the allocator's affair and is not stated.
pub fn flip_rows_vertical<'b>(src: &[u8], w: u32, h: u32, dst: &'b mut Vec<u8>) -> (out: &'b [u8])
    requires
        w > 0,
        src@.len() == size_of_frame(w as nat, h as nat),
    ensures
        out@ == flipped(src@, w, h),
        final(dst)@.len() == (if old(dst)@.len() < src@.len() {
            src@.len()
        } else {
            old(dst)@.len()
        }),
        final(dst)@.take(src@.len() as int) == flipped(src@, w, h),
        old(dst)@.len() >= src@.len() ==> final(dst)@.skip(src@.len() as int) == old(dst)@.skip(
            src@.len() as int,
        ),
{
    let total: usize = src.len();
    let ghost keep = if dst@.len() >= total {
        dst@.skip(total as int)
    } else {
        Seq::empty()
    };
    if dst.len() < total {
        dst.resize(total, 0);
    }
    let ghost full = dst@.len();
    assert(dst@.skip(total as int) =~= keep);
    let ghost row = |y: int| run_at(src@, w as nat, 0, h - 1 - y, w as nat);
    proof {
        lemma_flip_bounds(w, h);
        assert(dst@.take(0) =~= stack(0, row));
    }
    if h == 0 {
        assert(dst@.take(total as int) =~= dst@.subrange(0, total as int));
        return vstd::slice::slice_subrange(dst.as_slice(), 0, total);
    }
    assert(w * 4 <= h * (w * 4)) by (nonlinear_arith)
        requires
            h >= 1,
    ;
    let row_bytes: usize = (w as usize) * 4;
    let mut y: u32 = 0;
    let mut done: usize = 0;
    while y < h
        invariant
            y <= h,
            row_bytes == w * 4,
            done == y * row_bytes,
            total == src@.len(),
            total == h * row_bytes,
            full >= total,
            dst@.len() == full,
            dst@.skip(total as int) == keep,
            row == (|y: int| run_at(src@, w as nat, 0, h - 1 - y, w as nat)),
            dst@.take(done as int) == stack(y as nat, row),
        decreases h - y,
    {
        let back: u32 = h - 1 - y;
        let ghost stacked = stack(y as nat, row);
        proof {
            assert((y + 1) * row_bytes == y * row_bytes + row_bytes) by (nonlinear_arith);
            assert((y + 1) * row_bytes <= h * row_bytes) by (nonlinear_arith)
                requires
                    y + 1 <= h,
            ;
            assert(back * row_bytes + row_bytes <= h * row_bytes) by (nonlinear_arith)
                requires
                    back + 1 <= h,
            ;
            assert(back * row_bytes == (back * w + 0) * 4) by (nonlinear_arith)
                requires
                    row_bytes == w * 4,
            ;
        }
        let from: usize = (back as usize) * row_bytes;
        let mut k: usize = 0;
        assert(row(y as int) =~= src@.subrange(from as int, from + row_bytes));
        assert(dst@.take(done + 0) =~= stacked + row(y as int).take(0));
        while k < row_bytes
            invariant
                k <= row_bytes,
                done + row_bytes <= total,
                from + row_bytes <= total,
                total == src@.len(),
                full >= total,
                dst@.len() == full,
                dst@.skip(total as int) == keep,
                row(y as int) == src@.subrange(from as int, from + row_bytes),
                dst@.take(done + k) == stacked + row(y as int).take(k as int),
            decreases row_bytes - k,
        {
            let ghost before = dst@;
            dst[done + k] = src[from + k];
            proof {
                assert(dst@.skip(total as int) =~= before.skip(total as int));
                assert(dst@.take(done + k + 1) =~= before.take(done + k).push(
                    src@[from + k],
                ));
                assert(row(y as int).take(k + 1) =~= row(y as int).take(k as int).push(
                    src@[from + k],
                ));
                assert(stacked + row(y as int).take(k + 1) =~= (stacked + row(y as int).take(
                    k as int,
                )).push(src@[from + k]));
            }
            k += 1;
        }
        assert(row(y as int).take(row_bytes as int) =~= row(y as int));
        done += row_bytes;
        y += 1;
    }
    assert(dst@.take(total as int) =~= dst@.subrange(0, total as int));
    vstd::slice::slice_subrange(dst.as_slice(), 0, total)
}

/// Row `h - 1 - y` of the flipped frame is row `y` of the frame, and nothing is lost.
proof fn lemma_flipped_rows(src: Seq<u8>, w: u32, h: u32)
    requires
        src.len() == size_of_frame(w as nat, h as nat),
    ensures
        flipped(src, w, h).len() == src.len(),
        forall|y: int|
            0 <= y < h ==> #[trigger] run_at(flipped(src, w, h), w as nat, 0, h - 1 - y, w as nat)
                == run_at(src, w as nat, 0, y, w as nat),
{
    let row = |y: int| run_at(src, w as nat, 0, h - 1 - y, w as nat);
    let out = flipped(src, w, h);
    let len = w as nat * 4;
    assert forall|y: int| 0 <= y < h implies (#[trigger] row(y)).len() == len by {
        lemma_run_inside(w as nat, h as nat, 0, (h - 1 - y) as nat, w as nat);
    }
    lemma_stack_len(h as nat, row, len);
    assert(h as nat * len == size_of_frame(w as nat, h as nat)) by (nonlinear_arith)
        requires
            len == w as nat * 4,
    ;
    assert forall|y: int| 0 <= y < h implies #[trigger] run_at(
        out,
        w as nat,
        0,
        h - 1 - y,
        w as nat,
    ) == run_at(src, w as nat, 0, y, w as nat) by {
        let yy = h - 1 - y;
        lemma_stack_row(h as nat, row, len, yy);
        assert(yy * len == (yy * w) * 4) by (nonlinear_arith)
            requires
                len == w * 4,
        ;
        assert(row(yy) == run_at(src, w as nat, 0, y, w as nat));
    }
}

/// Reversing the rows twice changes nothing.
pub proof fn law_flip_twice(src: Seq<u8>, w: u32, h: u32)
    requires
        src.len() == size_of_frame(w as nat, h as nat),
    ensures
        flipped(src, w, h).len() == src.len(),
        flipped(flipped(src, w, h), w, h) == src,
{
    let out = flipped(src, w, h);
    let a = |y: int| run_at(out, w as nat, 0, h - 1 - y, w as nat);
    let b = |y: int| run_at(src, w as nat, 0, y, w as nat);
    lemma_flipped_rows(src, w, h);
    assert forall|y: int| 0 <= y < h implies #[trigger] a(y) == b(y) by {
        assert(a(y) == run_at(out, w as nat, 0, h - 1 - y, w as nat));
    }
    lemma_stack_same(h as nat, a, b);
    assert(h as nat * w as nat * 4 == w as nat * h as nat * 4) by (nonlinear_arith);
    lemma_rows(src, w as nat, h as nat);
    assert(src.take(src.len() as int) == src);
}

// ---------------------------------------------------------------------------
// What holds on every input
// ---------------------------------------------------------------------------

/// A frame has four bytes for each of its pixels.
pub proof fn law_frame_size(w: nat, h: nat)
    ensures
        size_of_frame(w, h) == 4 * (w * h),
        size_of_frame(w, h) == size_of_frame(h, w),
        size_of_frame(w, h + 1) == size_of_frame(w, h) + 4 * w,
{
    assert(w * h * 4 == 4 * (w * h)) by (nonlinear_arith);
    assert(w * h * 4 == h * w * 4) by (nonlinear_arith);
    assert(w * (h + 1) * 4 == w * h * 4 + 4 * w) by (nonlinear_arith);
}

/// A fitted frame is centred. Let the picture that both sizes have room for begin at
/// (sx, sy) of the source and at (dx, dy) of the canvas, each time with the same
/// margin on opposite sides but for an odd pixel. Then each byte of the canvas is the
/// byte of the source at the same place of that picture, and zero outside it.
pub proof fn law_fit_is_centred(
    src: Seq<u8>,
    src_w: u32,
    src_h: u32,
    dst_w: u32,
    dst_h: u32,
    cut: (int, int, int, int),
    put: (int, int),
    x: int,
    y: int,
    c: int,
)
    requires
        src_w as int * src_h as int * 4 <= src.len(),
        cut.2 <= src_w && cut.2 <= dst_w && (cut.2 == src_w || cut.2 == dst_w),
        cut.3 <= src_h && cut.3 <= dst_h && (cut.3 == src_h || cut.3 == dst_h),
        0 <= cut.0 && 0 <= src_w - cut.2 - 2 * cut.0 <= 1,
        0 <= cut.1 && 0 <= src_h - cut.3 - 2 * cut.1 <= 1,
        0 <= put.0 && 0 <= dst_w - cut.2 - 2 * put.0 <= 1,
        0 <= put.1 && 0 <= dst_h - cut.3 - 2 * put.1 <= 1,
        0 <= x < dst_w,
        0 <= y < dst_h,
        0 <= c < 4,
    ensures
        fitted(src, src_w, src_h, dst_w, dst_h)[(y * dst_w + x) * 4 + c] == (if put.0 <= x < put.0
            + cut.2 && put.1 <= y < put.1 + cut.3 {
            src[((y - put.1 + cut.1) * src_w + (x - put.0 + cut.0)) * 4 + c]
        } else {
            0u8
        }),
{
    let out = fitted(src, src_w, src_h, dst_w, dst_h);
    lemma_fitted_len(src, src_w, src_h, dst_w, dst_h);
    law_fit_pixels(src, src_w, src_h, dst_w, dst_h, x, y);
    lemma_run_inside(dst_w as nat, dst_h as nat, x as nat, y as nat, 1);
    assert(pixel(out, dst_w as nat, x, y)[c] == out[(y * dst_w + x) * 4 + c]);
    if put.0 <= x < put.0 + cut.2 && put.1 <= y < put.1 + cut.3 {
        let (u, v) = (x - put.0 + cut.0, y - put.1 + cut.1);
        lemma_run_inside(src_w as nat, src_h as nat, u as nat, v as nat, 1);
        assert(pixel(src, src_w as nat, u, v)[c] == src[(v * src_w + u) * 4 + c]);
    }
}

/// A fitted frame is as large as the canvas.
pub proof fn law_fit_has_the_canvas_size(
    src: Seq<u8>,
    src_w: u32,
    src_h: u32,
    dst_w: u32,
    dst_h: u32,
)
    requires
        src_w as int * src_h as int * 4 <= src.len(),
    ensures
        fitted(src, src_w, src_h, dst_w, dst_h).len() == dst_w as int * dst_h as int * 4,
{
    lemma_fitted_len(src, src_w, src_h, dst_w, dst_h);
}

/// Swapping the channel order exchanges the first and the third byte of each whole
/// pixel and keeps the others.
pub proof fn law_swap_of_a_pixel(s: Seq<u8>, k: int)
    requires
        0 <= k,
        4 * k + 4 <= s.len(),
    ensures
        swapped(s).len() == s.len(),
        swapped(s)[4 * k] == s[4 * k + 2],
        swapped(s)[4 * k + 1] == s[4 * k + 1],
        swapped(s)[4 * k + 2] == s[4 * k],
        swapped(s)[4 * k + 3] == s[4 * k + 3],
{
}

/// Bytes behind the last whole pixel stay.
pub proof fn law_swap_keeps_the_rest(s: Seq<u8>, i: int)
    requires
        s.len() - s.len() % 4 <= i < s.len(),
    ensures
        swapped(s)[i] == s[i],
{
}

/// An opaque frame has the colours of the frame in the other order, and no pixel is
/// translucent.
pub proof fn law_opaque_pixel(s: Seq<u8>, k: int)
    requires
        0 <= k,
        4 * k + 4 <= s.len(),
    ensures
        opaque(s).len() == s.len(),
        opaque(s)[4 * k] == s[4 * k + 2],
        opaque(s)[4 * k + 1] == s[4 * k + 1],
        opaque(s)[4 * k + 2] == s[4 * k],
        opaque(s)[4 * k + 3] == 255,
{
}

/// Byte by byte, a cut-out is the rectangle of the frame whose top left corner is
/// (x, y).
pub proof fn law_crop_bytes(
    src: Seq<u8>,
    sw: u32,
    x: u32,
    y: u32,
    w: u32,
    h: u32,
    i: int,
    j: int,
    c: int,
)
    requires
        ((y + h - 1) * sw + x + w) * 4 <= src.len(),
        0 <= i < w,
        0 <= j < h,
        0 <= c < 4,
    ensures
        cropped(src, sw, x, y, w, h).len() == w as int * h as int * 4,
        cropped(src, sw, x, y, w, h)[(j * w + i) * 4 + c] == src[((y + j) * sw + (x + i)) * 4 + c],
{
    let out = cropped(src, sw, x, y, w, h);
    let row = |r: int| run_at(src, sw as nat, x as nat, y + r, w as nat);
    assert forall|r: int| 0 <= r < h implies (#[trigger] row(r)).len() == w as nat * 4 by {
        lemma_crop_row(src.len(), sw, x, y, w, h, r);
    }
    lemma_stack_len(h as nat, row, w as nat * 4);
    assert(h as nat * (w as nat * 4) == w as nat * h as nat * 4) by (nonlinear_arith);
    law_crop_pixels(src, sw, x, y, w, h, i, j);
    lemma_run_inside(w as nat, h as nat, i as nat, j as nat, 1);
    lemma_crop_row(src.len(), sw, x, y, w, h, j);
    assert(pixel(out, w as nat, i, j)[c] == out[(j * w + i) * 4 + c]);
    assert(pixel(src, sw as nat, x + i, y + j)[c] == src[((y + j) * sw + (x + i)) * 4 + c]);
}

/// A frame is large enough for a cut-out that lies within it.
pub proof fn law_crop_within_the_frame(sw: u32, sh: u32, x: u32, y: u32, w: u32, h: u32)
    requires
        x + w <= sw,
        y + h <= sh,
    ensures
        crop_reaches((sw as int * sh as int * 4) as nat, sw, x, y, w, h),
{
    if h > 0 {
        lemma_run_inside(sw as nat, sh as nat, x as nat, (y + h - 1) as nat, w as nat);
    }
}

/// Byte by byte, a flipped frame has the first row last and each row as it was.
pub proof fn law_flip_bytes(src: Seq<u8>, w: u32, h: u32, x: int, y: int, c: int)
    requires
        src.len() == w as int * h as int * 4,
        0 <= x < w,
        0 <= y < h,
        0 <= c < 4,
    ensures
        flipped(src, w, h).len() == src.len(),
        flipped(src, w, h)[((h - 1 - y) * w + x) * 4 + c] == src[(y * w + x) * 4 + c],
{
    let out = flipped(src, w, h);
    lemma_flipped_rows(src, w, h);
    let a = run_at(out, w as nat, 0, h - 1 - y, w as nat);
    let b = run_at(src, w as nat, 0, y, w as nat);
    assert(a == b);
    lemma_run_inside(w as nat, h as nat, 0, y as nat, w as nat);
    lemma_run_inside(w as nat, h as nat, 0, (h - 1 - y) as nat, w as nat);
    assert(a[x * 4 + c] == out[((h - 1 - y) * w + x) * 4 + c]);
    assert(b[x * 4 + c] == src[(y * w + x) * 4 + c]);
}

} // verus!
