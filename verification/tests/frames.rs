use qcapture::frame::{
    adapt_frame, bgra_to_opaque_rgba, crop_rgba, flip_rows_vertical, rgba_to_bgra_in_place,
};
use qcapture::pace::{
    frame_gate, is_over, record_gate, FeedCounters, Gate, Offer, Pacer, Retries, MAX_CONSEC_ERRORS,
};
use qcapture::pump::{
    blend_ring, crop_fits, map_cursor_to_frame, preview_every, ring_alpha, sample_cursor, Pump, RawFrame,
    WindowCorner, MAX_RIPPLES,
};
use qcapture::types::CursorFx;

#[test]
fn cursor_lies_on_feeds_of_any_size() {
    assert_eq!(
        map_cursor_to_frame((i32::MAX, 7), None, (0, 0), None, u32::MAX, u32::MAX),
        Some((i32::MAX, 7))
    );
    assert_eq!(map_cursor_to_frame((-1, 7), None, (0, 0), None, u32::MAX, u32::MAX), None);
}

#[test]
fn cursor_map_screen_region_and_window() {
    // Screen: origin subtracted.
    assert_eq!(
        map_cursor_to_frame((100, 200), None, (0, 0), None, 1920, 1080),
        Some((100, 200))
    );
    // Secondary monitor at -2560: origin shifted.
    assert_eq!(
        map_cursor_to_frame((-2500, 300), None, (-2560, 0), None, 2560, 1440),
        Some((60, 300))
    );
    // Region: origin + crop offset.
    assert_eq!(
        map_cursor_to_frame(
            (500, 400),
            None,
            (0, 0),
            Some((100, 100, 800, 600)),
            800,
            600
        ),
        Some((400, 300))
    );
    // Outside the feed hides the ring.
    assert_eq!(
        map_cursor_to_frame((50, 50), None, (0, 0), Some((100, 100, 800, 600)), 800, 600),
        None
    );
    // Window: live rect wins over origin/crop.
    assert_eq!(
        map_cursor_to_frame((1100, 500), Some((1000, 400)), (0, 0), None, 800, 600),
        Some((100, 100))
    );
}

#[test]
fn clicks_are_edges_on_the_feed() {
    let mut prev = (false, false);
    let at = |p, b, prev: &mut (bool, bool)| {
        sample_cursor(p, WindowCorner::NoWindow, (0, 0), None, 100, 100, b, prev)
    };
    assert_eq!(at(Some((5, 5)), (true, false), &mut prev), (Some((5, 5)), true));
    assert_eq!(at(Some((5, 5)), (true, false), &mut prev), (Some((5, 5)), false));
    assert_eq!(at(Some((500, 5)), (true, true), &mut prev), (None, false));
    assert_eq!(at(None, (false, false), &mut prev), (None, false));
    assert_eq!(prev, (true, true));
    let r = sample_cursor(
        Some((5, 5)),
        WindowCorner::Unknown,
        (0, 0),
        None,
        100,
        100,
        (true, true),
        &mut prev,
    );
    assert_eq!(r, (None, false));
    assert!(crop_fits((10, 10, 90, 90), 100, 100));
    assert!(!crop_fits((11, 10, 90, 90), 100, 100));
}

fn solid(w: u32, h: u32, px: [u8; 4]) -> Vec<u8> {
    let mut v = Vec::with_capacity((w * h * 4) as usize);
    for _ in 0..w * h {
        v.extend_from_slice(&px);
    }
    v
}

#[test]
fn adapt_same_size_is_identity() {
    let src = solid(4, 4, [10, 20, 30, 255]);
    assert_eq!(adapt_frame(4, 4, &src, 4, 4), src);
}

#[test]
fn adapt_pads_smaller_with_black_centered() {
    // 2x2 red onto 4x4: centered, 1px black border all around.
    let src = solid(2, 2, [0, 0, 255, 255]);
    let out = adapt_frame(2, 2, &src, 4, 4);
    assert_eq!(out.len(), 4 * 4 * 4);
    // Center pixel is red.
    assert_eq!(
        &out[(1 * 4 + 1) * 4..(1 * 4 + 1) * 4 + 4],
        &[0, 0, 255, 255]
    );
    // Corner is black pad.
    assert_eq!(&out[0..4], &[0, 0, 0, 0]);
}

#[test]
fn adapt_crops_larger_centered() {
    // 4x4 with a red center 2x2, cropped back to 2x2 keeps the red.
    let mut src = solid(4, 4, [0, 0, 0, 255]);
    for y in 1..3 {
        for x in 1..3 {
            let i = (y * 4 + x) * 4;
            src[i..i + 4].copy_from_slice(&[0, 0, 255, 255]);
        }
    }
    let out = adapt_frame(4, 4, &src, 2, 2);
    assert_eq!(out, solid(2, 2, [0, 0, 255, 255]));
}

#[test]
fn adapt_takes_frames_without_rows() {
    assert_eq!(adapt_frame(u32::MAX, 0, &[], 2, 1), vec![0u8; 8]);
    assert!(adapt_frame(1, 1, &[1, 2, 3, 4], u32::MAX, 0).is_empty());
}

#[test]
fn pad_then_crop_gives_the_frame_back() {
    let src: Vec<u8> = (0..3 * 2 * 4).map(|i| i as u8).collect();
    let padded = adapt_frame(3, 2, &src, 8, 7);
    assert_eq!(adapt_frame(8, 7, &padded, 3, 2), src);
}

#[test]
fn rgba_swaps_red_and_blue_in_place() {
    let mut buf = vec![10, 20, 30, 255, 1, 2, 3, 4];
    rgba_to_bgra_in_place(&mut buf);
    assert_eq!(buf, vec![30, 20, 10, 255, 3, 2, 1, 4]);
}

#[test]
fn swapping_twice_changes_nothing() {
    let src: Vec<u8> = (0..19).collect();
    let mut buf = src.clone();
    rgba_to_bgra_in_place(&mut buf);
    rgba_to_bgra_in_place(&mut buf);
    assert_eq!(buf, src);
    assert_eq!(bgra_to_opaque_rgba(&[1, 2, 3, 4]), vec![3, 2, 1, 255]);
}

#[test]
fn crop_takes_subrect() {
    // 4x2 frame, pixel value = x + 10*y (in R channel).
    let mut src = Vec::new();
    for y in 0..2u32 {
        for x in 0..4u32 {
            src.extend_from_slice(&[(x + 10 * y) as u8, 0, 0, 255]);
        }
    }
    let out = crop_rgba(&src, 4, 1, 0, 2, 2);
    assert_eq!(out.len(), 2 * 2 * 4);
    assert_eq!(out[0], 1);
    assert_eq!(out[4], 2);
    assert_eq!(out[8], 11);
}

fn px(r: u8, g: u8, b: u8) -> [u8; 4] {
    [b, g, r, 255] // BGRA memory order
}

#[test]
fn flip_swaps_rows_2x2() {
    // Row 0 (top): red, green. Row 1 (bottom): blue, white.
    let mut src = Vec::new();
    for p in [
        px(255, 0, 0),
        px(0, 255, 0),
        px(0, 0, 255),
        px(255, 255, 255),
    ] {
        src.extend_from_slice(&p);
    }
    let mut dst = Vec::new();
    let out = flip_rows_vertical(&src, 2, 2, &mut dst);
    // Bottom-to-top: blue, white first, then red, green.
    assert_eq!(&out[0..8], &[px(0, 0, 255), px(255, 255, 255)].concat());
    assert_eq!(&out[8..16], &[px(255, 0, 0), px(0, 255, 0)].concat());
}

#[test]
fn flip_keeps_middle_row_odd_height() {
    let mut src = Vec::new();
    for v in [10u8, 20, 30] {
        src.extend_from_slice(&[v, v, v, 255]);
    }
    let mut dst = Vec::new();
    let out = flip_rows_vertical(&src, 1, 3, &mut dst);
    assert_eq!(out[0], 30); // was bottom
    assert_eq!(out[4], 20); // middle stays
    assert_eq!(out[8], 10); // was top
}

#[test]
fn flip_reuses_destination_buffer() {
    let src = vec![1u8; 64 * 64 * 4];
    let mut dst = Vec::new();
    flip_rows_vertical(&src, 64, 64, &mut dst);
    let cap = dst.capacity();
    flip_rows_vertical(&src, 64, 64, &mut dst);
    assert_eq!(dst.capacity(), cap, "hot loop must not realloc");
    assert_eq!(dst.len(), 64 * 64 * 4);
}

#[test]
fn flipping_twice_changes_nothing() {
    let src: Vec<u8> = (0..3 * 5 * 4).map(|i| i as u8).collect();
    let mut a = Vec::new();
    let mut b = Vec::new();
    let once = flip_rows_vertical(&src, 3, 5, &mut a).to_vec();
    assert_eq!(flip_rows_vertical(&once, 3, 5, &mut b), &src[..]);
}

#[test]
fn pump_fits_frames_and_moves_the_cursor() {
    let mut p = Pump::new(4, 4, CursorFx::opt(true, true), preview_every(30));
    let f = RawFrame {
        w: 2,
        h: 2,
        bgra: solid(2, 2, [1, 2, 3, 255]),
        cursor: Some((0, 1)),
        clicked: true,
    };
    assert!(f.is_valid());
    let (g, message) = p.fit(f);
    assert!(message);
    assert_eq!((g.w, g.h, g.bgra.len()), (4, 4, 64));
    assert_eq!(g.cursor, Some((1, 2)));
    assert_eq!(p.stats.skipped, 1);
    let rings = p.cursor_rings(g.cursor, g.clicked, 0);
    assert_eq!(rings.len(), 2);
    for i in 0..20 {
        p.cursor_rings(Some((1, 1)), true, i);
    }
    assert!(p.ripples.len() <= MAX_RIPPLES);
    // Ripples live for 600 ms in the standard style.
    assert_eq!(p.cursor_rings(None, false, 10_000).len(), 0);
    assert!(p.ripples.is_empty());
    p.note_annotated(true);
    p.note_annotated(false);
    assert_eq!(p.stats.annotated_frames, 1);
    p.note_written();
    assert_eq!(p.stats.written, 1);
    assert_eq!(ring_alpha(255, 128), 128);
    assert_eq!(ring_alpha(0, 128), 0);
}

#[test]
fn interval_rounds_as_double_precision_does() {
    let interval = |fps: u32| Pacer::new(fps, 0).interval_ns;
    assert_eq!(interval(0), 1_000_000_000);
    assert_eq!(interval(30), 33_333_333);
    assert_eq!(interval(60), 16_666_667);
    // Half a nanosecond: to the even side, or where the double lies.
    assert_eq!(interval(1_024), 976_562);
    assert_eq!(interval(5_120), 195_313);
    assert_eq!(interval(16_000_000), 62);
    assert_eq!(interval(80_000_000), 12);
    assert_eq!(interval(u32::MAX), 0);
    for fps in (1..50_000).chain([16_000_000, 80_000_000, 400_000_000]) {
        let wait = std::time::Duration::from_secs_f64(1.0 / fps as f64);
        assert_eq!(interval(fps) as u128, wait.as_nanos(), "at {fps}");
    }
}

#[test]
fn pacer_spaces_frames() {
    let mut p = Pacer::new(10, 1_000);
    assert!(p.poll(1_000, 1_000));
    assert!(!p.poll(50_001_000, 50_001_000));
    assert!(p.poll(100_001_000, 100_001_000));
    // Far behind: start over from the later reading of the clock.
    assert!(p.poll(300_000_000, 2_000_000_000));
    assert_eq!(p.next_tick_ns, 2_100_000_000);
}

#[test]
fn gates_stop_pause_and_pace() {
    assert_eq!(record_gate(true, 0, None, true), Gate::Stop);
    assert_eq!(record_gate(false, 5, Some(5), false), Gate::Stop);
    assert_eq!(record_gate(false, 4, Some(5), true), Gate::Skip);
    assert_eq!(record_gate(false, 4, Some(5), false), Gate::Take);
    let mut p = Pacer::new(10, 0);
    assert_eq!(frame_gate(false, 0, 0, None, true, &mut p), Gate::Skip);
    assert_eq!(frame_gate(false, 0, 0, None, false, &mut p), Gate::Take);
    assert_eq!(frame_gate(false, 1, 1, None, false, &mut p), Gate::Skip);
}

#[test]
fn offers_and_failures_are_counted() {
    let mut c = FeedCounters::new();
    assert!(c.note(Offer::Sent));
    assert!(c.note(Offer::Full));
    assert!(!c.note(Offer::Gone));
    assert_eq!((c.sent, c.dropped), (1, 1));
    let mut r = Retries::new();
    assert_eq!(r.failed("x").unwrap(), true);
    assert_eq!(r.failed("x").unwrap(), false);
    r.succeeded();
    for _ in 0..MAX_CONSEC_ERRORS - 1 {
        assert!(r.failed("x").is_ok());
    }
    let e = r.failed("no access").unwrap_err();
    assert_eq!(
        e.message(),
        "capture backend failed: window capture failed 300x in a row (closed? Wayland blocks window screenshots): no access"
    );
}

/// The rims of a ring, and a colour mixed in by opacity or added.
#[allow(clippy::too_many_arguments)]
fn ring(
    frame: &mut [u8],
    (w, h): (u32, u32),
    at: (i32, i32),
    radius: f32,
    thick: f32,
    color: (u8, u8, u8),
    alpha: u8,
    additive: bool,
) {
    let r_out = radius + thick / 2.0;
    let r_in = (radius - thick / 2.0).max(0.0);
    blend_ring(frame, w, h, at, r_out.ceil() as u32, |dx, dy, (b, g, r)| {
        let d = (dx as f32).hypot(dy as f32);
        if d < r_in || d > r_out {
            return (b, g, r);
        }
        let a = alpha as f32 / 255.0 * (d - r_in).min(r_out - d).clamp(0.0, 1.0);
        let mix = |c: u8, under: u8| {
            if additive {
                (under as f32 + c as f32 * a).min(255.0) as u8
            } else {
                (c as f32 * a + under as f32 * (1.0 - a)) as u8
            }
        };
        (mix(color.2, b), mix(color.1, g), mix(color.0, r))
    });
}

#[test]
fn ring_lands_on_circumference_not_center() {
    let mut frame = solid(40, 40, [0, 0, 0, 255]);
    ring(&mut frame, (40, 40), (20, 20), 8.0, 3.0, (255, 210, 0), 255, false);
    // Center untouched.
    assert_eq!(
        &frame[(20 * 40 + 20) * 4..(20 * 40 + 20) * 4 + 4],
        &[0, 0, 0, 255]
    );
    // East point on the ring is yellow (BGRA memory order).
    let i = (20 * 40 + 28) * 4;
    assert_eq!(frame[i + 2], 255);
    assert!(frame[i + 1] > 100);
    // Far corner untouched.
    assert_eq!(&frame[0..4], &[0, 0, 0, 255]);
}

#[test]
fn ring_clips_at_edges_without_panic() {
    let mut frame = solid(10, 10, [5, 5, 5, 255]);
    ring(&mut frame, (10, 10), (0, 0), 8.0, 3.0, (255, 210, 0), 255, false);
    assert_eq!(frame.len(), 10 * 10 * 4);
    // Zero alpha is a no-op.
    let before = frame.clone();
    ring(&mut frame, (10, 10), (5, 5), 4.0, 2.0, (255, 210, 0), 0, false);
    assert_eq!(frame, before);
}

#[test]
fn ring_additive_brightens_instead_of_replacing() {
    // Mid-gray frame: normal blend pulls toward red, additive adds red.
    let mut normal = solid(40, 40, [128, 128, 128, 255]);
    ring(&mut normal, (40, 40), (20, 20), 8.0, 3.0, (255, 0, 0), 255, false);
    let mut add = solid(40, 40, [128, 128, 128, 255]);
    ring(&mut add, (40, 40), (20, 20), 8.0, 3.0, (255, 0, 0), 255, true);
    let i = (20 * 40 + 28) * 4;
    // Normal src-over with opaque red: green channel collapses.
    assert!(normal[i + 1] < 30, "normal blend replaces, got {}", normal[i + 1]);
    // Additive: red channel saturates, green only gains edge AA (< full).
    assert_eq!(add[i + 2], 255);
    assert!(add[i + 1] >= 128, "additive never darkens, got {}", add[i + 1]);
    // Translucent additive still adds (proportionally).
    let mut half = solid(40, 40, [100, 100, 100, 255]);
    ring(&mut half, (40, 40), (20, 20), 8.0, 3.0, (200, 0, 0), 128, true);
    assert!(half[i + 2] > 100 && half[i + 2] < 255);
}

#[test]
fn rings_shade_the_square_on_the_frame() {
    let paint = |dx: i32, dy: i32, _: (u8, u8, u8)| ((dx + 10) as u8, (dy + 10) as u8, 9);
    let mut frame = solid(4, 3, [0, 0, 0, 255]);
    blend_ring(&mut frame, 4, 3, (0, 1), 1, paint);
    for y in 0..3usize {
        for x in 0..4usize {
            let i = (y * 4 + x) * 4;
            let want = if x <= 1 { [x as u8 + 10, y as u8 + 9, 9, 255] } else { [0, 0, 0, 255] };
            assert_eq!(&frame[i..i + 4], &want);
        }
    }
    // A centre off the frame draws nothing, however far it reaches.
    let before = frame.clone();
    for at in [(-1, 0), (0, -1), (4, 0), (0, 3)] {
        blend_ring(&mut frame, 4, 3, at, 100, paint);
    }
    assert_eq!(frame, before);
}

#[test]
fn rings_off_the_canvas_are_left_out() {
    let mut p = Pump::new(4, 4, CursorFx::opt(true, true), preview_every(30));
    assert_eq!(p.cursor_rings(Some((4, 0)), true, 0).len(), 0);
    assert_eq!(p.ripples.len(), 1);
    let rings = p.cursor_rings(Some((3, 3)), true, 0);
    assert_eq!(rings.iter().map(|r| (r.x, r.y)).collect::<Vec<_>>(), [(3, 3), (3, 3)]);
    assert_eq!(p.cursor_rings(Some((-1, 2)), false, 0).len(), 1);
}

#[test]
fn a_cut_out_of_a_cut_out_is_one_cut() {
    let src: Vec<u8> = (0..7 * 5 * 4).map(|i| i as u8).collect();
    let outer = crop_rgba(&src, 7, 1, 1, 5, 3);
    assert_eq!(crop_rgba(&outer, 5, 2, 1, 3, 2), crop_rgba(&src, 7, 3, 2, 3, 2));
}

#[test]
fn recordings_end_on_request_or_in_time() {
    assert!(is_over(true, 0, None));
    assert!(!is_over(false, u64::MAX, None));
    assert!(!is_over(false, 4, Some(5)));
    assert!(is_over(false, 5, Some(5)));
}
