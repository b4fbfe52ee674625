use qcapture::annotate::{
    copy_strokes, font_candidates, smooth_polyline, AnnotateDoc, AnnotateError, DrawEvent, Rgba,
    Stroke, Tool,
};
use qcapture::raster::{blend_region, sort_by_time, stroke_prims, Annotator, BBox, Prim, RasterOp};
use qcapture::single::F32;

fn f(x: f32) -> F32 {
    F32 { bits: x.to_bits() }
}

fn points(v: &[(f32, f32)]) -> Vec<(F32, F32)> {
    v.iter().map(|&(x, y)| (f(x), f(y))).collect()
}

fn value(x: F32) -> f32 {
    f32::from_bits(x.bits)
}

fn stroke(pts: &[(f32, f32)], color: Rgba, width: f32, tool: Tool, appear_ms: u64) -> Stroke {
    Stroke {
        points: points(pts),
        color,
        width_px: f(width),
        tool,
        text: None,
        appear_ms,
        font_px: None,
        filled: false,
        font_path: None,
    }
}

#[test]
fn clamp_and_roundtrip() {
    let mut doc = AnnotateDoc::default();
    doc.add_stroke(stroke(
        &[(-0.5, 2.0), (0.5, 0.5)],
        Rgba(255, 0, 0, 255),
        3.0,
        Tool::Pen,
        0,
    ))
    .unwrap();
    assert_eq!(doc.strokes[0].points[0], (f(0.0), f(1.0)));
    assert_eq!(doc.strokes[0].points[1], (f(0.5), f(0.5)));
    // The document itself survives being copied.
    assert_eq!(copy_strokes(&doc.strokes), doc.strokes);
}

fn smooth(pts: &[(f32, f32)], n: usize) -> Vec<(f32, f32)> {
    smooth_polyline(pts, n, |a: (f32, f32), b: (f32, f32)| {
        (0.75 * a.0 + 0.25 * b.0, 0.75 * a.1 + 0.25 * b.1)
    })
}

#[test]
fn smooth_keeps_endpoints_and_degenerates() {
    assert!(smooth(&[], 2).is_empty());
    assert_eq!(smooth(&[(0.5, 0.5)], 2), vec![(0.5, 0.5)]);
    let two = vec![(0.0, 0.0), (1.0, 1.0)];
    assert_eq!(smooth(&two, 2), two);
    assert_eq!(smooth(&two, 0), two);
}

#[test]
fn smooth_grows_and_rounds_corners() {
    // Right angle: one iteration turns 3 points into 6 (endpoints plus
    // Q+R per segment): [(0,0),(.25,0),(.75,0),(1,.25),(1,.75),(1,1)].
    let pts = vec![(0.0, 0.0), (1.0, 0.0), (1.0, 1.0)];
    let out = smooth(&pts, 1);
    assert_eq!(out.len(), 6);
    assert_eq!(out[0], (0.0, 0.0));
    assert_eq!(out[5], (1.0, 1.0));
    assert_eq!(out[1], (0.25, 0.0));
    assert_eq!(out[2], (0.75, 0.0));
    // Corner is cut: no output point sits exactly on the (1,0) corner.
    assert!(out.iter().all(|&(x, y)| (x, y) != (1.0, 0.0)));
    // Straight lines stay straight (y == 0 throughout).
    let line: Vec<(f32, f32)> = (0..5).map(|i| (i as f32, 0.0)).collect();
    let smoothed = smooth(&line, 2);
    assert_eq!(smoothed.first().unwrap(), &(0.0, 0.0));
    assert_eq!(smoothed.last().unwrap(), &(4.0, 0.0));
    assert!(smoothed.iter().all(|&(_, y)| y.abs() < 1e-5));
}

#[test]
fn rejects_empty() {
    let mut doc = AnnotateDoc::default();
    let r = doc.add_stroke(stroke(&[], Rgba(0, 0, 0, 255), 2.0, Tool::Line, 0));
    assert!(r.is_err());
    assert_eq!(r.unwrap_err().message(), "stroke has no points");
    assert_eq!(AnnotateError::Io("x".to_string()).message(), "io: x");
    assert_eq!(AnnotateError::Json("x".to_string()).message(), "json: x");
}

#[test]
fn documents_clear_and_name_their_file() {
    let mut doc = AnnotateDoc::default();
    doc.add_stroke(stroke(&[(0.1, 0.1)], Rgba(0, 0, 0, 255), 2.0, Tool::Pen, 0)).unwrap();
    doc.clear();
    assert!(doc.strokes.is_empty() && doc.watermarks.is_empty());
    assert_eq!(AnnotateDoc::sidecar_path_for("a.mp4"), "a.mp4.qcap.json");
    let fonts = font_candidates(Some("C:\\Windows"));
    assert_eq!(fonts.len(), 3);
    assert_eq!(fonts[0], "C:\\Windows\\Fonts\\arial.ttf");
    assert_eq!(font_candidates(None).len(), 2);
}

#[test]
fn times_are_sorted_and_ties_keep_their_order() {
    assert_eq!(sort_by_time(&vec![30, 10, 30, 0]), vec![3, 1, 0, 2]);
}

#[test]
fn boxes_join_and_clamp() {
    let mut b = BBox::empty();
    assert!(b.is_empty());
    b.union(BBox { x0: 5, y0: 6, x1: 7, y1: 8 });
    b.union(BBox { x0: -5, y0: 7, x1: 6, y1: 20 });
    assert_eq!(b, BBox { x0: -5, y0: 6, x1: 7, y1: 20 });
    assert_eq!(b.clamp(6, 10), BBox { x0: 0, y0: 6, x1: 6, y1: 10 });
}

// ---- a small stage that draws pens and lines as the recorder does ----

struct Stage {
    w: i32,
    h: i32,
    layer: Vec<u8>,
    live: Vec<u8>,
}

fn src_over(ink: u8, under: u8, opacity: u8) -> u8 {
    let a = opacity as f32 / 255.0;
    (ink as f32 * a + under as f32 * (1.0 - a)) as u8
}

fn put(layer: &mut [u8], w: i32, h: i32, x: i32, y: i32, c: &Rgba, cov: f32) {
    if x < 0 || y < 0 || x >= w || y >= h {
        return;
    }
    let i = ((y * w + x) * 4) as usize;
    let a = cov * c.3 as f32 / 255.0;
    let inv = 1.0 - a;
    layer[i] = (c.0 as f32 * a + layer[i] as f32 * inv) as u8;
    layer[i + 1] = (c.1 as f32 * a + layer[i + 1] as f32 * inv) as u8;
    layer[i + 2] = (c.2 as f32 * a + layer[i + 2] as f32 * inv) as u8;
    layer[i + 3] = ((a + layer[i + 3] as f32 / 255.0 * inv) * 255.0) as u8;
}

fn stamp(layer: &mut [u8], w: i32, h: i32, cx: i32, cy: i32, radius: f32, c: &Rgba) {
    let r = (radius.ceil() as i32).max(1);
    for y in (cy - r)..=(cy + r) {
        for x in (cx - r)..=(cx + r) {
            let d = (((x - cx) as f32).powi(2) + ((y - cy) as f32).powi(2)).sqrt();
            if d <= radius + 0.5 {
                put(layer, w, h, x, y, c, (radius + 0.5 - d).clamp(0.0, 1.0));
            }
        }
    }
}

impl Stage {
    fn new(w: i32, h: i32) -> Self {
        let n = (w * h * 4) as usize;
        Stage { w, h, layer: vec![0; n], live: vec![0; n] }
    }

    fn draw(layer: &mut Vec<u8>, w: i32, h: i32, s: &Stroke) -> BBox {
        let pts: Vec<(i32, i32)> = s
            .points
            .iter()
            .map(|p| {
                (
                    (value(p.0) * w as f32).round() as i32,
                    (value(p.1) * h as f32).round() as i32,
                )
            })
            .collect();
        let width = value(s.width_px).max(1.0);
        for prim in stroke_prims(s, &pts) {
            match prim {
                Prim::Stamp(a) => stamp(layer, w, h, a.0, a.1, width / 2.0, &s.color),
                Prim::Segment(a, b) => {
                    let len = ((b.0 - a.0) as f32).hypot((b.1 - a.1) as f32).max(1.0);
                    let steps = len.ceil() as i32;
                    for i in 0..=steps {
                        let t = i as f32 / steps as f32;
                        let x = (a.0 as f32 + (b.0 - a.0) as f32 * t).round() as i32;
                        let y = (a.1 as f32 + (b.1 - a.1) as f32 * t).round() as i32;
                        stamp(layer, w, h, x, y, width / 2.0, &s.color);
                    }
                }
                Prim::FillRect(c) => {
                    for y in c.y0..c.y1 {
                        for x in c.x0..c.x1 {
                            put(layer, w, h, x, y, &s.color, 1.0);
                        }
                    }
                }
                _ => unreachable!(),
            }
        }
        BBox { x0: 0, y0: 0, x1: w, y1: h }
    }

    fn play(&mut self, ann: &mut Annotator, ops: Vec<RasterOp>) {
        for op in ops {
            match op {
                RasterOp::ClearMain => self.layer.fill(0),
                RasterOp::ClearLive => self.live.fill(0),
                RasterOp::Stroke(i) => {
                    let s = ann.doc.strokes[i].clone();
                    let bb = Self::draw(&mut self.layer, self.w, self.h, &s);
                    ann.note_drawn(bb);
                }
                RasterOp::Watermark(_) => unreachable!(),
                RasterOp::Live(s) => {
                    self.live.fill(0);
                    let bb = Self::draw(&mut self.live, self.w, self.h, &s);
                    ann.note_live(bb);
                }
            }
        }
    }

    fn blend(&self, ann: &Annotator, frame: &mut [u8]) -> usize {
        ann.blend_bgra(frame, &self.layer, &self.live, &src_over)
    }

    fn until(&mut self, ann: &mut Annotator, now: u64) {
        let ops = ann.apply_until(now);
        self.play(ann, ops);
    }

    fn event(&mut self, ann: &mut Annotator, ev: DrawEvent, now: u64) {
        let ops = ann.apply_event(ev, now);
        self.play(ann, ops);
    }
}

fn red_line_doc() -> AnnotateDoc {
    let mut doc = AnnotateDoc::default();
    doc.canvas_w = 100;
    doc.canvas_h = 100;
    doc.add_stroke(stroke(
        &[(0.1, 0.5), (0.9, 0.5)],
        Rgba(255, 0, 0, 255),
        3.0,
        Tool::Line,
        0,
    ))
    .unwrap();
    doc
}

#[test]
fn line_lands_on_expected_pixels() {
    let mut stage = Stage::new(100, 100);
    let mut ann = Annotator::new(red_line_doc(), 100, 100);
    stage.until(&mut ann, 0);
    // y=50 row, middle of the line must be opaque red.
    let i = (50 * 100 + 50) * 4;
    assert_eq!(&stage.layer[i..i + 4], &[255, 0, 0, 255]);
    // Far corner untouched.
    let j = (5 * 100 + 5) * 4;
    assert_eq!(&stage.layer[j..j + 4], &[0, 0, 0, 0]);
}

#[test]
fn blend_is_src_over_and_coverage_persists() {
    let mut stage = Stage::new(100, 100);
    let mut ann = Annotator::new(red_line_doc(), 100, 100);
    stage.until(&mut ann, 0);
    // Black BGRA frame.
    let mut frame = vec![0u8; 100 * 100 * 4];
    let n = stage.blend(&ann, &mut frame);
    assert!(n > 200, "line should touch hundreds of pixels, got {n}");
    let i = (50 * 100 + 50) * 4;
    // BGRA memory order: B=0, G=0, R=255.
    assert_eq!(frame[i], 0);
    assert_eq!(frame[i + 1], 0);
    assert_eq!(frame[i + 2], 255);
    // Overlay persists: a fresh video frame blends the same pixels again.
    let mut frame2 = vec![10u8; 100 * 100 * 4];
    assert_eq!(stage.blend(&ann, &mut frame2), n);
    assert_eq!(frame2[i + 2], 255);
}

#[test]
fn strokes_appear_by_timestamp() {
    let mut doc = red_line_doc();
    doc.add_stroke(stroke(
        &[(0.1, 0.1), (0.9, 0.1)],
        Rgba(0, 255, 0, 255),
        3.0,
        Tool::Line,
        2000,
    ))
    .unwrap();
    let mut stage = Stage::new(100, 100);
    let mut ann = Annotator::new(doc, 100, 100);
    stage.until(&mut ann, 0);
    // Green line (y=10) not yet rasterized.
    let i = (10 * 100 + 50) * 4;
    assert_eq!(&stage.layer[i..i + 4], &[0, 0, 0, 0]);
    stage.until(&mut ann, 2500);
    assert_eq!(&stage.layer[i..i + 4], &[0, 255, 0, 255]);
}

#[test]
fn filled_rect_covers_interior() {
    let mut s = stroke(
        &[(0.2, 0.2), (0.8, 0.8)],
        Rgba(0, 0, 255, 255),
        2.0,
        Tool::Rect,
        0,
    );
    s.filled = true;
    let mut doc = AnnotateDoc::default();
    doc.add_stroke(s.clone()).unwrap();
    let mut stage = Stage::new(100, 100);
    let mut ann = Annotator::new(doc, 100, 100);
    stage.until(&mut ann, 0);
    let i = (50 * 100 + 50) * 4;
    assert_eq!(&stage.layer[i..i + 4], &[0, 0, 255, 255]);
    // Without the flag the middle stays free.
    s.filled = false;
    let mut doc = AnnotateDoc::default();
    doc.add_stroke(s).unwrap();
    let mut stage = Stage::new(100, 100);
    let mut ann = Annotator::new(doc, 100, 100);
    stage.until(&mut ann, 0);
    assert_eq!(&stage.layer[i..i + 4], &[0, 0, 0, 0]);
}

fn live_red_dot() -> Stroke {
    stroke(&[(0.5, 0.5)], Rgba(255, 0, 0, 255), 6.0, Tool::Pen, 0)
}

#[test]
fn live_event_rasterizes_and_undo_rebuilds() {
    let mut stage = Stage::new(100, 100);
    let mut ann = Annotator::new(AnnotateDoc::default(), 100, 100);
    // Empty overlay blends nothing.
    let mut frame = vec![0u8; 100 * 100 * 4];
    assert_eq!(stage.blend(&ann, &mut frame), 0);
    // Live stroke appears immediately at pump clock.
    stage.event(&mut ann, DrawEvent::AddStroke(live_red_dot()), 5000);
    let n = stage.blend(&ann, &mut frame);
    assert!(n > 10, "live dot should blend pixels, got {n}");
    let i = (50 * 100 + 50) * 4;
    assert_eq!(frame[i + 2], 255);
    // Undo removes it: rebuild leaves a clean layer.
    stage.event(&mut ann, DrawEvent::Undo, 5000);
    let mut frame2 = vec![0u8; 100 * 100 * 4];
    assert_eq!(stage.blend(&ann, &mut frame2), 0);
}

#[test]
fn live_and_timed_strokes_coexist() {
    let mut stage = Stage::new(100, 100);
    let mut ann = Annotator::new(red_line_doc(), 100, 100);
    stage.until(&mut ann, 0);
    stage.event(&mut ann, DrawEvent::AddStroke(live_red_dot()), 100);
    let mut frame = vec![0u8; 100 * 100 * 4];
    let n = stage.blend(&ann, &mut frame);
    assert!(n > 200, "both strokes should blend, got {n}");
    // Scripted line pixel (y=50, x=20) still red.
    let i = (50 * 100 + 20) * 4;
    assert_eq!(frame[i + 2], 255);
}

fn live_pen(color: (u8, u8, u8), pts: &[(f32, f32)]) -> DrawEvent {
    DrawEvent::PenLive {
        color: Rgba(color.0, color.1, color.2, 255),
        width_px: f(6.0),
        points: points(pts),
    }
}

#[test]
fn pen_live_shows_before_commit() {
    let mut stage = Stage::new(100, 100);
    let mut ann = Annotator::new(AnnotateDoc::default(), 100, 100);
    // Partial stream previews immediately, without any commit.
    stage.event(&mut ann, live_pen((255, 0, 0), &[(0.2, 0.5), (0.4, 0.5)]), 1000);
    let mut frame = vec![0u8; 100 * 100 * 4];
    let n = stage.blend(&ann, &mut frame);
    assert!(n > 10, "live preview should blend pixels, got {n}");
    assert_eq!(ann.doc.strokes.len(), 0, "nothing committed yet");
}

#[test]
fn pen_live_resend_replaces_without_doubling() {
    let mut stage = Stage::new(100, 100);
    let mut ann = Annotator::new(AnnotateDoc::default(), 100, 100);
    let pts = [(0.2, 0.5), (0.4, 0.5)];
    stage.event(&mut ann, live_pen((255, 0, 0), &pts), 1000);
    let mut f1 = vec![0u8; 100 * 100 * 4];
    stage.blend(&ann, &mut f1);
    // Same points resent (throttle overlap): identical pixels, no buildup.
    stage.event(&mut ann, live_pen((255, 0, 0), &pts), 1100);
    let mut f2 = vec![0u8; 100 * 100 * 4];
    stage.blend(&ann, &mut f2);
    assert_eq!(f1, f2, "resend must replace, not accumulate");
}

#[test]
fn pen_commit_clears_live_without_doubling() {
    let pts = [(0.2, 0.5), (0.4, 0.5), (0.6, 0.5)];
    let commit = || DrawEvent::AddStroke(stroke(&pts, Rgba(255, 0, 0, 255), 6.0, Tool::Pen, 0));
    let mut stage = Stage::new(100, 100);
    let mut ann = Annotator::new(AnnotateDoc::default(), 100, 100);
    stage.event(&mut ann, live_pen((255, 0, 0), &pts), 1000);
    // Commit the same stroke: live preview drops, committed raster lands.
    stage.event(&mut ann, commit(), 1200);
    assert_eq!(ann.doc.strokes.len(), 1);
    let mut frame = vec![0u8; 100 * 100 * 4];
    let n = stage.blend(&ann, &mut frame);
    assert!(n > 10);
    // Reference: same stroke committed with no live phase at all.
    let mut stage2 = Stage::new(100, 100);
    let mut ann2 = Annotator::new(AnnotateDoc::default(), 100, 100);
    stage2.event(&mut ann2, commit(), 1200);
    let mut frame2 = vec![0u8; 100 * 100 * 4];
    stage2.blend(&ann2, &mut frame2);
    assert_eq!(frame, frame2, "commit after live == clean commit");
}

#[test]
fn pen_live_cancelled_by_undo_and_timeout() {
    let mut stage = Stage::new(100, 100);
    let mut ann = Annotator::new(AnnotateDoc::default(), 100, 100);
    stage.event(&mut ann, live_pen((255, 0, 0), &[(0.2, 0.5), (0.4, 0.5)]), 1000);
    // Undo cancels the open stroke.
    stage.event(&mut ann, DrawEvent::Undo, 1100);
    let mut frame = vec![0u8; 100 * 100 * 4];
    assert_eq!(stage.blend(&ann, &mut frame), 0);

    // Stale preview (lost commit) expires via the pump clock.
    stage.event(&mut ann, live_pen((255, 0, 0), &[(0.2, 0.5), (0.4, 0.5)]), 2000);
    stage.until(&mut ann, 2000 + 2001);
    let mut frame2 = vec![0u8; 100 * 100 * 4];
    assert_eq!(stage.blend(&ann, &mut frame2), 0, "stale live must expire");
}

#[test]
fn a_due_stroke_is_not_skipped_by_a_live_one() {
    let mut doc = red_line_doc();
    doc.strokes[0].appear_ms = 1000;
    let mut ann = Annotator::new(doc, 100, 100);
    assert!(ann.apply_until(0).is_empty());
    let ops = ann.apply_event(DrawEvent::AddStroke(live_red_dot()), 1500);
    assert_eq!(ops, vec![RasterOp::ClearLive, RasterOp::Stroke(0), RasterOp::Stroke(1)]);
    assert!(ann.apply_until(2000).is_empty());
    // Clearing wipes both layers and the document.
    let ops = ann.apply_event(DrawEvent::Clear, 2000);
    assert!(ops.contains(&RasterOp::ClearMain));
    assert!(ann.doc.strokes.is_empty() && ann.is_empty());
}

#[test]
fn frames_in_between_draw_each_stroke_once() {
    let doc = || {
        let mut d = AnnotateDoc::default();
        for ms in [300, 0, 100, 100] {
            let s = stroke(&[(0.1, 0.1), (0.2, 0.2)], Rgba(1, 2, 3, 255), 2.0, Tool::Line, ms);
            d.add_stroke(s).unwrap();
        }
        d
    };
    let mut once = Annotator::new(doc(), 64, 64);
    let whole = once.apply_until(300);
    let in_order = [1usize, 2, 3, 0].map(RasterOp::Stroke).to_vec();
    assert_eq!(whole, in_order);
    let mut stepped = Annotator::new(doc(), 64, 64);
    let mut steps = Vec::new();
    for now in [0, 50, 100, 100, 299, 300, 300] {
        steps.extend(stepped.apply_until(now));
    }
    assert_eq!(steps, in_order);
}

#[test]
fn blending_touches_inked_pixels_of_the_box_only() {
    // 3x2 layer: ink at (0, 0), (1, 0) and (2, 1), a different red each.
    let mut layer = vec![0u8; 3 * 2 * 4];
    for (x, y, red) in [(0usize, 0usize, 10u8), (1, 0, 20), (2, 1, 30)] {
        let i = (y * 3 + x) * 4;
        layer[i..i + 4].copy_from_slice(&[red, 1, 2, 200]);
    }
    let top = |ink: u8, _: u8, opacity: u8| ink + (opacity - 200);
    let mut frame = vec![7u8; 3 * 2 * 4];
    let bb = BBox { x0: 1, y0: -5, x1: 9, y1: 9 };
    assert_eq!(blend_region(&mut frame, &layer, 3, 2, bb, &top), 2);
    assert_eq!(&frame[0..4], &[7, 7, 7, 7]);
    assert_eq!(&frame[4..8], &[2, 1, 20, 7]);
    assert_eq!(&frame[20..24], &[2, 1, 30, 7]);
    let before = frame.clone();
    assert_eq!(blend_region(&mut frame, &layer, 3, 2, BBox::empty(), &top), 0);
    assert_eq!(frame, before);
}

#[test]
fn overlay_blends_both_layers_and_keeps_the_rest() {
    let mut ann = Annotator::new(AnnotateDoc::default(), 2, 2);
    let mut layer = vec![0u8; 16];
    let mut live = vec![0u8; 16];
    layer[0..4].copy_from_slice(&[1, 2, 3, 255]);
    layer[4..8].copy_from_slice(&[4, 5, 6, 255]);
    live[4..8].copy_from_slice(&[40, 50, 60, 255]);
    live[12..16].copy_from_slice(&[70, 80, 90, 255]);
    let top = |ink: u8, _: u8, _: u8| ink;
    let mut frame = vec![9u8; 16];
    // Nothing was drawn: ink outside the boxes does not count.
    assert_eq!(ann.blend_bgra(&mut frame, &layer, &live, &top), 0);
    assert_eq!(frame, vec![9u8; 16]);
    ann.note_drawn(BBox { x0: 0, y0: 0, x1: 2, y1: 2 });
    ann.note_live(BBox { x0: 1, y0: 0, x1: 2, y1: 1 });
    // The stroke in progress lies on top; the fourth bytes stay.
    assert_eq!(ann.blend_bgra(&mut frame, &layer, &live, &top), 3);
    assert_eq!(frame, [3, 2, 1, 9, 60, 50, 40, 9, 9, 9, 9, 9, 9, 9, 9, 9]);
    // Another frame gets as many.
    let mut other = vec![200u8; 16];
    assert_eq!(ann.blend_bgra(&mut other, &layer, &live, &top), 3);
    assert_eq!(&other[8..16], &[200u8; 8]);
}

#[test]
fn boxes_join_in_any_grouping() {
    let joined = |mut a: BBox, b: BBox| {
        a.union(b);
        a
    };
    let a = BBox { x0: 0, y0: 0, x1: 2, y1: 2 };
    let b = BBox { x0: 5, y0: -1, x1: 6, y1: 1 };
    let c = BBox { x0: 1, y0: 8, x1: 3, y1: 9 };
    for (a, b, c) in [(a, b, c), (BBox::empty(), b, c), (a, BBox::empty(), c), (a, b, BBox::empty())] {
        assert_eq!(joined(joined(a, b), c), joined(a, joined(b, c)));
    }
}
