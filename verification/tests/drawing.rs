use qcapture::annotate::{DrawEvent, Tool};
use qcapture::capture::RgbaShot;
use qcapture::draw_panel::{counts_label, feed_label, DrawPanel, DrawWindowResult};
use qcapture::editor::{region_phys, DrawTool, EditorApp, Phase, RecordPress};
use qcapture::gesture::Pointer;
use qcapture::picker::{
    backdrop_fits, shown_physical, size_label, to_physical, Live, MonitorGeom, PickerApp,
};
use qcapture::pump::PreviewFrame;
use qcapture::single::F32;
use qcapture::types::Rect;

type Pos = (f32, f32);

fn f(x: f32) -> F32 {
    F32 { bits: x.to_bits() }
}

fn value(x: F32) -> f32 {
    f32::from_bits(x.bits)
}

fn quarter(a: Pos, b: Pos) -> Pos {
    (0.75 * a.0 + 0.25 * b.0, 0.75 * a.1 + 0.25 * b.1)
}

// ---- the live panel: 800x800 window, 640x480 feed, picture at y 100..700 ----

struct Hand {
    panel: DrawPanel<Pos>,
    now: u64,
    events: Vec<DrawEvent>,
}

fn norm(p: Pos) -> Option<(F32, F32)> {
    let (x, y) = (p.0 / 800.0, (p.1 - 100.0) / 600.0);
    if (0.0..=1.0).contains(&x) && (0.0..=1.0).contains(&y) {
        Some((f(x), f(y)))
    } else {
        None
    }
}

impl Hand {
    fn new() -> Self {
        Hand { panel: DrawPanel::new(640, 480, 0), now: 0, events: Vec::new() }
    }

    fn path(&self) -> Vec<(F32, F32)> {
        self.panel.smooth_active(quarter).into_iter().filter_map(norm).collect()
    }

    fn turn(&mut self, pos: Pos, pressed: bool, down: bool, released: bool) {
        self.now += 16_000_000;
        let p = Pointer { pos, pressed, down, released };
        let moved = match self.panel.gestures.active_pen.last() {
            Some(l) => (l.0 - pos.0).hypot(l.1 - pos.1) >= 2.0,
            None => false,
        };
        if self.panel.pen_move(p, norm(pos).is_some(), moved, self.now) {
            let pts = self.path();
            let ev = self.panel.send_live(pts, f(4.0), self.now);
            self.events.extend(ev);
        }
        let pts = self.path();
        if self.panel.gestures.pen_end(p).is_some() {
            let ev = self.panel.push_stroke(pts, Tool::Pen, None, f(4.0));
            self.events.extend(ev);
        }
    }
}

#[test]
fn drag_streams_live_then_commits() {
    let mut h = Hand::new();
    // Vertical drag, 10 moves of 30px: 11 raw points trip the throttle.
    h.turn((400.0, 250.0), true, true, false);
    for i in 1..=10 {
        h.turn((400.0, 250.0 + i as f32 * 30.0), false, true, false);
    }
    let live: Vec<_> = h
        .events
        .drain(..)
        .filter_map(|ev| match ev {
            DrawEvent::PenLive { points, .. } => Some(points),
            _ => None,
        })
        .collect();
    assert!(!live.is_empty(), "drag must stream PenLive previews");
    // Live stream starts at the drag origin (norm x=0.5, y=0.25).
    let first = &live[0];
    assert!((value(first[0].0) - 0.5).abs() < 0.02);
    assert!((value(first[0].1) - 0.25).abs() < 0.02);

    h.turn((400.0, 550.0), false, false, true);
    h.turn((400.0, 550.0), false, false, false);
    let mut commits = 0;
    for ev in h.events.drain(..) {
        if let DrawEvent::AddStroke(s) = ev {
            commits += 1;
            // Smoothing preserves endpoints: commit spans the drag.
            assert!((value(s.points[0].0) - 0.5).abs() < 0.02);
            assert!((value(s.points[0].1) - 0.25).abs() < 0.02);
            let last = s.points.last().unwrap();
            assert!((value(last.0) - 0.5).abs() < 0.02);
            assert!((value(last.1) - 0.75).abs() < 0.02);
        }
    }
    assert_eq!(commits, 1, "exactly one commit on release");
    assert_eq!(h.panel.stroke_count(), 1);
}

#[test]
fn click_without_drag_commits_dot() {
    let mut h = Hand::new();
    h.turn((400.0, 400.0), true, true, false);
    h.turn((400.0, 400.0), false, false, true);
    let commits: Vec<_> = h
        .events
        .drain(..)
        .filter_map(|ev| match ev {
            DrawEvent::AddStroke(s) => Some(s),
            _ => None,
        })
        .collect();
    assert_eq!(commits.len(), 1);
    assert_eq!(commits[0].points.len(), 1, "click draws a dot");
    // The committed stroke stays until it is undone.
    assert_eq!(h.panel.doc().strokes, h.panel.strokes);
    assert_eq!(h.panel.undo(), DrawEvent::Undo);
    assert_eq!(h.panel.stroke_count(), 0);
}

#[test]
fn undo_gives_up_the_gesture() {
    let mut h = Hand::new();
    h.turn((400.0, 400.0), true, true, false);
    h.panel.undo();
    h.turn((400.0, 500.0), false, true, false);
    h.turn((400.0, 500.0), false, false, true);
    assert!(h.events.is_empty());
    assert_eq!(h.panel.clear(), DrawEvent::Clear);
}

#[test]
fn panel_strokes_have_their_sizes() {
    let mut p: DrawPanel<Pos> = DrawPanel::new(10, 480, 0);
    assert_eq!(p.feed_size(), (64, 480));
    let two = || vec![(f(0.1), f(0.1)), (f(0.2), f(0.2))];
    assert!(p.push_stroke(vec![], Tool::Pen, None, f(1.0)).is_none());
    assert!(p.push_stroke(vec![(f(0.1), f(0.1))], Tool::Rect, None, f(1.0)).is_none());
    match p.push_stroke(two(), Tool::Rect, None, f(0.5)) {
        Some(DrawEvent::AddStroke(s)) => {
            assert_eq!((s.width_px, s.font_px), (f(1.0), Some(f(40.0))));
        }
        other => panic!("{other:?}"),
    }
    match p.push_stroke(vec![(f(0.1), f(0.1))], Tool::Text, Some("hi".to_string()), f(3.0)) {
        Some(DrawEvent::AddStroke(s)) => {
            assert_eq!((s.width_px, s.font_px), (f(1.0), Some(f(6.0))));
            assert_eq!(s.text.as_deref(), Some("hi"));
        }
        other => panic!("{other:?}"),
    }
}

#[test]
fn panels_follow_the_preview() {
    let mut p: DrawPanel<Pos> = DrawPanel::new(64, 64, 0);
    let frame = |w: u32, h: u32, n: usize| PreviewFrame { w, h, bgra: vec![1; n] };
    assert!(p.push_preview(&frame(8, 8, 256)).is_none());
    assert!(p.push_preview(&frame(16, 16, 5)).is_none());
    assert_eq!(p.feed_size(), (16, 16));
    let shown = p.push_preview(&frame(16, 20, 16 * 20 * 4)).unwrap();
    assert_eq!(&shown[..4], &[1, 1, 1, 255]);
    assert_eq!((p.feed_size(), p.frames_shown()), ((16, 20), 1));
    assert!(p.push_video(&[0; 3]).is_none());
    assert!(p.push_video(&vec![0; 16 * 20 * 4]).is_some());
    let r = DrawWindowResult::of(Some(&p), 1, 1);
    assert_eq!((r.frames_shown, r.doc.canvas_h), (2, 20));
    let r = DrawWindowResult::of::<Pos>(None, 5, 6);
    assert_eq!((r.frames_shown, r.doc.canvas_w, r.doc.canvas_h), (0, 5, 6));
    assert_eq!(counts_label(2, 3), "2 strokes · 3 video frames");
    assert_eq!(feed_label(1, 2, 3), "1×2 feed · 3 drawn");
}

#[test]
fn texts_and_shapes() {
    let mut p: DrawPanel<Pos> = DrawPanel::new(64, 64, 0);
    let at = |pos, pressed, down, released| Pointer { pos, pressed, down, released };
    p.gestures.text_press(at((5.0, 5.0), true, true, false), true);
    assert_eq!(p.gestures.text_at, Some((5.0, 5.0)));
    p.gestures.text_buf = "  ".to_string();
    assert!(p.gestures.text_commit().is_none());
    p.gestures.text_press(at((5.0, 5.0), true, true, false), true);
    p.gestures.text_buf = "hi".to_string();
    assert_eq!(p.gestures.text_commit(), Some(((5.0, 5.0), "hi".to_string())));
    p.gestures.text_press(at((5.0, 5.0), true, true, false), true);
    p.gestures.text_cancel();
    assert!(p.gestures.text_commit().is_none());

    p.gestures.shape_move(at((1.0, 1.0), true, true, false), true);
    p.gestures.shape_move(at((9.0, 8.0), false, true, false), true);
    let end = at((9.0, 8.0), false, false, true);
    assert_eq!(p.gestures.shape_end(end), Some(((1.0, 1.0), (9.0, 8.0))));
    assert_eq!(p.gestures.shape_end(end), None);
}

// ---- the picker ----

type Area = (Pos, Pos);

#[test]
fn picker_selects_moves_and_leaves() {
    let mut p: PickerApp<Pos, Area, Pos> = PickerApp::new((0.0, 0.0));
    assert_eq!(p.live(), Live::Nothing);
    p.point((10.0, 10.0));
    p.press((10.0, 10.0), false, (0.0, 0.0));
    p.point((90.0, 80.0));
    assert_eq!(p.live(), Live::Span((10.0, 10.0), (90.0, 80.0)));
    let a = p.release().unwrap();
    p.select((a, (90.0, 80.0)), true);
    assert_eq!(p.live(), Live::Selected(((10.0, 10.0), (90.0, 80.0))));
    // A press inside takes hold of the selection.
    p.press((20.0, 20.0), true, (10.0, 10.0));
    assert_eq!(p.moved(), Some(((10.0, 10.0), ((10.0, 10.0), (90.0, 80.0)))));
    p.move_to(((15.0, 15.0), (95.0, 85.0)));
    assert!(p.release().is_none());
    assert_eq!(p.selection, Some(((15.0, 15.0), (95.0, 85.0))));
    // A click selects nothing new.
    p.press((200.0, 200.0), false, (0.0, 0.0));
    let a = p.release().unwrap();
    p.select((a, a), false);
    assert_eq!(p.selection, Some(((15.0, 15.0), (95.0, 85.0))));
    assert!(!p.secondary());
    assert!(p.secondary());
}

#[test]
fn selections_have_a_smallest_size() {
    assert_eq!(to_physical(1, 2, 64, 64), Some(Rect::new(1, 2, 64, 64)));
    assert_eq!(to_physical(1, 2, 63, 64), None);
    let small = shown_physical(1, -2, 63, 64).unwrap();
    assert_eq!(size_label(small), ("63 × 64 @ 1,-2 (min 64×64)".to_string(), true));
    assert_eq!(shown_physical(1, 2, 0, 64), None);
    assert_eq!(
        size_label(Rect::new(1, 2, 640, 480)),
        ("640 × 480 @ 1,2 ".to_string(), false)
    );
    let shot = RgbaShot { data: vec![], width: 10, height: 20 };
    let m = MonitorGeom { x: 0, y: 0, w: 10, h: 20, scale: f(1.0) };
    assert!(backdrop_fits(&shot, &m));
    assert!(!backdrop_fits(&shot, &MonitorGeom { w: 11, ..m }));
}

// ---- the editor ----

fn test_editor() -> EditorApp<Pos, Area> {
    EditorApp::new(800, 600, "out.qcap.json".to_string(), (0.0, 0.0))
}

fn near(a: (F32, F32), b: (F32, F32)) -> (F32, F32) {
    let q = quarter((value(a.0), value(a.1)), (value(b.0), value(b.1)));
    (f(q.0), f(q.1))
}

fn push(app: &mut EditorApp<Pos, Area>, pts: &[Pos], tool: Tool, text: Option<String>) {
    let points = pts.iter().map(|p| (f(p.0), f(p.1))).collect();
    let (w, s) = (app.width, app.font_size);
    app.push_stroke(points, tool, text, w, s, near);
}

#[test]
fn fill_flag_rides_rect_but_not_line() {
    let mut app = test_editor();
    app.filled = true;
    push(&mut app, &[(0.1, 0.1), (0.4, 0.4)], Tool::Rect, None);
    push(&mut app, &[(0.1, 0.1), (0.4, 0.4)], Tool::Line, None);
    assert_eq!(app.strokes.len(), 2);
    assert!(app.strokes[0].filled);
    // Stored verbatim even where the raster ignores it.
    assert!(app.strokes[1].filled);

    app.filled = false;
    push(&mut app, &[(0.1, 0.1), (0.4, 0.4)], Tool::Ellipse, None);
    assert!(!app.strokes[2].filled);
}

#[test]
fn image_commit_needs_picked_path() {
    let mut app = test_editor();
    // No path picked: drag commits nothing.
    push(&mut app, &[(0.1, 0.1), (0.4, 0.4)], Tool::Image, None);
    push(&mut app, &[(0.1, 0.1), (0.4, 0.4)], Tool::Image, Some(String::new()));
    assert!(app.strokes.is_empty());
    // Picked path: commits with the path as payload.
    app.image_path = Some("D:\\stamps\\arrow.png".to_string());
    let path = app.image_path.clone();
    push(&mut app, &[(0.1, 0.1), (0.4, 0.4)], Tool::Image, path);
    assert_eq!(app.strokes.len(), 1);
    assert_eq!(app.strokes[0].tool, Tool::Image);
    assert_eq!(
        app.strokes[0].text.as_deref(),
        Some("D:\\stamps\\arrow.png")
    );
}

#[test]
fn toolbar_fill_and_image_select() {
    let mut e = test_editor();
    // Drag-select a region, Enter adopts it and switches to Draw.
    e.select_point((100.0, 100.0), true);
    e.select_point((300.0, 300.0), false);
    let a = e.select_release().unwrap();
    e.select((a, (300.0, 300.0)), true);
    let shown = e.selection;
    e.adopt(shown, to_physical(100, 100, 200, 200).is_some());
    assert!(e.phase == Phase::Draw);

    e.filled = true;
    push(&mut e, &[(0.1, 0.1), (0.4, 0.4)], Tool::Rect, None);
    assert!(e.strokes[0].filled);
    e.tool = DrawTool::Image;
    assert!(e.tool == DrawTool::Image);
    assert_eq!(e.tool.label(), "Img");
    assert_eq!(e.shape_text(), None);
    assert!(e.pick_image());
    assert!(!e.pick_image());
    e.image_picked(Some("a.png".to_string()));
    assert_eq!(e.shape_text().as_deref(), Some("a.png"));
    e.image_picked(None);
    assert_eq!(e.shape_text().as_deref(), Some("a.png"));
}

#[test]
fn escape_goes_back_step_by_step() {
    let mut e = test_editor();
    e.select(((0.0, 0.0), (100.0, 100.0)), true);
    let shown = e.selection;
    e.adopt(shown, true);
    push(&mut e, &[(0.1, 0.1), (0.4, 0.4)], Tool::Rect, None);
    e.gestures.text_at = Some((1.0, 1.0));
    assert!(!e.escape());
    assert!(e.gestures.text_at.is_none() && e.phase == Phase::Draw);
    assert!(!e.escape());
    assert!(e.phase == Phase::Select && e.strokes.is_empty());
    assert!(!e.escape());
    assert!(e.selection.is_none());
    assert!(e.escape());
    // A region that is too small is given up.
    e.select(((0.0, 0.0), (10.0, 10.0)), true);
    let shown = e.selection;
    e.adopt(shown, false);
    assert!(e.selection.is_none() && e.phase == Phase::Select);
}

#[test]
fn previews_and_records() {
    let mut e = test_editor();
    assert!(e.take_preview());
    assert!(!e.take_preview());
    push(&mut e, &[(0.0, 0.0), (1.0, 0.0), (1.0, 1.0)], Tool::Pen, None);
    assert!(e.take_preview());
    assert_eq!(e.strokes[0].points.len(), 12);
    assert_eq!(e.build_doc(None).canvas_w, 800);
    assert_eq!(e.build_doc(region_phys(64, 65)).canvas_h, 65);
    assert_eq!(region_phys(63, 65), None);
    assert_eq!(e.press_record(None), RecordPress::Refused);
    assert_eq!(e.save_msg, "select a region first (Esc)");
    e.select(((0.0, 0.0), (100.0, 100.0)), true);
    assert_eq!(e.press_record(None), RecordPress::Refused);
    assert_eq!(e.save_msg, "region too small (min 64×64)");
    let r = Rect::new(0, 0, 100, 100);
    assert_eq!(e.press_record(Some(r)), RecordPress::Save(r));
    e.note_saved(None);
    assert_eq!(e.save_msg, "saved out.qcap.json (1 strokes)");
    e.note_saved(Some("disk full"));
    assert_eq!(e.save_msg, "save out.qcap.json: disk full");
    assert!(e.drawing_on().is_some());
    e.undo();
    assert!(e.strokes.is_empty() && e.take_preview());
    e.clear();
    assert!(e.take_preview());
    assert!(!e.secondary());
    assert!(e.secondary());
}
