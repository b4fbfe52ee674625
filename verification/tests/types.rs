use qcapture::capture::{
    accept_shot, clamp_region, display_index, feed_size, find_window, list_displays, list_windows,
    monitor_origin, plan_open_window, plan_region, plan_source, plan_window, record_monitor,
    record_region,
    record_window_title, region_outside, resolve_window, validate_region, wgc_monitor_index,
    window_feed_size, CaptureError, Capturer, DummyCapturer, RawDisplay, RawWindow,
};
use qcapture::single::F32;
use qcapture::types::{
    validate_rect, CanvasConfig, CaptureMethod, CaptureTarget, Container, CoreError, CursorFx,
    CursorStyle, DisplayInfo, EncodeConfig, EncoderKind, Os, RateControl, Rect,
};
use qcapture::ui::{app_icon, run_overlay_stub, PickerSelection, UiError};

fn f(x: f32) -> F32 {
    F32 { bits: x.to_bits() }
}

fn display(id: u32, x: i32, w: u32, h: u32, primary: bool) -> DisplayInfo {
    DisplayInfo {
        id,
        name: format!("d{id}"),
        x,
        y: 0,
        width: w,
        height: h,
        scale_factor: f(1.0),
        is_primary: primary,
        refresh_hz: Some(60),
    }
}

#[test]
fn rect_validation() {
    assert!(validate_rect(Rect::new(0, 0, 100, 100)).is_ok());
    assert!(validate_rect(Rect::new(0, 0, 0, 100)).is_err());
}

#[test]
fn rect_error_names_the_rectangle() {
    let e = validate_rect(Rect::new(-3, 4, 0, 100)).unwrap_err();
    assert_eq!(
        e.message(),
        "invalid rect Rect { x: -3, y: 4, w: 0, h: 100 }: width/height must be > 0"
    );
    let e = CoreError::UnsupportedCanvas { w: 8, h: 9, fps: 30 };
    assert_eq!(e.message(), "unsupported canvas 8x9@ 30fps");
}

#[test]
fn lib_cursor_style_defaults_match_legacy() {
    let style = CursorStyle::default();
    assert_eq!(style.hl_rgba, [255, 210, 0, 255]);
    assert_eq!(style.ripple_rgba, [255, 255, 255, 255]);
    assert_eq!(
        (style.hl_radius, style.ripple_radius, style.ripple_ms),
        (f(14.0), f(42.0), 600)
    );
    assert!(!style.additive);
    let fx = CursorFx::opt(true, true).unwrap();
    assert_eq!(fx.style, style);
    assert!(CursorFx::opt(false, false).is_none());
    assert!(!fx.is_off());
}

#[test]
fn canvas_presets_sane() {
    for c in CanvasConfig::presets() {
        assert!(c.width >= 640 && c.fps >= 15);
    }
}

#[test]
fn defaults_are_the_documented_ones() {
    assert_eq!(CanvasConfig::default(), CanvasConfig { width: 1920, height: 1080, fps: 30 });
    assert_eq!(CanvasConfig::presets().len(), 6);
    assert_eq!(EncoderKind::default(), EncoderKind::Auto);
    assert_eq!(RateControl::default(), RateControl::Cbr { bitrate_kbps: 8000 });
    let e = EncodeConfig::default();
    assert_eq!((e.keyint, e.preset.as_str(), e.container), (120, "veryfast", Container::Mp4));
    assert_eq!(Container::Mkv.extension(), "mkv");
    assert_eq!(Container::Mov.extension(), "mov");
}

#[test]
fn recommended_backend_per_system() {
    assert_eq!(
        CaptureMethod::recommended_for_current_os(Os::Windows),
        CaptureMethod::WindowsWgc
    );
    assert_eq!(
        CaptureMethod::recommended_for_current_os(Os::MacOs),
        CaptureMethod::MacScreenCaptureKit
    );
    assert_eq!(
        CaptureMethod::recommended_for_current_os(Os::Linux),
        CaptureMethod::LinuxPortalPipeWire
    );
    assert_eq!(
        CaptureMethod::recommended_for_current_os(Os::Other),
        CaptureMethod::FallbackXcap
    );
}

#[test]
fn single_numbers_compare_as_floats_do() {
    let all = [
        f32::NEG_INFINITY,
        -60.5,
        -1.0,
        -0.0,
        0.0,
        1.0e-40,
        0.5,
        14.0,
        f32::INFINITY,
        f32::NAN,
    ];
    for a in all {
        for b in all {
            assert_eq!(f(a).less(f(b)), a < b);
            assert_eq!(f(a).within(f(b), f(14.0)), (b..=14.0).contains(&a));
            let m = f(a).max_of(f(b));
            assert!(f32::from_bits(m.bits) == a.max(b) || a.max(b).is_nan());
        }
        assert_eq!(f(a).is_nan(), a.is_nan());
        let c = f(a).clamp_to(f(-1.0), f(0.5));
        assert!(f32::from_bits(c.bits) == a.clamp(-1.0, 0.5) || a.is_nan());
        assert_eq!(c.clamp_to(f(-1.0), f(0.5)), c);
    }
}

#[test]
fn dummy_lifecycle() {
    let mut c = DummyCapturer::new();
    assert!(!c.is_running());
    c.start(CaptureTarget::Screen(0)).unwrap();
    assert!(c.is_running());
    c.stop();
    assert!(!c.is_running());
}

#[test]
fn region_rejects_empty() {
    let r = Rect::new(10, 10, 0, 50);
    // No displays needed: empty fails before display lookup.
    assert!(validate_region(9999, r, Err(CaptureError::NoDisplays)).is_err());
}

#[test]
fn region_needs_its_display() {
    let r = Rect::new(10, 10, 100, 50);
    let ds = vec![display(7, 0, 1920, 1080, true)];
    assert!(validate_region(7, r, Ok(ds.clone())).is_ok());
    let e = validate_region(8, r, Ok(ds.clone())).unwrap_err();
    assert_eq!(e.message(), "display 8 not found");
    let e = validate_region(7, r, Err(CaptureError::NoDisplays)).unwrap_err();
    assert_eq!(e.message(), "no displays found");
    let e = validate_region(7, Rect::new(1920, 10, 100, 50), Ok(ds.clone())).unwrap_err();
    assert_eq!(e.message(), "capture backend failed: region fully outside display");
    assert!(validate_region(7, Rect::new(10, 1080, 100, 50), Ok(ds.clone())).is_err());
    // What hangs over an edge is clamped later.
    assert!(validate_region(7, Rect::new(1919, 1079, 100, 50), Ok(ds.clone())).is_ok());
    assert!(validate_region(7, Rect::new(-10, -10, 100, 50), Ok(ds.clone())).is_ok());
    assert!(!region_outside(&ds[0], r));
    assert!(region_outside(&ds[0], Rect::new(3000, 10, 100, 50)));
}

#[test]
fn displays_are_listed_and_found() {
    assert_eq!(list_displays(Ok(vec![])).unwrap_err().message(), "no displays found");
    assert_eq!(
        list_displays(Err("gone".to_string())).unwrap_err().message(),
        "gone"
    );
    let raw = RawDisplay {
        id: 3,
        name: "A".to_string(),
        friendly_name: "Left".to_string(),
        x: -10,
        y: 0,
        width: 640,
        height: 480,
        scale_factor: f(1.5),
        frequency: f(59.94),
        frequency_rounded: 60,
        is_primary: true,
    };
    let ds = list_displays(Ok(vec![raw])).unwrap();
    assert_eq!(ds.len(), 1);
    assert_eq!((ds[0].id, ds[0].width, ds[0].scale_factor), (3, 640, f(1.5)));
    assert_eq!(ds[0].refresh_hz, Some(60));
    let two = vec![display(0, 0, 100, 100, false), display(1, 100, 200, 100, true)];
    assert_eq!(display_index(&two, 0), Some(1));
    assert_eq!(display_index(&two, 1), Some(1));
    assert_eq!(display_index(&two, 2), None);
    assert_eq!(display_index(&vec![], 0), None);
    assert_eq!(wgc_monitor_index(0), 1);
    assert_eq!(monitor_origin(Some(&two), 2), (100, 0));
    assert_eq!(monitor_origin(None, 1), (0, 0));
}

#[test]
fn feed_size_aligns_and_floors() {
    assert_eq!(feed_size(1921, 1081).unwrap(), (1920, 1080));
    assert_eq!(feed_size(1920, 1080).unwrap(), (1920, 1080));
    assert!(feed_size(10, 10).is_err());
}

#[test]
fn regions_are_clamped_to_the_monitor() {
    assert_eq!(clamp_region(100, 50, 641, 481, 1920, 1080), (100, 50, 640, 480));
    let (x, y, w, h) = clamp_region(5000, 5000, 640, 480, 1920, 1080);
    assert!(x + w <= 1920 && y + h <= 1080 && w >= 64 && h >= 64);
    let (_, _, w, h) = clamp_region(1900, 0, 640, 4000, 1920, 1080);
    assert_eq!((w, h), (64, 1080));
}

#[test]
fn native_recordings_are_planned() {
    let m = record_monitor(1920, 1080, "a.mp4", 30, 8000, None, true).unwrap();
    assert_eq!((m.width, m.height, m.bitrate_bps, m.use_hevc), (1920, 1080, 8_000_000, true));
    let e = record_monitor(1920, 1080, "a.mp4", 30, 8000, Some((32, 32)), false).unwrap_err();
    assert_eq!(e.message(), "capture backend failed: canvas too small (min 64x64)");
    let r = record_region(1920, 1080, 10, 20, 101, 99, "a.mp4", 30, 8000);
    assert_eq!(r.crop, Some((10, 20, 100, 98)));
    let w = record_window_title(None, Some(10), "a.mp4", 30, 8000);
    assert_eq!((w.width, w.height), (1280, 64));
}

#[test]
fn feeds_are_planned() {
    let p = plan_source(1921, 1081, true, None, 30).unwrap();
    assert_eq!((p.feed_w, p.feed_h), (1920, 1080));
    let p = plan_source(1921, 1081, false, Some((1280, 720)), 30).unwrap();
    assert_eq!((p.feed_w, p.feed_h), (1921, 1081));
    assert_eq!((p.canvas.width, p.canvas.height), (1280, 720));
    let e = plan_source(1920, 1080, true, None, 0).unwrap_err();
    assert_eq!(e.message(), "capture backend failed: --fps must be 1..240");
    let p = plan_region(10, 20, 101, 99, 1920, 1080, None, 30).unwrap();
    assert_eq!(p.crop, Some((10, 20, 100, 98)));
    assert!(plan_region(10, 20, 101, 99, 1920, 1080, Some((640, 480)), 30).is_err());
    let p = plan_window(Some(801), None, None, 30).unwrap();
    assert_eq!((p.feed_w, p.feed_h), (800, 720));
}

#[test]
fn windows_are_listed_and_found() {
    let raw = |id: Option<u32>, title: Option<&str>| RawWindow {
        id,
        fallback_id: 99,
        title: title.map(|t| t.to_string()),
        app_name: Some("app".to_string()),
        x: Some(1),
        y: Some(2),
        width: Some(800),
        height: Some(601),
        minimized: Some(false),
    };
    let ws = list_windows(Ok(vec![
        raw(Some(1), Some("")),
        raw(Some(2), Some("Notepad Doc")),
        raw(None, Some("Other")),
    ]))
    .unwrap();
    assert_eq!(ws.len(), 2);
    assert_eq!((ws[0].id, ws[0].title.as_str()), (2, "Notepad Doc"));
    assert_eq!(ws[1].id, 99);
    let titles = vec![None, Some("Notepad Doc".to_string())];
    assert_eq!(find_window(&titles, "NOTEPAD").unwrap(), 1);
    let e = find_window(&titles, "gimp").unwrap_err();
    assert_eq!(e.message(), "capture backend failed: no window matching 'gimp'");
    let found = resolve_window("x", Ok((Some(801), None, 5))).unwrap();
    assert_eq!((found.w, found.h, found.hwnd), (800, 720, 5));
    assert_eq!(window_feed_size("x", Ok((Some(3), Some(601), 5))).unwrap(), (64, 600));
    let e = window_feed_size("x", Err("nope")).unwrap_err();
    assert_eq!(e.message(), "capture backend failed: no window matching 'x': nope");
}

#[test]
fn empty_shots_are_refused() {
    let shot = accept_shot(vec![7; 16], 2, 2).unwrap();
    assert_eq!((shot.width, shot.height, shot.data), (2, 2, vec![7; 16]));
    for (w, h) in [(0, 2), (2, 0)] {
        assert_eq!(
            accept_shot(vec![], w, h).unwrap_err().message(),
            "capture backend failed: screenshot came back empty"
        );
    }
}

#[test]
fn picked_targets_are_capture_targets() {
    assert_eq!(CaptureTarget::from(PickerSelection::Screen(2)), CaptureTarget::Screen(2));
    assert_eq!(CaptureTarget::from(PickerSelection::Window(-7)), CaptureTarget::Window(-7));
    let rect = Rect::new(1, 2, 3, 4);
    assert_eq!(
        CaptureTarget::from(PickerSelection::Region { screen: 1, rect }),
        CaptureTarget::Region { screen: 1, rect }
    );
}

#[test]
fn overlay_stub_says_so() {
    let e = run_overlay_stub(CanvasConfig::default()).unwrap_err();
    assert_eq!(e.message(), "not implemented: overlay arrives in Phase 2 (winit+egui)");
    assert_eq!(
        UiError::Backend("x".to_string()).message(),
        "windowing backend failed: x"
    );
}

#[test]
fn icons_are_whole_or_blank() {
    assert_eq!(app_icon(&[1, 2, 3]), (1, 1, vec![0, 0, 0, 0]));
    let full = vec![9u8; 128 * 128 * 4];
    let (w, h, bytes) = app_icon(&full);
    assert_eq!((w, h), (128, 128));
    assert_eq!(bytes, full);
}

#[test]
fn open_windows_are_planned_at_their_size() {
    let p = plan_open_window(Some(801), Some(20), None, 30).unwrap();
    assert_eq!((p.feed_w, p.feed_h, p.crop), (801, 64, None));
    let p = plan_open_window(None, Some(-3), Some((640, 480)), 30).unwrap();
    assert_eq!((p.feed_w, p.feed_h), (1280, 64));
    assert_eq!((p.canvas.width, p.canvas.height, p.canvas.fps), (640, 480, 30));
    assert_eq!(
        plan_open_window(None, None, None, 241).unwrap_err().message(),
        "capture backend failed: --fps must be 1..240"
    );
}
