use qcapture::advanced::{
    canvas_label, canvas_options, rate_extra, rate_from_adv, rgba_from, AdvCfg, EncoderSel,
    RateExtra, RateSel,
};
use qcapture::annotate::{AnnotateDoc, Rgba, Stroke, Tool};
use qcapture::audio::AudioStats;
use qcapture::encode::{EncodeError, FfmpegInfo};
use qcapture::session::RecordTarget;
use qcapture::settings::{
    clamp_db, log_folder, settings_path, take_over, PersistedSettings, TargetSel,
};
use qcapture::single::F32;
use qcapture::thread::{
    audio_trouble, check_child, check_effects, child_saved_line, display_of, own_saved_line,
    plan_thread, thread_target,
};
use qcapture::types::{DisplayInfo, EncoderKind, Os, RateControl, Rect, WindowInfo};
use qcapture::widget::{
    default_output_in, merge_drawn, output_folder, region_label, screen_label, staged_label,
    thread_message, window_label, ActiveRec, Begin, Errand, Press, ThreadEnd, WidgetApp,
};

const SECOND: u64 = 1_000_000_000;

fn f(x: f32) -> F32 {
    F32 { bits: x.to_bits() }
}

fn test_screens() -> Vec<DisplayInfo> {
    vec![
        DisplayInfo {
            id: 0,
            name: "TestA".to_string(),
            x: 0,
            y: 0,
            width: 1920,
            height: 1080,
            scale_factor: f(1.0),
            is_primary: true,
            refresh_hz: Some(60),
        },
        DisplayInfo {
            id: 1,
            name: "TestB".to_string(),
            x: 1920,
            y: 0,
            width: 1280,
            height: 720,
            scale_factor: f(1.0),
            is_primary: false,
            refresh_hz: Some(60),
        },
    ]
}

fn test_app() -> WidgetApp {
    WidgetApp::restore(
        None,
        test_screens(),
        vec![WindowInfo {
            id: 7,
            title: "Notepad doc".to_string(),
            app_name: "np".to_string(),
            x: 0,
            y: 0,
            width: 800,
            height: 600,
            minimized: false,
        }],
    )
}

// ------------------------------------------------------------ sanitize ---

#[test]
fn sanitize_clamps_every_slider_range() {
    // Below range, inside range, above range for every numeric field.
    let mut a = AdvCfg {
        fps: 0,
        bitrate_kbps: 0,
        maxrate_kbps: 0,
        qp: 0,
        crf: 0,
        cursor_size: f(0.0),
        ripple_size: f(0.0),
        ripple_ms: 0,
        ..Default::default()
    };
    a.sanitize();
    assert_eq!(a.fps, 15);
    assert_eq!(a.bitrate_kbps, 1000);
    assert_eq!(a.maxrate_kbps, 1000);
    assert_eq!(a.cursor_size, f(6.0));
    assert_eq!(a.ripple_size, f(12.0));
    assert_eq!(a.ripple_ms, 100);

    let mut a = AdvCfg {
        fps: 30,
        bitrate_kbps: 8000,
        maxrate_kbps: 12000,
        qp: 23,
        crf: 23,
        cursor_size: f(20.0),
        ripple_size: f(60.0),
        ripple_ms: 900,
        ..Default::default()
    };
    a.sanitize();
    assert_eq!(
        (a.fps, a.bitrate_kbps, a.maxrate_kbps, a.qp, a.crf),
        (30, 8000, 12000, 23, 23)
    );
    assert_eq!(
        (a.cursor_size, a.ripple_size, a.ripple_ms),
        (f(20.0), f(60.0), 900)
    );

    let mut a = AdvCfg {
        fps: 999,
        bitrate_kbps: 999_999,
        maxrate_kbps: 999_999,
        qp: 255,
        crf: 255,
        cursor_size: f(999.0),
        ripple_size: f(999.0),
        ripple_ms: 99999,
        ..Default::default()
    };
    a.sanitize();
    assert_eq!(a.fps, 120);
    assert_eq!(a.bitrate_kbps, 50000);
    assert_eq!(a.maxrate_kbps, 80000);
    assert_eq!(a.qp, 51);
    assert_eq!(a.crf, 51);
    assert_eq!(a.cursor_size, f(40.0));
    assert_eq!(a.ripple_size, f(120.0));
    assert_eq!(a.ripple_ms, 3000);
    let again = a;
    a.sanitize();
    assert_eq!(a, again);
}

#[test]
fn sanitize_rejects_tiny_canvas() {
    let mut a = AdvCfg {
        canvas: Some((10, 10)),
        ..Default::default()
    };
    a.sanitize();
    assert_eq!(a.canvas, None);
    let mut a = AdvCfg {
        canvas: Some((1280, 720)),
        ..Default::default()
    };
    a.sanitize();
    assert_eq!(a.canvas, Some((1280, 720)));
}

// ------------------------------------------------------------ dropdowns ---

#[test]
fn dropdown_options_cover_everything() {
    assert_eq!(RateSel::all().len(), 4);
    assert_eq!(EncoderSel::all().len(), 7);
    assert_eq!(canvas_options().len(), 3);
    assert_eq!(canvas_options()[0], None);
    let mut labels: Vec<_> = RateSel::all().iter().map(|r| r.label()).collect();
    labels.extend(EncoderSel::all().iter().map(|e| e.label()));
    assert!(labels.iter().all(|l| !l.is_empty()));
    assert_eq!(
        labels.len(),
        labels
            .iter()
            .collect::<std::collections::HashSet<_>>()
            .len()
    );
}

#[test]
fn encoder_ffmpeg_split_matches_paths() {
    for e in [EncoderSel::Auto, EncoderSel::H264, EncoderSel::Hevc] {
        assert!(!e.is_ffmpeg(), "{e:?} must stay native");
    }
    for e in [
        EncoderSel::Nvenc,
        EncoderSel::Amf,
        EncoderSel::Qsv,
        EncoderSel::X264,
    ] {
        assert!(e.is_ffmpeg(), "{e:?} must use ffmpeg");
    }
}

#[test]
fn rate_mapping_covers_every_mode() {
    let adv = |rc| AdvCfg {
        rc,
        ..Default::default()
    };
    assert!(matches!(
        rate_from_adv(&adv(RateSel::Cbr)).unwrap(),
        RateControl::Cbr { .. }
    ));
    assert!(matches!(
        rate_from_adv(&adv(RateSel::Vbr)).unwrap(),
        RateControl::Vbr { .. }
    ));
    assert!(matches!(
        rate_from_adv(&adv(RateSel::Cqp)).unwrap(),
        RateControl::Cqp { .. }
    ));
    assert!(matches!(
        rate_from_adv(&adv(RateSel::Crf)).unwrap(),
        RateControl::Crf { .. }
    ));
}

#[test]
fn rate_modes_add_their_slider() {
    assert_eq!(rate_extra(RateSel::Cbr), RateExtra::Nothing);
    assert_eq!(rate_extra(RateSel::Vbr), RateExtra::MaxRate);
    assert_eq!(rate_extra(RateSel::Cqp), RateExtra::Qp);
    assert_eq!(rate_extra(RateSel::Crf), RateExtra::Crf);
    assert_eq!(canvas_label(None), "Native");
    assert_eq!(canvas_label(Some((1280, 720))), "1280x720");
}

// ------------------------------------------------------------ settings ---

#[test]
fn db_clamped_on_load() {
    assert_eq!(clamp_db(f(99.0)), f(12.0));
    assert_eq!(clamp_db(f(-99.0)), f(-60.0));
    assert_eq!(clamp_db(f(0.0)), f(0.0));
}

#[test]
fn loaded_settings_are_taken_over() {
    let s = PersistedSettings {
        version: 2,
        sys_gain_db: f(50.0),
        ..Default::default()
    };
    let (t, note) = take_over(s);
    assert_eq!(t.sys_gain_db, f(12.0));
    assert_eq!(
        note.as_deref(),
        Some("settings v2 newer than supported v1 — using what fits")
    );
    assert!(take_over(PersistedSettings::default()).1.is_none());
}

#[test]
fn stored_colors_may_lack_alpha() {
    assert_eq!(rgba_from(&[1, 2, 3]).unwrap(), [1, 2, 3, 255]);
    assert_eq!(rgba_from(&[1, 2, 3, 4]).unwrap(), [1, 2, 3, 4]);
    assert_eq!(rgba_from(&[1]).unwrap_err(), "color must be [r,g,b] or [r,g,b,a]");
}

#[test]
fn settings_live_where_the_system_keeps_them() {
    assert_eq!(
        settings_path(Os::Windows, Some("A"), Some("H"), "T"),
        vec!["A", "QCapture", "settings.json"]
    );
    assert_eq!(
        settings_path(Os::Linux, Some("A"), Some("H"), "T"),
        vec!["H", ".config", "qcapture", "settings.json"]
    );
    assert_eq!(
        settings_path(Os::MacOs, Some("A"), None, "T"),
        vec!["T", "qcapture-settings.json"]
    );
    assert_eq!(log_folder(Os::Windows, None, None, "T"), vec!["T", "QCapture", "logs"]);
    assert_eq!(
        log_folder(Os::Linux, None, Some("H"), "T"),
        vec!["H", ".config", "qcapture", "logs"]
    );
}

#[test]
fn widget_reopens_as_it_was() {
    let mut a = test_app();
    a.choose_screen(1);
    a.type_window("doc");
    a.choose_mic("Mic A");
    a.draw_live = true;
    a.output_dir = "out".to_string();
    a.adv.fps = 60;
    let s = a.snapshot_settings(f(-6.0), false, f(0.0), true);
    assert_eq!((s.sys_gain_db, s.mic_muted), (f(-6.0), true));
    let b = WidgetApp::restore(Some(s.clone()), test_screens(), vec![]);
    assert_eq!(b.target, a.target);
    assert_eq!(b.mic_name.as_deref(), Some("Mic A"));
    assert_eq!((b.adv, b.draw_live, b.output_dir.as_str()), (a.adv, true, "out"));
    // Screens that are gone become the first.
    let mut s = s;
    s.target = Some(TargetSel::Screen(9));
    s.region_screen = 9;
    let b = WidgetApp::restore(Some(s), test_screens(), vec![]);
    assert_eq!((b.target, b.region_screen), (TargetSel::Screen(0), 0));
    // Without saved settings everything is standard.
    let fresh = WidgetApp::restore(None, test_screens(), vec![]).adv;
    assert_eq!(fresh, AdvCfg::default());
    assert_eq!((fresh.encoder, fresh.rc), (EncoderSel::Auto, RateSel::Cbr));
    assert_eq!((fresh.qp, fresh.crf, fresh.maxrate_kbps), (23, 23, 12000));
    assert!(fresh.show_cursor);
}

// ------------------------------------------------------------ main screen ---

#[test]
fn target_labels_switch_modes() {
    let mut a = test_app();
    a.choose_window_mode();
    assert!(matches!(a.target, TargetSel::Window(_)));

    a.choose_region_mode();
    match &a.target {
        TargetSel::Region { screen, rect } => {
            assert_eq!(*screen, 0);
            assert_eq!((rect.w, rect.h), (1920, 1080));
        }
        other => panic!("expected Region, got {other:?}"),
    }
    assert_eq!(a.last_msg, "region 0,0 1920x1080 (full screen)");

    a.choose_screen_mode();
    assert!(matches!(a.target, TargetSel::Screen(0)));
}

#[test]
fn mic_combo_selects_and_folder_types() {
    let mut a = test_app();
    a.choose_mic("Mic A");
    assert_eq!(a.mic_name.as_deref(), Some("Mic A"));
    assert_eq!(a.record_mic().as_deref(), Some("Mic A"));
    a.audio_on = false;
    assert_eq!(a.record_mic(), None);
    a.choose_mic("");
    assert_eq!(a.mic_name, None);
    a.output_dir = "D:\\Vids".to_string();
    let why = default_output_in(&a.output_dir, "S", Os::Windows, Err("denied")).unwrap_err();
    assert_eq!(why, "output folder 'D:\\Vids': denied");
    a.refuse_output(&why);
    assert_eq!(a.last_msg, "output folder 'D:\\Vids': denied");
}

#[test]
fn screen_combo_selects_second_monitor() {
    let mut a = test_app();
    assert_eq!(a.screen_index(7), 1);
    assert!(screen_label(1, &a.screens[1]).contains("TestB"));
    assert_eq!(screen_label(1, &a.screens[1]), "Monitor #1 — TestB 1280x720");
    a.choose_screen(1);
    assert!(matches!(a.target, TargetSel::Screen(1)));
}

#[test]
fn window_combo_selects_listed_window() {
    let mut a = test_app();
    a.choose_window_mode();
    assert!(window_label(&a.windows[0]).contains("Notepad"));
    a.choose_window(0);
    match &a.target {
        TargetSel::Window(t) => assert_eq!(t, "Notepad doc"),
        other => panic!("expected Window, got {other:?}"),
    }
}

#[test]
fn pause_button_freezes_and_resumes() {
    let mut app = test_app();
    // Fake an in-progress recording (no threads — only the flag matters).
    app.rec = Some(ActiveRec::new("test.mp4".to_string(), 5 * SECOND));
    assert!(!app.rec.as_ref().unwrap().paused);
    assert_eq!(app.rec.as_ref().unwrap().pause_label(), "⏸ Pause");
    app.press_pause(7 * SECOND);
    let rec = app.rec.as_ref().unwrap();
    assert!(rec.paused);
    assert!(rec.pause_began_ns.is_some(), "pausing starts the clock");
    assert_eq!(rec.content_elapsed(9 * SECOND), 2 * SECOND);
    // Button flips to Resume; clicking again clears the flag and banks
    // the paused span, so the content clock excludes it.
    assert_eq!(rec.pause_label(), "▶ Resume");
    app.press_pause(10 * SECOND);
    let rec = app.rec.as_ref().unwrap();
    assert!(!rec.paused);
    assert!(rec.pause_began_ns.is_none());
    assert_eq!(rec.content_elapsed(11 * SECOND), 3 * SECOND);
    assert!(
        rec.content_elapsed(11 * SECOND) <= 6 * SECOND,
        "content clock never exceeds session clock"
    );
}

#[test]
fn countdown_finished_checks_deadline() {
    let now = 100 * SECOND;
    assert!(WidgetApp::countdown_finished(now - SECOND, now));
    assert!(!WidgetApp::countdown_finished(now + 60 * SECOND, now));
    assert_eq!(WidgetApp::countdown_number(now, now - 1), 1);
    assert_eq!(WidgetApp::countdown_number(now, now - 2 * SECOND - 1), 3);
}

#[test]
fn countdown_toggle_arms_and_cancels() {
    let mut a = test_app();
    // Toggle on, then Record arms the countdown instead of recording.
    a.countdown_enabled = true;
    assert_eq!(a.press_record(SECOND), Press::Armed);
    assert!(a.rec.is_none());
    assert_eq!(a.countdown_until_ns, Some(4 * SECOND));
    a.cancel_countdown();
    assert!(a.countdown_until_ns.is_none());
    assert!(a.rec.is_none());
    assert_eq!(a.last_msg, "countdown cancelled.");
}

#[test]
fn countdown_expiry_takes_once() {
    let mut app = test_app();
    let now = 100 * SECOND;
    // Future deadline: kept, not taken.
    app.countdown_until_ns = Some(now + 60 * SECOND);
    assert!(!app.take_expired_countdown(now));
    assert!(app.countdown_until_ns.is_some());
    // Past deadline: taken exactly once (poll never double-fires).
    app.countdown_until_ns = Some(now - SECOND);
    assert!(app.take_expired_countdown(now));
    assert!(app.countdown_until_ns.is_none());
    assert!(!app.take_expired_countdown(now));
    // Nothing armed: no-op.
    assert!(!app.take_expired_countdown(now));
}

#[test]
fn record_with_empty_window_title_is_loud() {
    let mut a = test_app();
    a.choose_window_mode();
    assert_eq!(a.press_record(0), Press::Refused);
    assert!(a.rec.is_none());
    assert!(a.last_msg.contains("pick a window first"));
    a.choose_screen_mode();
    assert_eq!(a.press_record(0), Press::Start);
}

#[test]
fn recordings_begin_stop_and_end() {
    let mut a = test_app();
    assert_eq!(a.begin(Os::Linux, None), Begin::Go { panel: None });
    a.draw_live = true;
    assert_eq!(a.begin(Os::Linux, None), Begin::Go { panel: Some((1920, 1080)) });
    a.choose_screen(5);
    assert_eq!(a.begin(Os::Linux, None), Begin::Refused);
    assert_eq!(a.last_msg, "screen 5 not in the display list — reopen the widget");
    a.choose_window(0);
    assert_eq!(a.draw_feed_size(None).unwrap(), (800, 600));
    assert_eq!(a.draw_feed_size(Some((7, 9))).unwrap(), (7, 9));
    a.type_window("unknown");
    assert_eq!(a.draw_feed_size(None).unwrap(), (1280, 720));
    a.cursor_ripple = true;
    assert_eq!(a.begin(Os::Linux, None), Begin::Refused);
    assert_eq!(a.last_msg, "cursor fx is Windows-only in this release");
    assert!(matches!(a.begin(Os::Windows, None), Begin::Go { .. }));
    assert!(a.record_fx().unwrap().ripple);
    a.started("x.mp4", SECOND);
    assert!(a.recording());
    assert_eq!(a.begin(Os::Windows, None), Begin::Busy);
    a.stop_recording();
    assert!(a.finishing() && a.rec.as_ref().unwrap().stopping);
    a.finished("Saved x.mp4 — 3 frames in 1.0s");
    assert!(!a.recording() && !a.finishing());
    assert_eq!(a.last_saved_path().as_deref(), Some("x.mp4"));
    a.note_sidecar(2, "x.json", None);
    assert!(a.last_msg.ends_with(" (+2 live strokes → x.json)"));
    a.note_sidecar(2, "x.json", Some("full"));
    assert!(a.last_msg.ends_with(" (sidecar failed: full)"));
    a.finished("record failed: x");
    assert_eq!(a.last_saved_path(), None);
}

#[test]
fn overlays_bring_regions() {
    let mut a = test_app();
    let mut e: Errand<(u32, Rect)> = Errand::new();
    assert!(e.start());
    assert!(!e.start());
    // A look before it is back leaves it on its way.
    assert!(e.take().is_none() && e.pending);
    assert!(!e.start());
    e.bring(Some((1, Rect::new(1, 2, 300, 400))));
    a.take_pick(e.take().flatten());
    assert_eq!(a.last_msg, "region 1,2,300,400");
    assert_eq!(a.target_desc(), "Region 1,2,300,400 on screen 1");
    assert_eq!(a.overlay_screen(), 1);
    assert!(e.take().is_none() && !e.pending);
    a.take_annotation(None);
    assert_eq!(a.last_msg, "annotate finished without a result — see log file");
    a.take_annotation(Some((0, Rect::new(5, 6, 70, 80), AnnotateDoc::default())));
    assert_eq!(a.last_msg, "annotated region 5,6,70,80 (0 strokes)");
    assert_eq!(
        staged_label(a.pending_doc.as_ref().unwrap()),
        "staged annotations (0 strokes) — burns in on next record"
    );
    assert_eq!(region_label(3, Rect::new(-1, 2, 3, 4)), "screen 3: -1,2 3x4");
    a.choose_screen(1);
    assert_eq!(a.target_desc(), "Screen #1");
    a.type_window("  ");
    assert_eq!(a.target_desc(), "Window […]");
    a.type_window("Doc");
    assert_eq!(a.target_desc(), "Window 'Doc'");
    a.want_region(1);
    assert_eq!(a.overlay_screen(), 1);
}

#[test]
fn output_path_resolves_folder_or_cwd() {
    let cwd = default_output_in("", "20250101_000000", Os::Linux, Ok(())).unwrap();
    assert!(cwd.starts_with("qcapture_") && cwd.ends_with(".mp4"));
    assert!(!cwd.contains('/') && !cwd.contains('\\'));
    let dir = "/tmp/qcapture-out-test";
    let out = default_output_in(dir, "20250101_000000", Os::Linux, Ok(())).unwrap();
    assert!(out.starts_with(dir));
    assert_eq!(output_folder(dir).as_deref(), Some(dir));
}

#[test]
fn outputs_join_their_folder() {
    let at = |dir: &str, os: Os| default_output_in(dir, "S", os, Ok(())).unwrap();
    assert_eq!(at(" ", Os::Windows), "qcapture_S.mp4");
    assert_eq!(output_folder(" "), None);
    assert_eq!(at("d", Os::Linux), "d/qcapture_S.mp4");
    assert_eq!(at("d/", Os::MacOs), "d/qcapture_S.mp4");
    assert_eq!(at("d\\", Os::Linux), "d\\/qcapture_S.mp4");
    assert_eq!(at("D:\\v", Os::Windows), "D:\\v\\qcapture_S.mp4");
    assert_eq!(at("D:\\v\\", Os::Windows), "D:\\v\\qcapture_S.mp4");
    assert_eq!(at("D:/v/", Os::Windows), "D:/v/qcapture_S.mp4");
    assert_eq!(at("D:", Os::Windows), "D:qcapture_S.mp4");
    // A blank setting needs no folder.
    assert!(default_output_in("", "S", Os::Linux, Err("denied")).is_ok());
    assert_eq!(thread_message(ThreadEnd::Saved("Saved x")), "Saved x");
    assert_eq!(thread_message(ThreadEnd::Failed("x")), "record failed: x");
    assert_eq!(thread_message(ThreadEnd::Panicked), "record thread panicked");
}

#[test]
fn live_strokes_join_the_staged_ones() {
    let mut drawn = AnnotateDoc::default();
    assert!(merge_drawn(Some(AnnotateDoc::default()), drawn.clone()).is_none());
    drawn
        .add_stroke(Stroke {
            points: vec![(f(0.5), f(0.5))],
            color: Rgba(0, 0, 0, 255),
            width_px: f(1.0),
            tool: Tool::Pen,
            text: None,
            appear_ms: 0,
            font_px: None,
            filled: false,
            font_path: None,
        })
        .unwrap();
    let both = merge_drawn(Some(drawn.clone()), drawn.clone()).unwrap();
    assert_eq!(both.strokes.len(), 2);
    assert_eq!(merge_drawn(None, drawn.clone()).unwrap().strokes, drawn.strokes);
}

// ------------------------------------------------------------ the thread ---

fn info() -> FfmpegInfo {
    FfmpegInfo {
        version_line: "v".to_string(),
        has_nvenc: false,
        has_amf: false,
        has_qsv: false,
        has_videotoolbox: false,
        has_libx264: true,
    }
}

#[test]
fn threads_choose_their_encoder() {
    let none = Err(EncodeError::FfmpegMissing);
    let adv = AdvCfg::default();
    let p = plan_thread(&adv, false, Os::Windows, &none).unwrap();
    assert_eq!((p.kind, p.hevc, p.note.as_str()), (None, false, ""));
    let p = plan_thread(&adv, true, Os::Windows, &none).unwrap();
    assert_eq!(p.kind, Some(EncoderKind::H264Nvenc));
    assert_eq!(p.note, " (auto-switched to NVENC for drawing/cursor-fx)");
    let p = plan_thread(&adv, false, Os::Linux, &Ok(info())).unwrap();
    assert_eq!(p.kind, Some(EncoderKind::LibX264));
    assert_eq!(p.note, " (using LibX264 — no MediaFoundation off Windows)");
    let hevc = AdvCfg { encoder: EncoderSel::Hevc, ..adv };
    assert!(plan_thread(&hevc, false, Os::Windows, &none).unwrap().hevc);
    assert_eq!(
        plan_thread(&hevc, false, Os::Linux, &Ok(info())).unwrap_err(),
        "this ffmpeg has no HEVC encoder"
    );
    let mut bare = info();
    bare.has_libx264 = false;
    let h264 = AdvCfg { encoder: EncoderSel::H264, ..adv };
    assert_eq!(
        plan_thread(&h264, false, Os::Linux, &Ok(bare)).unwrap_err(),
        "this ffmpeg has no H.264 encoder"
    );
    let crf = AdvCfg { rc: RateSel::Crf, ..adv };
    assert_eq!(
        plan_thread(&crf, false, Os::Linux, &none).unwrap_err(),
        "rate modes (VBR/CQP/CRF) need an ffmpeg encoder (NVENC/AMF/QSV/x264)"
    );
}

#[test]
fn threads_check_before_they_start() {
    let adv = AdvCfg::default();
    assert_eq!(
        check_child(EncoderKind::LibX264, &adv, &info()).unwrap(),
        RateControl::Cbr { bitrate_kbps: 8000 }
    );
    assert_eq!(
        check_child(EncoderKind::H264Qsv, &adv, &info()).unwrap_err(),
        "this ffmpeg has no h264_qsv — pick another encoder"
    );
    let cqp = AdvCfg { rc: RateSel::Cqp, ..adv };
    assert!(check_child(EncoderKind::LibX264, &cqp, &info()).is_err());
    assert!(audio_trouble(false, "x").is_ok());
    assert_eq!(audio_trouble(true, "x").unwrap_err(), "audio pipeline: x");
    assert!(check_effects(Os::Windows, true).is_ok());
    assert!(check_effects(Os::MacOs, true).is_err());
    let r = TargetSel::Region { screen: 1, rect: Rect::new(-5, 6, 70, 80) };
    assert_eq!(
        thread_target(&r, Some((64, 64))),
        (RecordTarget::Region { screen: 1, x: 0, y: 6, w: 70, h: 80 }, None)
    );
    assert_eq!(
        thread_target(&TargetSel::Screen(1), Some((64, 64))),
        (RecordTarget::Screen(1), Some((64, 64)))
    );
    assert_eq!(display_of(&test_screens(), 0).unwrap(), 0);
    assert_eq!(display_of(&vec![], 0).unwrap_err(), "no displays detected");
    assert_eq!(
        display_of(&test_screens(), 4).unwrap_err(),
        "screen 4 not in the display list — reopen the widget"
    );
    assert_eq!(
        child_saved_line("a", 1, "2.0", "3.00", EncoderKind::LibX264, None, " (n)"),
        "Saved a — 1 frames in 2.0s, 3.00 MB via libx264 (n)"
    );
    assert_eq!(
        own_saved_line("a", "2.0", "3.00", Some(AudioStats::default())),
        "Saved a — 2.0s, 3.00 MB + AAC 0 quanta (0 sys/0 mic underruns)"
    );
}
