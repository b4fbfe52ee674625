use qcapture::annotate::{AnnotateDoc, Rgba, Stroke, Tool};
use qcapture::audio::AudioStats;
use qcapture::capture::CaptureError;
use qcapture::cli::{
    asks_ffmpeg, canvas_note, default_output, pause_times, plan_record, plan_record_lower, rate_from_flags,
    resolve_unix_encoder, settle_encoder, switch_note, Countdown, CountdownStep, PathSel, RecordArgs,
};
use qcapture::encode::{EncodeError, FfmpegInfo};
use qcapture::listing::{
    annotations_line, demo_doc, demo_line, display_line, preset_line, window_line,
};
use qcapture::logs::stale_logs;
use qcapture::region::{parse_region, parse_region_str, region_text};
use qcapture::session::{
    audio_failed, audio_note, audio_started, check_start, fx_note, merge_strokes,
    native_saved_line, overlay_display, record_target, resolve_display, saved_line, sidecar_doc,
    sidecar_note, window_panel_size, RecordTarget,
};
use qcapture::single::F32;
use qcapture::style::{color_of_lower, cursor_style_from_args, parse_cursor_color, StyleArgs};
use qcapture::types::{
    CanvasConfig, CursorFx, CursorStyle, DisplayInfo, EncoderKind, Os, RateControl, Rect,
    WindowInfo,
};

fn f(x: f32) -> F32 {
    F32 { bits: x.to_bits() }
}

fn args_with(style: &[(&str, &str)]) -> RecordArgs {
    // Minimal record args with cursor style overrides applied.
    let mut a = RecordArgs {
        screen: 0,
        region: None,
        window_title: None,
        region_screen: 0,
        fps: 30,
        canvas: None,
        encoder: "auto".to_string(),
        bitrate: 8000,
        rc: "cbr".to_string(),
        qp: None,
        crf: None,
        maxrate: None,
        output: None,
        duration: None,
        countdown: None,
        no_cursor: false,
        no_audio: false,
        mic: None,
        system_gain: f(0.0),
        mic_gain: f(0.0),
        system_mute: false,
        mic_mute: false,
        annotate: None,
        draw: false,
        draw_test: None,
        pause_at: None,
        resume_at: None,
        cursor_highlight: false,
        cursor_ripple: false,
        style: StyleArgs {
            cursor_color: None,
            cursor_size: None,
            ripple_color: None,
            ripple_size: None,
            ripple_ms: None,
            cursor_additive: false,
        },
    };
    for (k, v) in style {
        match *k {
            "cursor_color" => a.style.cursor_color = Some(v.to_string()),
            "cursor_size" => a.style.cursor_size = Some(f(v.parse().unwrap())),
            "ripple_color" => a.style.ripple_color = Some(v.to_string()),
            "ripple_size" => a.style.ripple_size = Some(f(v.parse().unwrap())),
            "ripple_ms" => a.style.ripple_ms = Some(v.parse().unwrap()),
            _ => panic!("unknown style flag {k}"),
        }
    }
    a
}

#[test]
fn cursor_colors_parse_names_and_hex() {
    assert_eq!(parse_cursor_color("red").unwrap(), [255, 0, 0, 255]);
    assert_eq!(parse_cursor_color("White").unwrap(), [255, 255, 255, 255]);
    assert_eq!(parse_cursor_color("ff0000").unwrap(), [255, 0, 0, 255]);
    assert_eq!(parse_cursor_color("#00ff00").unwrap(), [0, 255, 0, 255]);
    assert_eq!(parse_cursor_color("  BLUE  ").unwrap(), [0, 120, 255, 255]);
    // 8-digit hex carries alpha.
    assert_eq!(parse_cursor_color("ff000080").unwrap(), [255, 0, 0, 128]);
    assert_eq!(parse_cursor_color("#00ff00ff").unwrap(), [0, 255, 0, 255]);
    assert!(parse_cursor_color("chartreuse").is_err());
    assert!(parse_cursor_color("fff").is_err());
    assert!(parse_cursor_color("fffffff").is_err());
    assert!(parse_cursor_color("gggggg").is_err());
    assert!(parse_cursor_color("").is_err());
}

#[test]
fn every_color_name_is_known() {
    for (name, rgb) in [
        ("red", [255, 0, 0]),
        ("green", [0, 255, 0]),
        ("blue", [0, 120, 255]),
        ("yellow", [255, 210, 0]),
        ("white", [255, 255, 255]),
        ("black", [0, 0, 0]),
        ("orange", [255, 140, 0]),
        ("cyan", [0, 220, 220]),
        ("magenta", [255, 0, 255]),
    ] {
        assert_eq!(color_of_lower(name), Some([rgb[0], rgb[1], rgb[2], 255]));
    }
    assert_eq!(color_of_lower("12abEF"), Some([0x12, 0xab, 0xef, 255]));
    assert_eq!(
        parse_cursor_color("Nope").unwrap_err(),
        "bad color 'Nope' (want a name, 6-digit hex like ff0000, or 8-digit hex like ff000080)"
    );
}

#[test]
fn main_cursor_style_defaults_match_legacy() {
    let style = cursor_style_from_args(&args_with(&[]).style).unwrap();
    assert_eq!(style, CursorStyle::default());
}

#[test]
fn cursor_style_accepts_and_rejects_ranges() {
    let style = cursor_style_from_args(
        &args_with(&[
            ("cursor_color", "red"),
            ("cursor_size", "20"),
            ("ripple_color", "#00ff00"),
            ("ripple_size", "60"),
            ("ripple_ms", "900"),
        ])
        .style,
    )
    .unwrap();
    assert_eq!(style.hl_rgba, [255, 0, 0, 255]);
    assert_eq!(style.hl_radius, f(20.0));
    assert_eq!(style.ripple_rgba, [0, 255, 0, 255]);
    assert_eq!(style.ripple_radius, f(60.0));
    assert_eq!(style.ripple_ms, 900);
    assert!(!style.additive);

    for bad in [
        vec![("cursor_size", "2")],
        vec![("cursor_size", "99")],
        vec![("ripple_size", "5")],
        vec![("ripple_size", "500")],
        vec![("ripple_ms", "50")],
        vec![("ripple_ms", "9999")],
        vec![("cursor_color", "nope")],
    ] {
        assert!(
            cursor_style_from_args(&args_with(&bad).style).is_err(),
            "must reject {bad:?}"
        );
    }
}

#[test]
fn style_errors_say_which_flag() {
    for (k, v, m) in [
        ("cursor_size", "2", "--cursor-size must be 6..40 feed pixels"),
        ("ripple_size", "5", "--ripple-size must be 12..120 feed pixels"),
        ("ripple_ms", "50", "--ripple-ms must be 100..3000"),
    ] {
        assert_eq!(cursor_style_from_args(&args_with(&[(k, v)]).style).unwrap_err(), m);
    }
}

#[test]
fn region_string_parses_and_rejects() {
    let r = parse_region_str("10,20,640,480").unwrap();
    assert_eq!((r.x, r.y, r.w, r.h), (10, 20, 640, 480));
    assert!(parse_region_str("10,20,0,480").is_none());
    assert!(parse_region_str("nope").is_none());
}

#[test]
fn region_errors_are_those_of_the_numbers() {
    let said = |s: &str| parse_region(s).unwrap_err();
    assert_eq!(said("1,2,3"), "bad --region '1,2,3' (want x,y,w,h in physical pixels)");
    for bad in ["", "x", "+", "-", "1x", "99999999999", "-99999999999", "9999999999x", "-x"] {
        let std_says = bad.parse::<i32>().unwrap_err().to_string();
        assert_eq!(said(&format!("{bad},0,64,64")), std_says);
        assert_eq!(said(&format!("0, {bad} ,64,64")), std_says);
    }
    for bad in ["", "-1", "+", "-", "5 5", "4294967296", "42949672960z"] {
        let std_says = bad.parse::<u32>().unwrap_err().to_string();
        assert_eq!(said(&format!("0,0,{bad},64")), std_says);
        assert_eq!(said(&format!("0,0,64,{bad}")), std_says);
    }
    assert_eq!(
        said("1,2,0,4"),
        "invalid rect Rect { x: 1, y: 2, w: 0, h: 4 }: width/height must be > 0"
    );
    assert_eq!(parse_region(" +1 , -2 , 3 , 4 ").unwrap(), Rect::new(1, -2, 3, 4));
}

#[test]
fn written_regions_are_read_back() {
    for r in [
        Rect::new(0, 0, 1, 1),
        Rect::new(i32::MIN, i32::MAX, u32::MAX, 7),
        Rect::new(-5, 100, 1280, 720),
    ] {
        assert_eq!(parse_region(&region_text(r)).unwrap(), r);
    }
    assert_eq!(region_text(Rect::new(-5, 100, 1280, 720)), "-5,100,1280,720");
    assert!(parse_region(&region_text(Rect::new(1, 2, 0, 4))).is_err());
}

fn info() -> FfmpegInfo {
    FfmpegInfo {
        version_line: "ffmpeg version 7".to_string(),
        has_nvenc: true,
        has_amf: false,
        has_qsv: false,
        has_videotoolbox: false,
        has_libx264: true,
    }
}

#[test]
fn recordings_are_planned() {
    let missing = Err(EncodeError::FfmpegMissing);
    let a = args_with(&[]);
    let p = plan_record(&a, Os::Windows, &missing).unwrap();
    assert_eq!(p.path, PathSel::Mf { hevc: false });
    assert_eq!(p.rate, RateControl::Cbr { bitrate_kbps: 8000 });
    assert!(p.show_cursor && !p.draw && !p.switched);
    let p = plan_record(&a, Os::Linux, &missing).unwrap();
    assert_eq!(p.path, PathSel::FfmpegLater);

    let mut a = args_with(&[]);
    a.encoder = "HEVC".to_string();
    a.output = Some("clip".to_string());
    a.canvas = Some("1280x720@60".to_string());
    let p = plan_record(&a, Os::Windows, &missing).unwrap();
    assert_eq!(p.path, PathSel::Mf { hevc: true });
    assert_eq!(p.output.as_deref(), Some("clip.mp4"));
    assert_eq!((p.canvas, p.ignored_fps), (Some((1280, 720)), Some(60)));

    // What changes pixels leaves the native encoder.
    let mut a = args_with(&[]);
    a.annotate = Some("doc.json".to_string());
    let p = plan_record(&a, Os::Windows, &Ok(info())).unwrap();
    assert!(p.switched);
    assert_eq!(p.path, PathSel::Ffmpeg(EncoderKind::H264Nvenc));
    assert!(plan_record(&a, Os::Windows, &missing).is_err());
    a.annotate = None;
    a.draw_test = Some(3);
    let p = plan_record(&a, Os::Windows, &Ok(info())).unwrap();
    assert!(p.switched && p.draw);

    let mut a = args_with(&[]);
    a.encoder = "QSV".to_string();
    a.rc = "CQP".to_string();
    a.qp = Some(20);
    let p = plan_record(&a, Os::Windows, &missing).unwrap();
    assert_eq!(p.path, PathSel::Ffmpeg(EncoderKind::H264Qsv));
    assert_eq!(p.rate, RateControl::Cqp { qp: 20 });
}

#[test]
fn bad_flags_are_refused() {
    let missing = Err(EncodeError::FfmpegMissing);
    let refused = |change: &dyn Fn(&mut RecordArgs)| {
        let mut a = args_with(&[]);
        change(&mut a);
        plan_record_lower(&a, &a.encoder, &a.rc, Os::Windows, &missing).unwrap_err()
    };
    assert_eq!(refused(&|a| a.fps = 0), "--fps must be 1..240");
    assert_eq!(refused(&|a| a.fps = 241), "--fps must be 1..240");
    assert_eq!(refused(&|a| a.bitrate = 499), "--bitrate must be 500..100000 kbps");
    assert_eq!(
        refused(&|a| {
            a.region = Some("0,0,64,64".to_string());
            a.canvas = Some("64x64".to_string());
        }),
        "--region and --canvas are mutually exclusive (region already fixes output size)"
    );
    assert_eq!(refused(&|a| a.system_gain = f(13.0)), "--system-gain must be -60..+12 dB");
    assert_eq!(refused(&|a| a.mic_gain = f(-61.0)), "--mic-gain must be -60..+12 dB");
    assert_eq!(refused(&|a| a.mic_gain = f(f32::NAN)), "--mic-gain must be -60..+12 dB");
    assert_eq!(
        refused(&|a| a.encoder = "zzz".to_string()),
        "ffmpeg probe failed: unknown encoder 'zzz' (want auto|nvenc|amf|qsv|x264)"
    );
    assert_eq!(
        refused(&|a| a.rc = "abr".to_string()),
        "unknown --rc 'abr' (want cbr|vbr|cqp|crf)"
    );
    assert_eq!(refused(&|a| a.rc = "cqp".to_string()), "--rc cqp needs --qp N (0..51)");
    assert_eq!(
        refused(&|a| a.rc = "vbr".to_string()),
        "--rc modes need an ffmpeg encoder (--encoder nvenc|amf|qsv|x264); MF is CBR-only"
    );
    assert_eq!(
        refused(&|a| a.canvas = Some("1x1".to_string())),
        "ffmpeg probe failed: canvas too small (min 64x64)"
    );
    assert_eq!(refused(&|a| a.countdown = Some(31)), "--countdown must be 1..30 seconds");
}

#[test]
fn rates_come_from_the_flags() {
    assert_eq!(
        rate_from_flags("vbr", 6001, None, None, None).unwrap(),
        RateControl::Vbr { target_kbps: 6001, max_kbps: 9001 }
    );
    assert_eq!(
        rate_from_flags("vbr", 6000, Some(7000), None, None).unwrap(),
        RateControl::Vbr { target_kbps: 6000, max_kbps: 7000 }
    );
    assert_eq!(
        rate_from_flags("crf", 6000, None, None, None).unwrap(),
        RateControl::Crf { crf: 23 }
    );
}

#[test]
fn encoders_off_windows() {
    assert_eq!(resolve_unix_encoder("auto", &Ok(info())).unwrap(), EncoderKind::H264Nvenc);
    assert_eq!(resolve_unix_encoder("h265", &Ok(info())).unwrap(), EncoderKind::HevcNvenc);
    assert_eq!(
        resolve_unix_encoder("x264", &Err(EncodeError::FfmpegMissing)).unwrap(),
        EncoderKind::LibX264
    );
    let mut bare = info();
    bare.has_nvenc = false;
    bare.has_libx264 = false;
    assert_eq!(
        resolve_unix_encoder("h264", &Ok(bare.clone())).unwrap_err(),
        "this ffmpeg has no H.264 encoder — see `qcapture --probe-ffmpeg`"
    );
    assert_eq!(
        resolve_unix_encoder("hevc", &Ok(bare)).unwrap_err(),
        "this ffmpeg has no HEVC encoder — try --encoder x264"
    );
    // The flag may be written in capitals.
    let mut a = args_with(&[]);
    a.encoder = "H265".to_string();
    assert_eq!(settle_encoder(&a, &Ok(info())).unwrap(), EncoderKind::HevcNvenc);
}

#[test]
fn pauses_need_both_ends() {
    assert_eq!(pause_times(None, None).unwrap(), None);
    assert_eq!(pause_times(Some(1), Some(2)).unwrap(), Some((1, 2)));
    assert_eq!(
        pause_times(Some(2), Some(2)).unwrap_err(),
        "--pause-at must be < --resume-at"
    );
    assert_eq!(
        pause_times(Some(2), None).unwrap_err(),
        "--resume-at is required with --pause-at"
    );
    assert_eq!(
        pause_times(None, Some(2)).unwrap_err(),
        "--pause-at is required with --resume-at"
    );
}

#[test]
fn countdown_counts_down() {
    let s = 1_000_000_000u64;
    let mut c = Countdown::new(3, 10 * s);
    assert_eq!(c.step(10 * s, 10 * s + 1, false), CountdownStep::Wait(Some(3)));
    assert_eq!(c.step(10 * s + 2, 10 * s + 3, false), CountdownStep::Wait(None));
    assert_eq!(c.step(11 * s + 2, 11 * s + 3, false), CountdownStep::Wait(Some(2)));
    assert_eq!(c.step(12 * s + 2, 12 * s + 3, true), CountdownStep::Cancelled);
    assert_eq!(c.step(12 * s + 2, 12 * s + 3, false), CountdownStep::Wait(Some(1)));
    assert_eq!(c.step(13 * s, 13 * s, true), CountdownStep::Go);
}

fn display(id: u32, primary: bool) -> DisplayInfo {
    DisplayInfo {
        id,
        name: format!("d{id}"),
        x: 0,
        y: -4,
        width: 1920,
        height: 1080,
        scale_factor: f(1.0),
        is_primary: primary,
        refresh_hz: Some(60),
    }
}

#[test]
fn displays_are_resolved() {
    let ds = || vec![display(0, false), display(1, true)];
    assert_eq!(resolve_display(0, Ok(ds())).unwrap().id, 1);
    assert_eq!(
        resolve_display(2, Ok(ds())).unwrap_err(),
        "--screen 2 out of range (2 displays)"
    );
    assert_eq!(resolve_display(0, Ok(vec![])).unwrap_err(), "no displays detected");
    assert_eq!(
        resolve_display(0, Err(CaptureError::NoDisplays)).unwrap_err(),
        "display enumeration failed: no displays found"
    );
    assert_eq!(overlay_display(1, Ok(ds())).unwrap().id, 1);
    assert_eq!(
        overlay_display(5, Ok(ds())).unwrap_err(),
        "--screen 5 out of range (2 displays; 0=primary)"
    );
    assert_eq!(overlay_display(5, Ok(vec![])).unwrap_err(), "no displays detected");
}

fn window(title: &str) -> WindowInfo {
    WindowInfo {
        id: -7,
        title: title.to_string(),
        app_name: "np".to_string(),
        x: 1,
        y: -2,
        width: 801,
        height: 10,
        minimized: true,
    }
}

#[test]
fn panels_fit_their_window() {
    let ws = || vec![window("Other"), window("Notepad Doc")];
    assert_eq!(window_panel_size(Ok(ws()), "NOTEPAD").unwrap(), (800, 64));
    assert_eq!(
        window_panel_size(Ok(ws()), "gimp").unwrap_err(),
        "no window matching 'gimp'"
    );
    assert_eq!(
        window_panel_size(Err(CaptureError::NoDisplays), "x").unwrap_err(),
        "window enumeration failed: no displays found"
    );
}

#[test]
fn starts_are_checked() {
    let cbr = RateControl::Cbr { bitrate_kbps: 8000 };
    assert!(check_start(EncoderKind::LibX264, cbr, 30, Os::Linux, false, &info()).is_ok());
    assert!(check_start(EncoderKind::LibX264, cbr, 30, Os::Windows, true, &info()).is_ok());
    assert_eq!(
        check_start(EncoderKind::LibX264, cbr, 30, Os::Linux, true, &info()).unwrap_err(),
        "cursor fx is Windows-only in this release (no portable cursor position API yet)"
    );
    assert_eq!(
        check_start(EncoderKind::H264Amf, cbr, 30, Os::Linux, false, &info()).unwrap_err(),
        "this ffmpeg has no h264_amf (ffmpeg version 7) — see `qcapture --probe-ffmpeg`"
    );
    assert!(check_start(
        EncoderKind::LibX264,
        RateControl::Cqp { qp: 1 },
        30,
        Os::Linux,
        false,
        &info()
    )
    .is_err());
}

#[test]
fn targets_are_window_then_region_then_screen() {
    let t = record_target(Some("w"), Some("0,0,64,64"), 1, 2, false).unwrap();
    assert_eq!(t, RecordTarget::Window("w".to_string()));
    assert_eq!(t.canvas(Some((64, 64))), Some((64, 64)));
    assert_eq!(t.panel_size((101, 3)), (100, 64));
    let t = record_target(None, Some("3,4,65,99"), 1, 2, false).unwrap();
    assert_eq!(t, RecordTarget::Region { screen: 1, x: 3, y: 4, w: 65, h: 99 });
    assert_eq!(t.canvas(Some((64, 64))), None);
    assert_eq!(t.panel_size((0, 0)), (64, 98));
    assert_eq!(record_target(None, None, 1, 2, false).unwrap(), RecordTarget::Screen(2));
    assert_eq!(
        record_target(None, Some("-3,4,65,99"), 1, 2, false).unwrap_err(),
        "--region x,y must be >= 0 (monitor-relative)"
    );
    assert_eq!(
        record_target(None, Some("-3,4,65,99"), 1, 2, true).unwrap_err(),
        "--region x,y must be >= 0 (monitor-relative in Phase 2a)"
    );
}

#[test]
fn reports_read_well() {
    let stats = AudioStats {
        quanta_emitted: 5,
        sys_underruns: 1,
        mic_underruns: 2,
        mic_packets_dropped: 0,
    };
    assert_eq!(audio_note(Some(stats)), " + AAC 5 quanta (1 sys/2 mic underruns)");
    assert_eq!(audio_note(Some(AudioStats::default())), "");
    assert_eq!(fx_note(CursorFx::opt(true, true)), " +cursor highlight+ripple");
    assert_eq!(fx_note(CursorFx::opt(false, true)), " +cursor ripple");
    assert_eq!(fx_note(None), "");
    assert_eq!(
        saved_line(
            "a.mp4",
            10,
            3,
            Some(2),
            "1.0",
            "0.50",
            EncoderKind::LibX264,
            CursorFx::opt(true, false),
            Some(stats)
        ),
        "Saved a.mp4 — 10 frames (3 annotated, 2 preview) in 1.0s, 0.50 MB via libx264 +cursor highlight + AAC 5 quanta (1 sys/2 mic underruns)."
    );
    assert_eq!(
        saved_line("a.mp4", 10, 3, None, "1.0", "0.50", EncoderKind::LibX264, None, None),
        "Saved a.mp4 — 10 frames (3 annotated) in 1.0s, 0.50 MB via libx264."
    );
    assert_eq!(
        native_saved_line("a.mp4", "1.0", "0.50", Some(stats)),
        "Saved a.mp4 — 1.0s, 0.50 MB. audio: AAC 5 quanta (1 sys / 2 mic underruns)."
    );
    assert_eq!(
        native_saved_line("a.mp4", "1.0", "0.50", None),
        "Saved a.mp4 — 1.0s, 0.50 MB. video-only (--no-audio or unavailable)."
    );
    assert_eq!(audio_started(Some("m")), "audio: system loopback on + mic 'm'");
    assert_eq!(audio_started(None), "audio: system loopback on");
    assert_eq!(audio_failed(true, "x").unwrap_err(), "audio pipeline failed: x");
    assert_eq!(
        audio_failed(false, "x").unwrap(),
        "warning: audio unavailable (x) — recording video-only"
    );
    assert_eq!(
        canvas_note(60, 30),
        "warning: --canvas fps 60 ignored, using --fps 30 (single clock)"
    );
    assert_eq!(
        switch_note(EncoderKind::H264Nvenc),
        "auto-switched to H264Nvenc for annotations/drawing/cursor-fx (MF is video-only)"
    );
    assert_eq!(default_output("20250102_030405"), "qcapture_20250102_030405.mp4");
    assert_eq!(sidecar_note("a.json", 0), "sidecar: a.json");
    assert_eq!(sidecar_note("a.json", 2), "sidecar: a.json (2 live strokes)");
}

fn dot(x: f32) -> Stroke {
    Stroke {
        points: vec![(f(x), f(x))],
        color: Rgba(1, 2, 3, 4),
        width_px: f(1.0),
        tool: Tool::Pen,
        text: None,
        appear_ms: 0,
        font_px: None,
        filled: false,
        font_path: None,
    }
}

#[test]
fn sidecars_hold_script_and_live_strokes() {
    assert!(sidecar_doc(None, 10, 10, vec![]).is_none());
    let script = demo_doc("640x480").unwrap();
    assert_eq!(sidecar_doc(Some(script.clone()), 10, 10, vec![]), Some(script.clone()));
    let mut hollow = dot(0.1);
    hollow.points.clear();
    let d = sidecar_doc(Some(script), 10, 10, vec![dot(2.0), hollow, dot(0.5)]).unwrap();
    assert_eq!(d.strokes.len(), 5);
    assert_eq!(d.strokes[3].points[0], (f(1.0), f(1.0)));
    let d = sidecar_doc(None, 70, 80, vec![dot(0.5)]).unwrap();
    assert_eq!((d.version, d.canvas_w, d.canvas_h, d.strokes.len()), (1, 70, 80, 1));
    let mut doc = AnnotateDoc::default();
    merge_strokes(&mut doc, vec![dot(0.25), dot(0.75)]);
    assert_eq!(doc.strokes[1].points[0], (f(0.75), f(0.75)));
}

#[test]
fn demo_document_is_complete() {
    let d = demo_doc("1920x1080").unwrap();
    assert_eq!(d.strokes.len(), 3);
    assert_eq!(d.strokes[0].points, vec![(f(0.05), f(0.05)), (f(0.95), f(0.95))]);
    assert_eq!(d.strokes[1].points, vec![(f(0.05), f(0.95)), (f(0.95), f(0.05))]);
    assert_eq!(d.strokes[2].points, vec![(f(0.08), f(0.78))]);
    assert_eq!(d.strokes[2].text.as_deref(), Some("QCapture demo"));
    assert_eq!(d.strokes[1].appear_ms, 1000);
    assert_eq!(d.strokes[0].width_px, f(6.0));
    assert_eq!(d.strokes[0].font_px, Some(f(48.0)));
    assert_eq!(demo_line("x.json", &d), "wrote x.json (3 strokes, canvas 1920x1080)");
    assert_eq!(
        annotations_line(&d, "x.json"),
        "annotations: 3 strokes + 0 watermarks from x.json"
    );
    assert!(demo_doc("x").is_err());
}

#[test]
fn lists_are_printed() {
    assert_eq!(
        display_line(&display(3, true), "1.00"),
        "#3 d3 1920x1080+0+-4 scale=1.00 primary=true refresh=Some(60)"
    );
    assert_eq!(window_line(&window("T")), "[-7] np — T (801x10+1+-2 minimized)");
    assert_eq!(
        preset_line(CanvasConfig { width: 1, height: 2, fps: 3 }),
        "  1x2 @ 3fps"
    );
}

#[test]
fn newest_ten_logs_stay() {
    let mut names: Vec<String> = (0..13)
        .map(|i| format!("qcapture-widget-202501{:02}_000000.log", 31 - i))
        .collect();
    names.push("notes.txt".to_string());
    names.push("qcapture-widget-19990101_000000.txt".to_string());
    let gone = stale_logs(&names);
    assert_eq!(gone, vec![10, 11, 12]);
    assert!(stale_logs(&names[..9].to_vec()).is_empty());
}

#[test]
fn ffmpeg_is_asked_only_where_a_native_encoder_gives_way() {
    let mut a = args_with(&[]);
    a.encoder = "Auto".to_string();
    assert!(!asks_ffmpeg(&a, Os::Windows));
    a.draw = true;
    assert!(asks_ffmpeg(&a, Os::Windows));
    assert!(!asks_ffmpeg(&a, Os::Linux));
    a.encoder = "nvenc".to_string();
    assert!(!asks_ffmpeg(&a, Os::Windows));
    a.encoder = "hevc".to_string();
    assert!(asks_ffmpeg(&a, Os::Windows));
    a.rc = "cqp".to_string();
    a.qp = None;
    assert!(!asks_ffmpeg(&a, Os::Windows));
    a.rc = "cbr".to_string();
    a.fps = 0;
    assert!(!asks_ffmpeg(&a, Os::Windows));
    // The fault is then the same whatever ffmpeg says.
    let missing = Err(EncodeError::FfmpegMissing);
    assert_eq!(
        plan_record(&a, Os::Windows, &missing).unwrap_err(),
        plan_record(&a, Os::Windows, &Ok(info())).unwrap_err()
    );
}
