use qcapture::encode::{
    best_h264, best_hevc, check_vbr, ffmpeg_encoder_name, finish, output_with_extension,
    parse_canvas, parse_encoder_kind, probe_ffmpeg, rate_control_args, resolve_auto_encoder,
    supports, validate_config, EncodeError, FfmpegInfo, RawvideoEncoder,
};
use qcapture::pump::encoder_name;
use qcapture::types::{CanvasConfig, Container, EncodeConfig, EncoderKind, RateControl};

#[test]
fn encoder_name_mapping() {
    assert_eq!(
        ffmpeg_encoder_name(EncoderKind::LibX264, EncoderKind::LibX264),
        "libx264"
    );
    assert_eq!(
        ffmpeg_encoder_name(EncoderKind::Auto, EncoderKind::H264Nvenc),
        "h264_nvenc"
    );
}

#[test]
fn output_ext() {
    assert_eq!(output_with_extension("rec", Container::Mp4), "rec.mp4");
    assert_eq!(output_with_extension("rec.mp4", Container::Mp4), "rec.mp4");
    assert_eq!(output_with_extension("rec", Container::Mkv), "rec.mkv");
}

#[test]
fn extension_is_added_once() {
    let once = output_with_extension("a.b.", Container::Mov);
    assert_eq!(once, "a.b.mov");
    assert_eq!(output_with_extension(&once, Container::Mov), once);
}

#[test]
fn canvas_parse() {
    assert_eq!(parse_canvas("1920x1080").unwrap(), (1920, 1080, None));
    assert_eq!(parse_canvas("1280x720@60").unwrap(), (1280, 720, Some(60)));
    assert!(parse_canvas("bad").is_err());
    assert!(parse_canvas("10x10").is_err());
}

#[test]
fn canvas_errors_say_what_is_wrong() {
    for (text, m) in [
        ("bad", "bad canvas 'bad' (want WxH[@fps])"),
        ("ax90", "bad canvas width in 'ax90'"),
        ("90xb", "bad canvas height in '90xb'"),
        ("90x90@z", "bad canvas fps in '90x90@z'"),
        ("63x64", "canvas too small (min 64x64)"),
    ] {
        assert_eq!(
            parse_canvas(text).unwrap_err().message(),
            format!("ffmpeg probe failed: {m}")
        );
    }
    assert_eq!(parse_canvas(" 64 x 64 @ 30 ").unwrap(), (64, 64, Some(30)));
}

#[test]
fn encoder_parse() {
    assert_eq!(parse_encoder_kind("auto").unwrap(), EncoderKind::Auto);
    assert_eq!(parse_encoder_kind("nvenc").unwrap(), EncoderKind::H264Nvenc);
    assert_eq!(parse_encoder_kind("x264").unwrap(), EncoderKind::LibX264);
    assert!(parse_encoder_kind("nope").is_err());
}

#[test]
fn encoder_names_ignore_letter_case() {
    // Lower-casing is std's: a text handed back unchanged would not be found.
    assert_eq!(parse_encoder_kind("NVENC").unwrap(), EncoderKind::H264Nvenc);
    assert_eq!(parse_encoder_kind("H264_QSV").unwrap(), EncoderKind::H264Qsv);
    assert_eq!(
        parse_encoder_kind("NoPe").unwrap_err().message(),
        "ffmpeg probe failed: unknown encoder 'nope' (want auto|nvenc|amf|qsv|x264)"
    );
}

fn has(s: &str, args: &[String]) -> bool {
    args.iter().any(|a| a == s)
}

#[test]
fn rc_cbr_matches_legacy_argsets() {
    // NVENC CBR keeps the proven 5a set: -b:v + -rc cbr + -g, no preset.
    let a = rate_control_args("h264_nvenc", &RateControl::Cbr { bitrate_kbps: 8000 }, 30).unwrap();
    assert!(has("-b:v", &a) && has("8000k", &a) && has("cbr", &a) && has("-g", &a));
    assert!(!has("-preset", &a));
    let a = rate_control_args("libx264", &RateControl::Cbr { bitrate_kbps: 8000 }, 30).unwrap();
    assert!(has("veryfast", &a) && has("120", &a)); // gop = 30*4
}

#[test]
fn rc_cqp_and_crf_routing() {
    let a = rate_control_args("h264_nvenc", &RateControl::Cqp { qp: 23 }, 30).unwrap();
    assert!(has("constqp", &a) && has("-qp", &a) && has("23", &a));
    assert!(!has("-b:v", &a));
    let a = rate_control_args("libx264", &RateControl::Crf { crf: 23 }, 30).unwrap();
    assert!(has("-crf", &a) && has("23", &a));
    // Cross-wired modes fail loudly, never silently remapped.
    assert!(rate_control_args("libx264", &RateControl::Cqp { qp: 23 }, 30).is_err());
    assert!(rate_control_args("h264_nvenc", &RateControl::Crf { crf: 23 }, 30).is_err());
    assert!(rate_control_args("h264_nvenc", &RateControl::Cqp { qp: 99 }, 30).is_err());
}

#[test]
fn rc_vbr_caps_and_validates() {
    let a = rate_control_args(
        "h264_nvenc",
        &RateControl::Vbr {
            target_kbps: 6000,
            max_kbps: 9000,
        },
        30,
    )
    .unwrap();
    assert!(has("6000k", &a) && has("9000k", &a) && has("18000k", &a) && has("vbr", &a));
    assert!(rate_control_args(
        "h264_nvenc",
        &RateControl::Vbr {
            target_kbps: 9000,
            max_kbps: 6000
        },
        30
    )
    .is_err());
    assert!(rate_control_args("nope_enc", &RateControl::Cbr { bitrate_kbps: 1000 }, 30).is_err());
}

#[test]
fn every_argument_list_ends_with_the_gop() {
    for name in ["h264_nvenc", "hevc_nvenc", "h264_amf", "h264_qsv", "av1_qsv", "libx264"] {
        let a = rate_control_args(name, &RateControl::Cbr { bitrate_kbps: 500 }, 25).unwrap();
        assert_eq!(&a[a.len() - 2..], &["-g".to_string(), "100".to_string()]);
    }
    let e = rate_control_args("h264_videotoolbox", &RateControl::Cbr { bitrate_kbps: 500 }, 25);
    assert_eq!(
        e.unwrap_err().message(),
        "ffmpeg probe failed: no rate mapping for encoder 'h264_videotoolbox' on this ffmpeg"
    );
}

#[test]
fn vbr_limits() {
    assert!(check_vbr(1, 1).is_ok());
    assert!(check_vbr(0, 1).is_err());
    assert!(check_vbr(2, 1).is_err());
}

fn info(nvenc: bool, x264: bool) -> FfmpegInfo {
    FfmpegInfo {
        version_line: "ffmpeg version 7".to_string(),
        has_nvenc: nvenc,
        has_amf: false,
        has_qsv: false,
        has_videotoolbox: false,
        has_libx264: x264,
    }
}

#[test]
fn probe_reads_what_ffmpeg_prints() {
    let p = probe_ffmpeg(
        Some((true, "ffmpeg version 7\nbuilt with gcc")),
        Ok(" V..... libx264 H.264\n V..... h264_nvenc NVIDIA"),
    )
    .unwrap();
    assert_eq!(p, info(true, true));
    assert_eq!(
        probe_ffmpeg(None, Ok("")).unwrap_err().message(),
        "ffmpeg not found in PATH — install ffmpeg 7.x or place ffmpeg.dll beside qcapture.exe"
    );
    assert_eq!(
        probe_ffmpeg(Some((false, "")), Ok("")).unwrap_err().message(),
        "ffmpeg probe failed: ffmpeg -version failed"
    );
    assert_eq!(
        probe_ffmpeg(Some((true, "v")), Err("io")).unwrap_err().message(),
        "ffmpeg probe failed: io"
    );
}

#[test]
fn choices_are_what_ffmpeg_provides() {
    assert_eq!(resolve_auto_encoder(&info(true, true)), EncoderKind::H264Nvenc);
    assert_eq!(resolve_auto_encoder(&info(false, true)), EncoderKind::LibX264);
    assert_eq!(best_h264(&info(false, false)), None);
    assert_eq!(best_hevc(&info(true, false)), Some(EncoderKind::HevcNvenc));
    assert_eq!(best_hevc(&info(false, true)), None);
    assert!(supports(EncoderKind::H264Nvenc, &info(true, false)));
    assert!(!supports(EncoderKind::H264Amf, &info(true, false)));
    assert_eq!(encoder_name(EncoderKind::Auto), "libx264");
}

#[test]
fn configs_are_validated() {
    let mut cfg = EncodeConfig::default();
    assert!(validate_config(&cfg).is_ok());
    cfg.canvas = CanvasConfig { width: 0, height: 10, fps: 30 };
    assert!(validate_config(&cfg).is_err());
    assert_eq!(
        EncodeError::UnsupportedEncoder(EncoderKind::Av1Qsv).message(),
        "unsupported encoder Av1Qsv for current OS"
    );
}

#[test]
fn child_writes_whole_frames_only() {
    let canvas = CanvasConfig { width: 64, height: 64, fps: 30 };
    let mut enc = RawvideoEncoder::plan(
        64,
        64,
        30,
        canvas,
        EncoderKind::LibX264,
        EncoderKind::LibX264,
        RateControl::Crf { crf: 20 },
        "out.mp4",
        None,
    )
    .unwrap();
    assert_eq!(enc.args.last().map(|s| s.as_str()), Some("out.mp4"));
    assert!(enc.args.iter().any(|a| a == "64x64"));
    assert_eq!(
        enc.write_frame(5, Ok(())).unwrap_err().message(),
        "ffmpeg probe failed: frame size 5 != 16384 (64x64) — skipping"
    );
    assert!(enc.write_frame(64 * 64 * 4, Ok(())).is_ok());
    assert_eq!(enc.frames_written(), 1);
    assert!(enc.write_frame(64 * 64 * 4, Err("broken pipe")).is_err());
    assert_eq!(enc.frames_written(), 1);
}

#[test]
fn child_failure_shows_the_last_lines() {
    assert!(finish(true, "exit status: 0", "noise").is_ok());
    let e = finish(false, "exit status: 1", "a\nb\nc\n").unwrap_err();
    assert_eq!(
        e.message(),
        "ffmpeg probe failed: ffmpeg exited exit status: 1:\na\nb\nc"
    );
    let many: Vec<String> = (0..20).map(|i| format!("l{i}")).collect();
    let e = finish(false, "s", &many.join("\n")).unwrap_err();
    assert!(e.message().contains(":\nl5\n") && !e.message().contains("l4\n"));
}

#[test]
fn crf_points_at_cqp_on_hardware_encoders() {
    let said = |name: &str| {
        rate_control_args(name, &RateControl::Crf { crf: 23 }, 30).unwrap_err().message()
    };
    for (name, vendor) in [
        ("h264_nvenc", "NVENC"),
        ("h264_amf", "AMF"),
        ("h264_qsv", "QSV"),
        ("hevc_qsv", "QSV"),
        ("av1_qsv", "QSV"),
    ] {
        let want = format!("{vendor} has no CRF mode — use --rc cqp --qp N instead");
        assert!(said(name).ends_with(&want), "{name}: {}", said(name));
    }
    assert!(said("mpeg4").ends_with("CRF is only supported with --encoder x264"));
}
