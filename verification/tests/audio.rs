use qcapture::audio::{
    audio_pipe_name, best_config, best_rate, check_available, check_mic_exists, check_sources,
    config_at_rate, find_input_device, find_monitor, list_input_devices, list_output_devices,
    mixer_turn, push_channels_as_stereo, sample_at, settle, truncate_fifo, AudioConfig, AudioStats,
    InputChoice, Mixer, MixerLevels, MixerTurn, SampleFormat, SharedLevels, StreamRange,
    MAX_FIFO_FRAMES, QUANTUM_NS,
};
use qcapture::single::F32;
use std::collections::VecDeque;

fn f(x: f32) -> F32 {
    F32 { bits: x.to_bits() }
}

#[test]
fn stereo_convert_mono_dup() {
    let mut fifo = VecDeque::new();
    push_channels_as_stereo(&mut fifo, &[0.5, -0.5], 1);
    assert_eq!(fifo.len(), 4);
    assert_eq!([fifo[0], fifo[1], fifo[2], fifo[3]], [0.5, 0.5, -0.5, -0.5]);
}

#[test]
fn stereo_convert_multichannel_takes_lr() {
    let mut fifo = VecDeque::new();
    push_channels_as_stereo(&mut fifo, &[1.0, 2.0, 3.0, 4.0, 5.0, 6.0], 3);
    assert_eq!(fifo.len(), 4);
    assert_eq!([fifo[0], fifo[1], fifo[2], fifo[3]], [1.0, 2.0, 4.0, 5.0]);
}

#[test]
fn queues_keep_the_newest() {
    let mut fifo: VecDeque<u32> = (0..(MAX_FIFO_FRAMES as u32 * 2 + 10)).collect();
    truncate_fifo(&mut fifo);
    assert_eq!(fifo.len(), MAX_FIFO_FRAMES * 2);
    assert_eq!(fifo[0], 10);
    assert_eq!(sample_at(&fifo, 0, 7), 10);
    assert_eq!(sample_at(&fifo, 999_999_999, 7), 7);
}

#[test]
fn underruns_empty_the_queue() {
    let mut fifo: VecDeque<u32> = (0..8).collect();
    assert!(settle(&mut fifo, 3, 2));
    assert_eq!(fifo.len(), 4);
    assert!(!settle(&mut fifo, 3, 2));
    assert!(fifo.is_empty());
}

#[test]
fn levels_are_shared() {
    let mut l = SharedLevels::new(MixerLevels::default());
    assert_eq!(l.snapshot().gain_of(false), Some(f(1.0)));
    l.set_gain(true, f(0.5));
    l.set_muted(false, true);
    assert!(l.muted(false) && !l.muted(true));
    assert_eq!(l.snapshot().gain_of(false), None);
    assert_eq!(l.snapshot().gain_of(true), Some(f(0.5)));
    l.observe_peak(f(0.25));
    l.observe_peak(f(0.125));
    assert_eq!(l.take_peak(), f(0.25));
    assert_eq!(l.take_peak(), f(0.0));
}

#[test]
fn devices_are_listed_and_found() {
    let names = || vec!["Mic A".to_string(), "USB Mic".to_string()];
    let ins = list_input_devices(Ok(names())).unwrap();
    assert_eq!(ins.len(), 2);
    assert!(ins[0].is_input && !ins[0].is_loopback);
    assert!(!list_output_devices(Ok(names())).unwrap()[0].is_input);
    assert!(list_input_devices(Err("x".to_string())).is_err());
    assert!(matches!(
        find_input_device("DEFAULT", true, Ok(names())),
        Ok(InputChoice::Default)
    ));
    assert!(matches!(
        find_input_device("usb", true, Ok(names())),
        Ok(InputChoice::Listed(1))
    ));
    assert!(find_input_device("none", true, Ok(names())).is_err());
    assert!(check_mic_exists("mic a", true, Ok(names())).is_ok());
    let sinks = vec!["Speakers".to_string(), "Monitor of Speakers".to_string()];
    assert_eq!(find_monitor(Ok(sinks)).unwrap(), 1);
}

#[test]
fn stream_formats_are_ranked() {
    let range = |min_rate, max_rate, channels, format| StreamRange {
        format,
        min_rate,
        max_rate,
        channels,
    };
    let v = vec![
        range(44_100, 44_100, 2, SampleFormat::F32),
        range(8_000, 96_000, 1, SampleFormat::I16),
        range(8_000, 96_000, 2, SampleFormat::F32),
    ];
    let (i, rate) = best_config(&v).unwrap();
    assert_eq!((i, rate), (2, 48_000));
    assert_eq!(config_at_rate(&v, 44_100).unwrap(), 0);
    assert_eq!(best_rate(&v), 48_000);
    assert!(best_config(&vec![]).is_err());
}

#[test]
fn sources_must_be_asked_for_and_there() {
    let none = AudioConfig { capture_system: false, mic_query: None };
    assert!(check_sources(&none).is_err());
    let sys = AudioConfig { capture_system: true, mic_query: None };
    assert!(check_sources(&sys).is_ok());
    assert!(check_available(true, &sys).is_ok());
    assert!(check_available(false, &sys).is_err());
}

#[test]
fn mixer_idles_while_paused() {
    assert_eq!(mixer_turn(true, true), MixerTurn::Stop);
    assert_eq!(mixer_turn(false, true), MixerTurn::Idle);
    assert_eq!(mixer_turn(false, false), MixerTurn::Mix);
    assert_eq!(AudioStats::default().quanta_emitted, 0);
    let mut m = Mixer::new(0);
    m.note_packet(false);
    m.note_quantum(Some(true), None, true);
    m.note_quantum(Some(false), None, true);
    assert_eq!(m.stats.quanta_emitted, 2);
    assert_eq!(m.stats.sys_underruns, 1);
    assert_eq!(m.pace(0), QUANTUM_NS);
}

#[test]
fn pipes_have_names_of_their_own() {
    assert_ne!(audio_pipe_name(1, 2), audio_pipe_name(1, 3));
    assert_ne!(audio_pipe_name(1, 2), audio_pipe_name(2, 2));
}
