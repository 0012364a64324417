//! Recorded audio: levels, voice detection, capture and calibration.

use voxtype::calibration::{
    analyze, suggested_threshold, CalibrationConfidence, CalibrationReason,
};
use voxtype::capture::{
    capture_command, configured_device, duration_millis, frame_metrics, is_recording_file,
    pipewire_command, pulseaudio_command, recording_name, start_failure, startup_exit,
    stop_failure, CaptureMeter,
};
use voxtype::level::{
    frame_level, integer_sqrt, percentile, root_mean_square, sort_levels, sum_frame,
};
use voxtype::vad::{
    analyze_pcm, trim_range, StreamingVad, VadConfig, VadEvent, BYTES_PER_FRAME, HANGOVER_FRAMES,
    RELEASE_FRAMES,
};

const CONFIG: VadConfig = VadConfig { rms_threshold: 300, minimum_voiced_frames: 2 };

fn frame(level: i16) -> Vec<u8> {
    let mut pcm = Vec::with_capacity(BYTES_PER_FRAME);
    for _ in 0..(BYTES_PER_FRAME / 2) {
        pcm.extend_from_slice(&level.to_le_bytes());
    }
    pcm
}

fn frames(levels: &[i16]) -> Vec<u8> {
    let mut pcm = Vec::new();
    for level in levels {
        pcm.extend(frame(*level));
    }
    pcm
}

#[test]
fn rejects_silence_and_tracks_noise() {
    let result = analyze_pcm(&frames(&[100; 20]), CONFIG);
    assert!(!result.speech_detected);
    assert_eq!(result.noise_floor, 100);
    assert_eq!(result.adaptive_threshold, 300);
}

#[test]
fn detects_speech_with_padded_trim_boundaries() {
    let mut levels = vec![100; 20];
    levels.extend([2_000; 10]);
    levels.extend([100; 30]);
    let result = analyze_pcm(&frames(&levels), CONFIG);
    assert!(result.speech_detected);
    assert_eq!(result.speech_start_frame, Some(20));
    assert_eq!(result.speech_end_frame, Some(30));
    assert_eq!(result.trim_start_frame, Some(12));
    assert_eq!(result.trim_end_frame, Some(45));
    assert_eq!(trim_range(&result, 60 * BYTES_PER_FRAME), Some((12 * 640, 45 * 640)));
}

#[test]
fn preserves_first_start_and_last_end_across_multiple_segments() {
    let mut levels = vec![100; 10];
    levels.extend([2_000; 5]);
    levels.extend([100; 20]);
    levels.extend([2_000; 5]);
    levels.extend([100; 2]);
    let result = analyze_pcm(&frames(&levels), CONFIG);

    assert!(result.speech_detected);
    assert_eq!(result.speech_start_frame, Some(10));
    assert_eq!(result.speech_end_frame, Some(40));
    assert_eq!(result.trim_start_frame, Some(2));
    assert_eq!(result.trim_end_frame, Some(42));
}

#[test]
fn streaming_events_include_attack_release_and_hangover() {
    let mut vad = StreamingVad::with_noise_floor(CONFIG, 100);
    let mut events = Vec::new();
    let mut release_state = None;
    for level in [2_000; 5].into_iter().chain([100; 15]) {
        let analysis = vad.process_frame(&frame(level));
        if analysis.release_frames == RELEASE_FRAMES {
            release_state = Some(analysis);
        }
        if let Some(event) = analysis.event {
            events.push(event);
        }
    }

    let release_state = release_state.expect("release state is observed");
    assert!(release_state.speech_active);
    assert_eq!(release_state.hangover_frames_remaining, HANGOVER_FRAMES);
    assert_eq!(
        events,
        vec![VadEvent::SpeechStarted { frame: 0 }, VadEvent::SpeechEnded { frame: 5 }]
    );
    let result = vad.finish();
    assert_eq!(result.speech_start_frame, Some(0));
    assert_eq!(result.speech_end_frame, Some(5));
}

#[test]
fn non_speech_noise_updates_raise_the_streaming_threshold() {
    let mut vad = StreamingVad::new(CONFIG);
    for _ in 0..20 {
        let analysis = vad.process_frame(&frame(100));
        assert!(analysis.event.is_none());
    }
    let initial_threshold = vad.adaptive_threshold();
    for _ in 0..80 {
        let analysis = vad.process_frame(&frame(220));
        assert!(analysis.event.is_none());
        assert!(!analysis.speech_active);
    }
    let result = vad.finish();

    assert_eq!(initial_threshold, 300);
    assert!(result.noise_floor > 180);
    assert!(result.adaptive_threshold > initial_threshold);
    assert!(!result.speech_detected);
}

#[test]
fn transient_click_does_not_start_speech_or_raise_noise() {
    let mut vad = StreamingVad::with_noise_floor(CONFIG, 100);
    let first = vad.process_frame(&frame(2_000));
    let second = vad.process_frame(&frame(100));
    let result = vad.finish();

    assert_eq!(first.attack_frames, 1);
    assert!(first.event.is_none());
    assert_eq!(second.attack_frames, 0);
    assert!(second.event.is_none());
    assert!(!result.speech_detected);
    assert_eq!(result.noise_floor, 100);
}

#[test]
fn detects_fast_speech_onset_at_stream_start() {
    let mut vad = StreamingVad::new(CONFIG);
    let first = vad.process_frame(&frame(2_000));
    let second = vad.process_frame(&frame(2_000));
    let result = vad.finish();

    assert_eq!(first.attack_frames, 1);
    assert_eq!(second.event, Some(VadEvent::SpeechStarted { frame: 0 }));
    assert_eq!(result.speech_start_frame, Some(0));
    assert_eq!(result.speech_end_frame, Some(2));
}

#[test]
fn ignores_short_click_without_losing_a_fast_speech_onset() {
    let result = analyze_pcm(&frames(&[2_000, 100, 2_000, 2_000, 2_000, 100]), CONFIG);
    assert!(result.speech_detected);
    assert_eq!(result.speech_start_frame, Some(2));
    assert_eq!(result.trim_start_frame, Some(0));
}

#[test]
fn adaptive_threshold_rejects_steady_loud_background() {
    let mut levels = vec![800; 30];
    levels.extend([1_000; 3]);
    let result = analyze_pcm(&frames(&levels), CONFIG);
    assert!(!result.speech_detected);
    assert_eq!(result.adaptive_threshold, 1_200);
}

#[test]
fn detects_short_recording_dominated_by_speech() {
    let result = analyze_pcm(&frames(&[2_000; 8]), CONFIG);
    assert!(result.speech_detected);
    assert_eq!(result.adaptive_threshold, 1_200);
}

#[test]
fn integer_square_root_is_bounded() {
    assert_eq!(integer_sqrt(0), 0);
    assert_eq!(integer_sqrt(2_000_u64.pow(2)), 2_000);
    assert_eq!(integer_sqrt(15), 3);
    assert_eq!(integer_sqrt(u64::MAX), 4_294_967_295);
}

#[test]
fn an_empty_recording_holds_no_speech() {
    let result = analyze_pcm(&[], CONFIG);
    assert!(!result.speech_detected);
    assert_eq!(result.total_frames, 0);
    assert_eq!(trim_range(&result, 0), None);
}

#[test]
fn speech_never_teaches_the_noise_floor() {
    let mut vad = StreamingVad::with_noise_floor(CONFIG, 100);
    for _ in 0..30 {
        let analysis = vad.process_level(5_000);
        assert_eq!(analysis.noise_floor, 100);
    }
    let result = vad.finish();
    assert_eq!(result.noise_floor, 100);
    assert_eq!(result.voiced_frames, 30);
}

#[test]
fn levels_are_root_mean_squares() {
    assert_eq!(frame_level(&frame(-1_000)), (1_000, 1_000));
    assert_eq!(root_mean_square(0, 0), 0);
    assert_eq!(root_mean_square(400, 4), 10);
    let sum = sum_frame(&frame(i16::MIN), 32_735);
    assert_eq!((sum.samples, sum.peak, sum.clipped), (320, 32_768, 320));
    assert_eq!(sort_levels(&[3, 1, 2, 1]), [1, 1, 2, 3]);
    assert_eq!(percentile(&[40, 10, 30, 20, 50], 0), 10);
    assert_eq!(percentile(&[40, 10, 30, 20, 50], 50), 30);
    assert_eq!(percentile(&[40, 10, 30, 20, 50], 100), 50);
}

#[test]
fn duration_uses_sixteen_kilohertz_mono_i16() {
    let bytes = 32_000_u64;
    assert_eq!(bytes.saturating_mul(1_000) / 32_000, 1_000);
    assert_eq!(duration_millis(bytes), 1_000);
    assert_eq!(duration_millis(640), 20);
    assert_eq!(duration_millis(u64::MAX), u64::MAX / 32_000);
}

#[test]
fn prefers_native_pipewire_capture_when_available() {
    for has_pipewire in [true, false] {
        let (backend, _arguments) = capture_command(has_pipewire, None);
        if has_pipewire {
            assert_eq!(backend, "pw-record");
        } else {
            assert_eq!(backend, "parec");
        }
    }
}

#[test]
fn places_pipewire_target_before_stdout_path() {
    let args = pipewire_command(Some("alsa_input.test"));
    assert_eq!(&args[args.len() - 3..], ["--target", "alsa_input.test", "-"]);
}

#[test]
fn selects_one_pulseaudio_device() {
    let arguments = pulseaudio_command(Some(" source.test "));
    let devices = arguments
        .iter()
        .filter(|arg| arg.starts_with("--device="))
        .collect::<Vec<_>>();
    assert_eq!(devices, ["--device=source.test"]);
}

#[test]
fn a_blank_or_default_device_is_not_named() {
    assert_eq!(configured_device(None), None);
    assert_eq!(configured_device(Some("  ")), None);
    assert_eq!(configured_device(Some(" a ")), Some("a"));
    assert_eq!(
        pulseaudio_command(None).last().map(String::as_str),
        Some("--device=@DEFAULT_SOURCE@")
    );
    assert!(!pipewire_command(Some(" ")).contains(&"--target".to_owned()));
}

#[test]
fn reports_frame_level_and_clipping_without_retaining_audio() {
    let mut pcm = vec![0_u8; BYTES_PER_FRAME];
    for bytes in pcm.chunks_exact_mut(2) {
        bytes.copy_from_slice(&1_000_i16.to_le_bytes());
    }
    pcm[..2].copy_from_slice(&i16::MAX.to_le_bytes());
    let metrics = frame_metrics(7, &pcm);
    assert_eq!(metrics.frame, 7);
    assert!(metrics.rms >= 999);
    assert_eq!(metrics.peak, i16::MAX.unsigned_abs());
    assert_eq!(metrics.clipped_samples, 1);
    assert_eq!(metrics.samples, 320);
    assert_eq!(metrics.to_capture().peak, metrics.peak);
}

#[test]
fn a_meter_counts_frames_across_chunks() {
    let mut meter = CaptureMeter::new();
    assert!(meter.take(&[0; 600]).is_empty());
    let metrics = meter.take(&[0; 700]);
    assert_eq!(metrics.len(), 2);
    assert_eq!((metrics[0].frame, metrics[1].frame), (0, 1));
    assert_eq!(meter.written(), 1_300);
}

#[test]
fn recordings_are_told_from_other_files() {
    let name = recording_name(42, 1_700);
    assert!(is_recording_file(&name));
    assert!(!is_recording_file("fcitx.sock"));
    assert!(is_recording_file("recording-old.pcm"));
    assert!(!is_recording_file("recording-old.wav"));
    assert_ne!(recording_name(42, 1_701), name);
}

#[test]
fn capture_failures_say_what_failed() {
    assert!(start_failure("reason").message().contains("reason"));
    assert!(stop_failure("reason").message().contains("reason"));
    assert_ne!(start_failure("x").code(), stop_failure("x").code());
    assert!(startup_exit("parec", "exit status: 1").contains("parec"));
}

fn snr_db(speech: u16, noise: u16) -> f64 {
    20.0 * (f64::from(speech.max(1)) / f64::from(noise.max(1))).log10()
}

#[test]
fn accepts_stable_noise_and_clear_speech() {
    let result = analyze(&frames(&[100; 75]), &frames(&[2_000; 150])).expect("calibration");
    assert_eq!(result.confidence, CalibrationConfidence::High);
    assert_eq!(result.reason, CalibrationReason::Good);
    assert!(snr_db(result.speech_p50, result.noise_p50) > 20.0);
    assert!(result.suggested_threshold > result.noise_p95);
    assert!(result.suggested_threshold < result.speech_p50);
    assert!(result.can_apply);
}

#[test]
fn rejects_a_speaking_phase_without_speech() {
    let result = analyze(&frames(&[100; 75]), &frames(&[110; 150])).expect("calibration");
    assert_eq!(result.reason, CalibrationReason::NoSpeech);
    assert_eq!(result.confidence, CalibrationConfidence::Low);
    assert!(!result.can_apply);
}

#[test]
fn rejects_clipped_speech() {
    let result = analyze(&frames(&[100; 75]), &frames(&[32_767; 150])).expect("calibration");
    assert_eq!(result.reason, CalibrationReason::Clipping);
    assert!(!result.can_apply);
    assert!(result.clipped_samples as f64 / result.total_samples as f64 > 0.5);
}

#[test]
fn rejects_unstable_quiet_phase() {
    let mut noise = Vec::new();
    noise.extend([100; 60]);
    noise.extend([1_200; 15]);
    let result = analyze(&frames(&noise), &frames(&[2_000; 150])).expect("calibration");
    assert_eq!(result.reason, CalibrationReason::UnstableNoise);
    assert!(!result.can_apply);
}

#[test]
fn requires_half_a_second_per_phase() {
    let error = analyze(&frames(&[100; 24]), &frames(&[2_000; 25])).expect_err("short phase");
    assert_eq!(error.message(), "calibration phases are too short");
}

#[test]
fn quiet_or_marginal_speech_is_named() {
    let quiet = analyze(&frames(&[20; 25]), &frames(&[300; 25])).expect("calibration");
    assert_eq!(quiet.reason, CalibrationReason::TooQuiet);
    assert_eq!(quiet.reason.as_str(), "too-quiet");
    let marginal = analyze(&frames(&[1_000; 25]), &frames(&[3_000; 25])).expect("calibration");
    assert_eq!(marginal.reason, CalibrationReason::MarginalSnr);
    assert_eq!(marginal.confidence, CalibrationConfidence::Medium);
    assert_eq!(marginal.confidence.as_str(), "medium");
    assert_eq!(suggested_threshold(100, 2_000), 575);
    assert_eq!(suggested_threshold(500, 400), 580);
}

/// The exact comparisons of a ratio agree with the level in decibels at every noise level.
#[test]
fn signal_limits_agree_with_decibels() {
    for noise in (1..6_000_u16).step_by(37) {
        for speech in [noise.saturating_mul(2), noise.saturating_mul(4), noise.saturating_mul(7)] {
            for nudge in 0..6_i32 {
                let level = i32::from(speech) + nudge - 3;
                if !(1..=32_000).contains(&level) {
                    continue;
                }
                let level = level as u16;
                let result = analyze(&frames(&[noise as i16; 25]), &frames(&[level as i16; 25]))
                    .expect("calibration");
                let db = snr_db(result.speech_p50, result.noise_p50);
                if result.reason == CalibrationReason::Good {
                    assert!(db >= 12.0);
                    assert_eq!(result.confidence == CalibrationConfidence::High, db >= 16.0);
                }
                if result.reason == CalibrationReason::MarginalSnr {
                    assert!((6.0..12.0).contains(&db));
                }
            }
        }
    }
}
