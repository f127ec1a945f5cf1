use voiceinsert::audio::levels::{
    absolute_sum_i16, peak_amplitude_i16, peak_amplitude_i16_le, should_stop_on_silence,
};
use voiceinsert::audio::recorder::{
    append_limited_samples, capture_chunk, choose_stream_config, convert_i16_to_i16,
    convert_i24_to_i16, convert_i32_to_i16, convert_i64_to_i16, convert_i8_to_i16,
    convert_u16_to_i16, convert_u32_to_i16, convert_u64_to_i16, convert_u8_to_i16, downmix_to_mono, encode_wav_mono_16khz_i16, encode_wav_mono_i16,
    max_buffer_samples, AudioDevice, AudioError, RecorderConfig, TARGET_SAMPLE_RATE,
};
use voiceinsert::settings::RecordingMode;
use voiceinsert::sounds::{output_plan, sound_asset_name, OutputSource, SampleLayout, SoundKind, SoundLayoutError};

fn level(amplitude: u32) -> f32 {
    (amplitude as f32 / 32768.0).clamp(0.0, 1.0)
}

#[test]
fn toggle_and_hold_do_not_stop_on_silence() {
    assert!(!should_stop_on_silence(RecordingMode::Toggle));
    assert!(!should_stop_on_silence(RecordingMode::Hold));
}

#[test]
fn silence_timeout_stops_on_silence() {
    assert!(should_stop_on_silence(RecordingMode::SilenceTimeout));
}

#[test]
fn silence_policy_matches_spec() {
    assert!(!should_stop_on_silence(RecordingMode::Toggle));
    assert!(!should_stop_on_silence(RecordingMode::Hold));
    assert!(should_stop_on_silence(RecordingMode::SilenceTimeout));
}

#[test]
fn peak_level_reads_signed_16bit_samples() {
    let bytes = [0x00, 0x00, 0xff, 0x7f];
    let level = level(peak_amplitude_i16_le(&bytes));
    assert!(level > 0.99);
}

#[test]
fn peak_level_uses_i16_minimum_as_full_scale() {
    let bytes = [0x00, 0x80];

    assert_eq!(level(peak_amplitude_i16_le(&bytes)), 1.0);
    assert_eq!(peak_amplitude_i16_le(&bytes), 32768);
}

#[test]
fn peak_level_ignores_trailing_partial_sample() {
    let bytes = [0x00, 0x40, 0xff];

    assert_eq!(level(peak_amplitude_i16_le(&bytes)), 0.5);
}

#[test]
fn peak_of_samples_uses_absolute_values() {
    assert_eq!(peak_amplitude_i16(&[]), 0);
    assert_eq!(peak_amplitude_i16(&[3, -7, 5]), 7);
    assert_eq!(peak_amplitude_i16(&[i16::MIN, i16::MAX]), 32768);
}

#[test]
fn absolute_sum_adds_magnitudes() {
    assert_eq!(absolute_sum_i16(&[]), 0);
    assert_eq!(absolute_sum_i16(&[1, -2, 3, i16::MIN]), 6 + 32768);
}

#[test]
fn audio_device_label_includes_index_and_name() {
    let device = AudioDevice::new(2, "Microphone Array".to_string());

    assert_eq!(device.label, "[2] Microphone Array");
}

#[test]
fn recorder_defaults_capture_at_target_rate_for_an_hour() {
    let config = RecorderConfig::default();
    assert_eq!(config.device_index, None);
    assert_eq!(config.sample_rate, TARGET_SAMPLE_RATE);
    assert_eq!(config.max_buffer_samples, 16_000 * 3600);
}

#[test]
fn wav_encoding_writes_riff_wave_header() {
    let bytes = encode_wav_mono_16khz_i16(&[0, i16::MAX, i16::MIN]).unwrap();

    assert_eq!(&bytes[0..4], b"RIFF");
    assert_eq!(&bytes[8..12], b"WAVE");
}

#[test]
fn wav_encoding_matches_ai2npu_required_format() {
    let bytes = encode_wav_mono_16khz_i16(&[0, i16::MAX, i16::MIN]).unwrap();

    assert_eq!(u16::from_le_bytes(bytes[22..24].try_into().unwrap()), 1);
    assert_eq!(u32::from_le_bytes(bytes[24..28].try_into().unwrap()), 16_000);
    assert_eq!(u16::from_le_bytes(bytes[34..36].try_into().unwrap()), 16);
}

#[test]
fn wav_encoding_writes_exact_bytes() {
    let bytes = encode_wav_mono_i16(&[1, -2], 8000).unwrap();
    let mut expected: Vec<u8> = Vec::new();
    expected.extend_from_slice(b"RIFF");
    expected.extend_from_slice(&40u32.to_le_bytes());
    expected.extend_from_slice(b"WAVEfmt ");
    expected.extend_from_slice(&16u32.to_le_bytes());
    expected.extend_from_slice(&1u16.to_le_bytes());
    expected.extend_from_slice(&1u16.to_le_bytes());
    expected.extend_from_slice(&8000u32.to_le_bytes());
    expected.extend_from_slice(&16000u32.to_le_bytes());
    expected.extend_from_slice(&2u16.to_le_bytes());
    expected.extend_from_slice(&16u16.to_le_bytes());
    expected.extend_from_slice(b"data");
    expected.extend_from_slice(&4u32.to_le_bytes());
    expected.extend_from_slice(&[1, 0, 0xfe, 0xff]);
    assert_eq!(bytes, expected);
}

#[test]
fn wav_encoding_rejects_zero_sample_rate() {
    assert!(matches!(
        encode_wav_mono_i16(&[0], 0),
        Err(AudioError::UnsupportedFormat)
    ));
}

#[test]
fn integer_sample_conversions_cover_full_scale_values() {
    assert_eq!(convert_i16_to_i16(-5), -5);
    assert_eq!(convert_i8_to_i16(i8::MIN), i16::MIN);
    assert_eq!(convert_i8_to_i16(i8::MAX), i16::MAX);
    assert_eq!(convert_i8_to_i16(0), 0);
    assert_eq!(convert_i32_to_i16(i32::MIN), i16::MIN);
    assert_eq!(convert_i32_to_i16(i32::MAX), i16::MAX);
    assert_eq!(convert_u8_to_i16(0), i16::MIN);
    assert_eq!(convert_u8_to_i16(u8::MAX), i16::MAX);
    assert_eq!(convert_u16_to_i16(0), i16::MIN);
    assert_eq!(convert_u16_to_i16(u16::MAX), i16::MAX);
    assert_eq!(convert_u32_to_i16(0), i16::MIN);
    assert_eq!(convert_u32_to_i16(u32::MAX), i16::MAX);
}

#[test]
fn sample_conversions_round_like_floating_point_scaling() {
    for sample in [-100i8, -1, 1, 64, 100] {
        let expected = if sample < 0 {
            ((sample as f64 / 128.0) * 32768.0).round() as i16
        } else {
            ((sample as f64 / 127.0) * 32767.0).round() as i16
        };
        assert_eq!(convert_i8_to_i16(sample), expected);
    }
    for sample in [1u16, 1000, 32768, 40000, 65534] {
        let signed = sample as i64 - 32768;
        let expected = if signed < 0 {
            ((signed as f64 / 32768.0) * 32768.0).round() as i16
        } else {
            ((signed as f64 / 32767.0) * 32767.0).round() as i16
        };
        assert_eq!(convert_u16_to_i16(sample), expected);
    }
}

#[test]
fn append_limited_samples_keeps_most_recent_samples() {
    let mut buffer = vec![1, 2, 3];

    append_limited_samples(&mut buffer, &[4, 5, 6], 4);

    assert_eq!(buffer, vec![3, 4, 5, 6]);
}

#[test]
fn append_limited_samples_with_zero_limit_keeps_nothing() {
    let mut buffer = vec![1, 2, 3];
    append_limited_samples(&mut buffer, &[4], 0);
    assert!(buffer.is_empty());
}

#[test]
fn downmix_averages_frames() {
    assert_eq!(downmix_to_mono(&[10, 20, -4, 4, 7], 2), vec![15, 0, 7]);
    assert_eq!(downmix_to_mono(&[1, 2, 3], 0), vec![1, 2, 3]);
}

#[test]
fn capture_chunk_downmixes_appends_and_reports_peak() {
    let mut buffer = vec![9, 9];
    let level = capture_chunk(&mut buffer, &[100, 300, -1000, -2000], 2, 3);
    assert_eq!(buffer, vec![9, 200, -1500]);
    assert_eq!(level, 1500);
}

#[test]
fn stream_config_prefers_a_range_holding_the_rate() {
    assert_eq!(choose_stream_config(&[], 16_000), None);
    assert_eq!(
        choose_stream_config(&[(44_100, 48_000), (8_000, 96_000)], 16_000),
        Some((1, 16_000))
    );
    assert_eq!(
        choose_stream_config(&[(44_100, 48_000), (96_000, 96_000)], 16_000),
        Some((0, 48_000))
    );
}

#[test]
fn buffer_size_covers_the_maximum_recording() {
    assert_eq!(max_buffer_samples(120), 120 * 16_000);
    assert_eq!(max_buffer_samples(u64::MAX), usize::MAX);
}

#[test]
fn sound_assets_are_named_per_event() {
    assert_eq!(sound_asset_name(SoundKind::Start), "record-start.wav");
    assert_eq!(sound_asset_name(SoundKind::Stop), "record-stop.wav");
    assert_eq!(sound_asset_name(SoundKind::Error), "record-error.wav");
}

#[test]
fn output_plan_matches_output_format() {
    let mono = SampleLayout {
        sample_rate: 8_000,
        channels: 1,
    };
    let stereo = SampleLayout {
        sample_rate: 16_000,
        channels: 2,
    };
    let plan = output_plan(4, mono, stereo).unwrap();
    assert_eq!(plan.len() % 2, 0);
    assert_eq!(plan.len(), 16);
    assert_eq!(plan[0], OutputSource::Sample(0));
    assert_eq!(plan[1], OutputSource::Sample(0));
    assert_eq!(plan[2], OutputSource::Sample(0));
    assert_eq!(plan[4], OutputSource::Sample(1));
    assert_eq!(plan[15], OutputSource::Sample(3));

    let down = output_plan(4, stereo, SampleLayout { sample_rate: 16_000, channels: 1 }).unwrap();
    assert_eq!(
        down,
        vec![
            OutputSource::Average { start: 0, count: 2 },
            OutputSource::Average { start: 2, count: 2 }
        ]
    );
    assert_eq!(
        output_plan(4, SampleLayout { sample_rate: 0, channels: 1 }, stereo),
        Err(SoundLayoutError::ZeroSourceRate)
    );
    assert_eq!(
        output_plan(4, mono, SampleLayout { sample_rate: 48_000, channels: 0 }),
        Err(SoundLayoutError::NoTargetChannels)
    );
}

/// The scaling as the floating-point formula computes it for `bits`-bit samples.
fn float_scaled(sample: i64, bits: u32) -> i16 {
    let negative_full_scale = -(1_i128 << (bits - 1));
    let positive_full_scale = (1_i128 << (bits - 1)) - 1;
    let sample = i128::from(sample);
    if sample <= negative_full_scale {
        return i16::MIN;
    }
    if sample >= positive_full_scale {
        return i16::MAX;
    }
    if sample < 0 {
        ((sample as f64 / -(negative_full_scale as f64)) * 32768.0)
            .round()
            .clamp(f64::from(i16::MIN), f64::from(i16::MAX)) as i16
    } else {
        ((sample as f64 / positive_full_scale as f64) * f64::from(i16::MAX))
            .round()
            .clamp(f64::from(i16::MIN), f64::from(i16::MAX)) as i16
    }
}

/// A fixed pseudo-random sequence of 64-bit values.
fn sample_values(count: usize) -> Vec<u64> {
    let mut state: u64 = 0x9E37_79B9_7F4A_7C15;
    let mut values = Vec::new();
    for _ in 0..count {
        state = state
            .wrapping_mul(6364136223846793005)
            .wrapping_add(1442695040888963407);
        values.push(state);
    }
    values
}

#[test]
fn wide_sample_conversions_cover_full_scale_values() {
    assert_eq!(convert_i24_to_i16((1 << 23) - 1), i16::MAX);
    assert_eq!(convert_i24_to_i16(-(1 << 23)), i16::MIN);
    assert_eq!(convert_i64_to_i16(i64::MIN), i16::MIN);
    assert_eq!(convert_i64_to_i16(i64::MAX), i16::MAX);
    assert_eq!(convert_u64_to_i16(0), i16::MIN);
    assert_eq!(convert_u64_to_i16(u64::MAX), i16::MAX);
    assert_eq!(convert_i64_to_i16(0), 0);
}

#[test]
fn wide_sample_conversions_match_double_precision_scaling() {
    let mut samples: Vec<i64> = vec![
        i64::MIN + 1,
        i64::MAX - 1,
        i64::MAX - 1024,
        -1,
        1,
        (1 << 53) + 1,
        -((1 << 53) + 1),
    ];
    for k in [0i64, 1, 5, 1000, 32767] {
        for delta in [-2049i64, -1025, -1024, -513, -512, -1, 0, 1, 511, 512, 513, 1024, 2049] {
            let half = (2 * k + 1) << 47;
            samples.push(-(half + delta).min(i64::MAX));
            samples.push((half + delta).min(i64::MAX - 1));
        }
    }
    for value in sample_values(20_000) {
        samples.push(value as i64);
        samples.push((value >> 11) as i64);
        samples.push(-((value >> 20) as i64));
    }
    for sample in samples {
        assert_eq!(convert_i64_to_i16(sample), float_scaled(sample, 64), "sample {sample}");
        let unsigned = (i128::from(sample) + (1i128 << 63)) as u64;
        assert_eq!(convert_u64_to_i16(unsigned), float_scaled(sample, 64), "unsigned {unsigned}");
    }
}

#[test]
fn narrow_sample_conversions_match_floating_point_scaling() {
    for value in sample_values(20_000) {
        let s24 = ((value >> 40) as i64) - (1 << 23);
        assert_eq!(convert_i24_to_i16(s24 as i32), float_scaled(s24, 24), "i24 {s24}");
        let s32 = value as u32 as i32;
        assert_eq!(convert_i32_to_i16(s32), float_scaled(i64::from(s32), 32), "i32 {s32}");
        let u32v = (value >> 32) as u32;
        assert_eq!(
            convert_u32_to_i16(u32v),
            float_scaled(i64::from(u32v) - (1 << 31), 32),
            "u32 {u32v}"
        );
    }
    for s8 in i8::MIN..=i8::MAX {
        assert_eq!(convert_i8_to_i16(s8), float_scaled(i64::from(s8), 8));
    }
    for u16v in [0u16, 1, 2, 100, 32767, 32768, 32769, 60000, 65534, 65535] {
        assert_eq!(convert_u16_to_i16(u16v), float_scaled(i64::from(u16v) - 32768, 16));
    }
}

#[test]
fn scaling_keeps_order_and_sign() {
    let mut last = i16::MIN;
    for s in i8::MIN..=i8::MAX {
        let v = convert_i8_to_i16(s);
        assert!(v >= last);
        assert_eq!(v < 0, s < 0);
        last = v;
    }
    let mut samples: Vec<i64> = sample_values(5_000).into_iter().map(|v| v as i64).collect();
    samples.extend([i64::MIN, i64::MAX, -1, 0, 1]);
    samples.sort();
    let mut last = i16::MIN;
    for s in samples {
        let v = convert_i64_to_i16(s);
        assert!(v >= last, "sample {s}");
        assert!(if s < 0 { v <= 0 } else { v >= 0 });
        last = v;
    }
    for s in [i16::MIN, -1, 0, 1, 1234, i16::MAX] {
        assert_eq!(convert_u16_to_i16((s as i32 + 32768) as u16), s);
    }
}
