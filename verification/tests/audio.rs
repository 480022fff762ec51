use rubato::audioadapter_buffers::direct::InterleavedSlice;
use rubato::{Fft, FixedSync, Resampler};

use whisper_stt::audio::{
    decoder_error, open_error, probe_error, AudioParams, DecodeStep, DecodedAudio, PacketDecode,
    PacketLoop, PacketRead, ReadStep, ResampleFailure, Track, RESAMPLE_CHUNK,
};
use whisper_stt::{audio, Error, Result, WHISPER_SAMPLE_RATE};

/// The mean of one frame.
fn average(frame: &[f32]) -> f32 {
    frame.iter().sum::<f32>() / frame.len() as f32
}

fn mix_down(samples: &[f32], channels: usize) -> Vec<f32> {
    audio::mix_down(samples, channels, average)
}

/// A conversion through rubato's FFT resampler.
fn convert(
    samples: &[f32],
    src_rate: u32,
    dst_rate: u32,
    chunk: usize,
) -> std::result::Result<Vec<f32>, ResampleFailure> {
    let mut resampler = Fft::<f32>::new(
        src_rate as usize,
        dst_rate as usize,
        chunk,
        1,
        FixedSync::Input,
    )
    .map_err(|err| ResampleFailure::Rejected(err.to_string()))?;
    let input = InterleavedSlice::new(samples, 1, samples.len())
        .map_err(|err| ResampleFailure::Failed(err.to_string()))?;
    resampler
        .process_all(&input, samples.len(), None)
        .map(|output| output.take_data())
        .map_err(|err| ResampleFailure::Failed(err.to_string()))
}

fn resample(samples: &[f32], src_rate: u32, dst_rate: u32) -> Result<Vec<f32>> {
    audio::resample(samples, src_rate, dst_rate, convert)
}

#[test]
fn mix_down_is_a_no_op_for_mono() {
    let samples = vec![1.0f32, 2.0, 3.0];
    assert_eq!(mix_down(&samples, 1), samples);
    assert_eq!(mix_down(&samples, 0), samples);
}

#[test]
fn mix_down_averages_channels() {
    // Frames: [L0, R0], [L1, R1]
    let samples = vec![1.0f32, 3.0, 5.0, 5.0];
    let mono = mix_down(&samples, 2);
    assert_eq!(mono, vec![2.0, 5.0]);
}

#[test]
fn mix_down_ignores_partial_trailing_frame() {
    let samples = vec![1.0f32, 3.0, 5.0];
    assert_eq!(mix_down(&samples, 2), vec![2.0]);
}

#[test]
fn mix_down_of_nothing_is_nothing() {
    assert!(mix_down(&[], 2).is_empty());
    assert!(mix_down(&[1.0], 6).is_empty());
}

#[test]
fn resample_is_identity_when_rates_match() {
    let samples = vec![0.1f32, 0.2, 0.3];
    assert_eq!(resample(&samples, 16_000, 16_000).unwrap(), samples);
}

#[test]
fn resample_downscales_length() {
    let samples: Vec<f32> = (0..48_000).map(|i| i as f32).collect();
    let resampled = resample(&samples, 48_000, WHISPER_SAMPLE_RATE).unwrap();
    assert_eq!(resampled.len(), 16_000);
}

#[test]
fn resample_upscales_length() {
    let samples = vec![0.0f32, 1.0];
    let up = resample(&samples, 2, 4).unwrap();
    assert_eq!(up.len(), 4);
}

#[test]
fn resample_handles_tiny_inputs() {
    // Fewer than two samples carries no frequency content worth interpolating.
    assert!(resample(&[], 8_000, 16_000).unwrap().is_empty());
    assert_eq!(resample(&[0.5], 8_000, 16_000).unwrap(), vec![0.5]);
}

#[test]
fn resample_leaves_unusable_rates_alone() {
    let samples = vec![0.1f32, 0.2, 0.3];
    assert_eq!(resample(&samples, 0, 16_000).unwrap(), samples);
    assert_eq!(resample(&samples, 16_000, 0).unwrap(), samples);
}

#[test]
fn resample_hands_over_the_rates_and_the_chunk_size() {
    let mut seen = Vec::new();
    let converted = audio::resample(&[1u8, 2, 3], 48_000, 16_000, |samples, src, dst, chunk| {
        seen.push((samples.to_vec(), src, dst, chunk));
        Ok(vec![9])
    });
    assert_eq!(converted.unwrap(), vec![9]);
    assert_eq!(seen, vec![(vec![1, 2, 3], 48_000, 16_000, RESAMPLE_CHUNK)]);
    assert_eq!(RESAMPLE_CHUNK, 1_024);
}

#[test]
fn resample_reports_failures() {
    let rejected = audio::resample(&[1u8, 2], 44_100, 16_000, |_, _, _, _| {
        Err(ResampleFailure::Rejected("bad pair".into()))
    });
    assert!(matches!(
        rejected,
        Err(Error::Resample(message)) if message == "44100 Hz -> 16000 Hz: bad pair"
    ));
    let failed = audio::resample(&[1u8, 2], 44_100, 16_000, |_, _, _, _| {
        Err(ResampleFailure::Failed("lost the plot".into()))
    });
    assert!(matches!(
        failed,
        Err(Error::Resample(message)) if message == "lost the plot"
    ));
}

/// Magnitude of `frequency` in `samples`, in dB relative to full scale.
///
/// Goertzel, which is a single-bin DFT: cheaper than an FFT and all a test needs.
fn level_db(samples: &[f32], sample_rate: u32, frequency: f64) -> f64 {
    let bins = samples.len();
    let omega = 2.0 * std::f64::consts::PI * frequency / sample_rate as f64;
    let coefficient = 2.0 * omega.cos();
    let (mut oldest, mut previous) = (0.0f64, 0.0f64);
    for &sample in samples {
        let current = sample as f64 + coefficient * previous - oldest;
        oldest = previous;
        previous = current;
    }
    let real = previous - oldest * omega.cos();
    let imaginary = oldest * omega.sin();
    let magnitude = real.hypot(imaginary) / bins as f64 * 2.0;
    20.0 * magnitude.max(1e-12).log10()
}

#[test]
fn resample_filters_above_the_new_nyquist_limit() {
    // A 24 kHz clip holding two tones: 3 kHz survives the move to 16 kHz, 10 kHz does not -
    // it sits above the 8 kHz Nyquist limit and, unfiltered, folds back to 6 kHz.
    let rate = 24_000u32;
    let samples: Vec<f32> = (0..rate)
        .map(|index| {
            let t = index as f64 / rate as f64;
            let keep = (2.0 * std::f64::consts::PI * 3_000.0 * t).sin();
            let drop = (2.0 * std::f64::consts::PI * 10_000.0 * t).sin();
            (0.5 * (keep + drop)) as f32
        })
        .collect();

    let resampled = resample(&samples, rate, WHISPER_SAMPLE_RATE).unwrap();
    let kept = level_db(&resampled, WHISPER_SAMPLE_RATE, 3_000.0);
    let alias = level_db(&resampled, WHISPER_SAMPLE_RATE, 6_000.0);

    // The tone we wanted is intact and the one we did not is at least 24 dB behind it. A
    // linear interpolation would leave them within a few dB of each other.
    assert!(kept > -12.0, "the 3 kHz tone was lost: {kept:.1} dB");
    assert!(
        alias < kept - 24.0,
        "10 kHz aliased back into the audio: {alias:.1} dB vs {kept:.1} dB"
    );
}

#[test]
fn decoded_audio_reports_duration() {
    let audio = DecodedAudio {
        samples: vec![0.0f32; 16_000],
        sample_rate: 16_000,
        channels: 1,
    };
    assert_eq!(audio.duration_ms(), 1_000);
}

#[test]
fn duration_counts_whole_frames_and_rounds_down() {
    let audio = DecodedAudio {
        samples: vec![0u8; 5],
        sample_rate: 3,
        channels: 2,
    };
    // Two frames at 3 Hz.
    assert_eq!(audio.duration_ms(), 666);
}

#[test]
fn decoded_audio_is_empty_safe() {
    let audio = DecodedAudio::<f32> {
        samples: Vec::new(),
        sample_rate: 0,
        channels: 0,
    };
    assert_eq!(audio.duration_ms(), 0);
    assert!(audio.to_mono(average).is_empty());
}

#[test]
fn already_16khz_audio_passes_through() {
    // Resampling to the target rate must be a no-op.
    let samples: Vec<f32> = (0..16_000)
        .map(|index| (index as f32 / 100.0).sin())
        .collect();
    let audio = DecodedAudio {
        samples: samples.clone(),
        sample_rate: WHISPER_SAMPLE_RATE,
        channels: 1,
    };
    assert_eq!(audio.to_whisper_input(average, convert).unwrap(), samples);
}

#[test]
fn multi_channel_audio_is_mixed_down() {
    // Two channels of identical data average to the original signal.
    let frames: Vec<f32> = (0..1_000).map(|index| index as f32 / 1_000.0).collect();
    let interleaved: Vec<f32> = frames
        .iter()
        .flat_map(|sample| [*sample, *sample])
        .collect();

    let audio = DecodedAudio {
        samples: interleaved,
        sample_rate: WHISPER_SAMPLE_RATE,
        channels: 2,
    };

    assert_eq!(audio.to_whisper_input(average, convert).unwrap(), frames);
}

/// A second and a half of a tone, mono at 24 kHz.
fn clip() -> DecodedAudio<f32> {
    DecodedAudio {
        samples: (0..36_000)
            .map(|index| (index as f32 * 440.0 * std::f32::consts::TAU / 24_000.0).sin())
            .collect(),
        sample_rate: 24_000,
        channels: 1,
    }
}

#[test]
fn whisper_input_is_resampled_to_16khz() {
    let audio = clip();
    let samples = audio.to_whisper_input(average, convert).unwrap();

    // 24 kHz -> 16 kHz downsamples by two thirds.
    let expected = audio.samples.len() * 2 / 3;
    assert!(
        (samples.len() as i64 - expected as i64).unsigned_abs() <= 1,
        "resampled length {} is not within a sample of {expected}",
        samples.len()
    );
    assert!(samples.iter().all(|sample| sample.is_finite()));
    assert!(samples.iter().any(|sample| *sample != 0.0));
}

#[test]
fn duration_survives_resampling() {
    let audio = clip();
    let before = audio.duration_ms();

    let resampled = DecodedAudio {
        samples: audio.to_whisper_input(average, convert).unwrap(),
        sample_rate: WHISPER_SAMPLE_RATE,
        channels: 1,
    };
    assert!(resampled.samples.iter().all(|sample| sample.is_finite()));
    assert!(resampled.samples.iter().any(|sample| *sample != 0.0));

    // Resampling must not change how long the clip is, beyond rounding.
    assert!(
        (resampled.duration_ms() as i64 - before as i64).unsigned_abs() <= 2,
        "duration drifted: {} ms -> {} ms",
        before,
        resampled.duration_ms()
    );
}

#[test]
fn duration_survives_a_conversion() {
    for (sample_rate, channels, frames) in [
        (8_000u32, 1usize, 2usize),
        (24_000, 1, 48_000),
        (44_100, 2, 44_101),
        (48_000, 6, 12_345),
        (22_050, 1, 999),
    ] {
        let audio = DecodedAudio {
            samples: vec![0.25f32; frames * channels],
            sample_rate,
            channels,
        };
        let before = audio.duration_ms();
        let resampled = DecodedAudio {
            samples: audio.to_whisper_input(average, convert).unwrap(),
            sample_rate: WHISPER_SAMPLE_RATE,
            channels: 1,
        };
        // The resampler scales the length with the rates, within one sample.
        let exact = frames as f64 * WHISPER_SAMPLE_RATE as f64 / sample_rate as f64;
        assert!((resampled.samples.len() as f64 - exact).abs() <= 1.0);
        assert!((resampled.duration_ms() as i64 - before as i64).unsigned_abs() <= 1);
    }
}

#[test]
fn resampled_length_ignores_the_samples() {
    for (src_rate, dst_rate) in [(44_100, 16_000), (8_000, 16_000), (48_000, 22_050)] {
        let silence = resample(&vec![0.0f32; 5_000], src_rate, dst_rate).unwrap();
        let tone: Vec<f32> = (0..5_000).map(|i| (i as f32 / 7.0).sin()).collect();
        let tone = resample(&tone, src_rate, dst_rate).unwrap();
        assert_eq!(silence.len(), tone.len());
        assert_ne!(silence, tone);
    }
}

fn track(sample_rate: Option<u32>, channels: Option<usize>) -> Option<Track> {
    Some(Track {
        id: 3,
        params: Some(AudioParams {
            sample_rate,
            channels,
        }),
    })
}

#[test]
fn files_without_an_audio_track_are_reported() {
    assert!(matches!(
        PacketLoop::<u8>::start(None),
        Err(Error::NoAudioTrack)
    ));
    assert!(matches!(
        PacketLoop::<u8>::start(Some(Track {
            id: 0,
            params: None
        })),
        Err(Error::NoAudioTrack)
    ));
}

#[test]
fn packets_of_the_track_are_gathered_in_order() {
    let mut decoding = PacketLoop::<u8>::start(track(Some(24_000), Some(2))).unwrap();
    assert!(matches!(
        decoding.packet_read(PacketRead::Packet(3)),
        ReadStep::Decode
    ));
    assert_eq!(
        decoding.decoded(PacketDecode::Samples(vec![1, 2])),
        DecodeStep::ReadNext
    );
    assert!(matches!(
        decoding.packet_read(PacketRead::Packet(4)),
        ReadStep::Skip
    ));
    // A malformed packet is skipped.
    assert_eq!(
        decoding.decoded(PacketDecode::Malformed),
        DecodeStep::ReadNext
    );
    assert_eq!(
        decoding.decoded(PacketDecode::Samples(vec![3, 4])),
        DecodeStep::ReadNext
    );
    assert_eq!(decoding.decoded(PacketDecode::Failed), DecodeStep::Finish);
    assert!(matches!(
        decoding.packet_read(PacketRead::EndOfStream),
        ReadStep::Finish
    ));
    assert!(matches!(
        decoding.packet_read(PacketRead::ResetRequired),
        ReadStep::Finish
    ));
    assert_eq!(
        decoding.finish().unwrap(),
        DecodedAudio {
            samples: vec![1, 2, 3, 4],
            sample_rate: 24_000,
            channels: 2
        }
    );
}

#[test]
fn unstated_parameters_have_defaults() {
    let mut decoding = PacketLoop::<u8>::start(track(None, None)).unwrap();
    decoding.decoded(PacketDecode::Samples(vec![7]));
    let audio = decoding.finish().unwrap();
    assert_eq!(audio.sample_rate, WHISPER_SAMPLE_RATE);
    assert_eq!(audio.channels, 1);

    let mut decoding = PacketLoop::<u8>::start(track(Some(8_000), Some(0))).unwrap();
    decoding.decoded(PacketDecode::Samples(vec![7]));
    assert_eq!(decoding.finish().unwrap().channels, 1);
}

#[test]
fn a_file_that_decodes_to_nothing_is_reported() {
    let mut decoding = PacketLoop::<u8>::start(track(None, None)).unwrap();
    decoding.decoded(PacketDecode::Samples(Vec::new()));
    assert!(matches!(decoding.finish(), Err(Error::EmptyAudio)));
}

#[test]
fn read_failures_are_reported() {
    let decoding = PacketLoop::<u8>::start(track(None, None)).unwrap();
    assert!(matches!(
        decoding.packet_read(PacketRead::IoError("broken pipe".into())),
        ReadStep::Fail(Error::Audio(message))
            if message == "io error while reading packets: broken pipe"
    ));
    assert!(matches!(
        decoding.packet_read(PacketRead::Failed("bad page".into())),
        ReadStep::Fail(Error::Audio(message)) if message == "cannot read packet: bad page"
    ));
    assert!(matches!(
        open_error("a.mp3", "not found"),
        Error::Audio(message) if message == "cannot open a.mp3: not found"
    ));
    assert!(matches!(
        probe_error("a.mp3", "unsupported"),
        Error::Audio(message) if message == "cannot probe a.mp3: unsupported"
    ));
    assert!(matches!(
        decoder_error("no codec"),
        Error::Audio(message) if message == "cannot create decoder: no codec"
    ));
}

#[test]
fn mixing_keeps_the_duration() {
    let audio = DecodedAudio {
        samples: vec![0.5f32; 44_101],
        sample_rate: 44_100,
        channels: 2,
    };
    let mixed = DecodedAudio {
        samples: audio.to_mono(average),
        sample_rate: audio.sample_rate,
        channels: 1,
    };
    assert_eq!(mixed.samples.len(), 22_050);
    assert_eq!(audio.duration_ms(), 500);
    assert_eq!(mixed.duration_ms(), 500);
}

#[test]
fn a_run_gathers_the_packets_of_its_track_up_to_the_stop() {
    let mut decoding = PacketLoop::<u8>::start(track(Some(24_000), Some(1))).unwrap();
    let run = vec![
        (PacketRead::Packet(9), PacketDecode::Samples(vec![90])),
        (PacketRead::Packet(3), PacketDecode::Samples(vec![1, 2])),
        (PacketRead::Packet(3), PacketDecode::Malformed),
        (PacketRead::Packet(9), PacketDecode::Failed),
        (PacketRead::Packet(3), PacketDecode::Samples(vec![3])),
        (PacketRead::Packet(3), PacketDecode::Failed),
        (PacketRead::Packet(3), PacketDecode::Samples(vec![4])),
    ];
    for (read, decode) in run {
        match decoding.packet_read(read) {
            ReadStep::Decode => {
                if decoding.decoded(decode) == DecodeStep::Finish {
                    break;
                }
            }
            ReadStep::Skip => {}
            other => panic!("unexpected step {other:?}"),
        }
    }
    assert_eq!(decoding.finish().unwrap().samples, vec![1, 2, 3]);
}
