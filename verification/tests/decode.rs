//! Decoding a WAV file held in memory, with Symphonia reading the container.

use std::io::Cursor;

use whisper_stt::audio::{
    decoder_error, probe_error, AudioParams, DecodeStep, DecodedAudio, PacketDecode, PacketLoop,
    PacketRead, ReadStep, Track,
};
use whisper_stt::{Error, Result};

/// A 16-bit PCM WAV file.
fn wav(samples: &[i16], sample_rate: u32, channels: u16) -> Vec<u8> {
    let data = samples.len() as u32 * 2;
    let mut bytes = Vec::new();
    bytes.extend_from_slice(b"RIFF");
    bytes.extend_from_slice(&(36 + data).to_le_bytes());
    bytes.extend_from_slice(b"WAVEfmt ");
    bytes.extend_from_slice(&16u32.to_le_bytes());
    bytes.extend_from_slice(&1u16.to_le_bytes());
    bytes.extend_from_slice(&channels.to_le_bytes());
    bytes.extend_from_slice(&sample_rate.to_le_bytes());
    bytes.extend_from_slice(&(sample_rate * channels as u32 * 2).to_le_bytes());
    bytes.extend_from_slice(&(channels * 2).to_le_bytes());
    bytes.extend_from_slice(&16u16.to_le_bytes());
    bytes.extend_from_slice(b"data");
    bytes.extend_from_slice(&data.to_le_bytes());
    for sample in samples {
        bytes.extend_from_slice(&sample.to_le_bytes());
    }
    bytes
}

fn decode(bytes: Vec<u8>) -> Result<DecodedAudio<f32>> {
    let stream = symphonia::core::io::MediaSourceStream::new(Box::new(Cursor::new(bytes)), Default::default());
    let mut format = symphonia::default::get_probe()
        .probe(&symphonia::core::formats::probe::Hint::new(), stream, Default::default(), Default::default())
        .map_err(|err| probe_error("memory", &err.to_string()))?;
    let track = format.default_track(symphonia::core::formats::TrackType::Audio);
    let codec_params = track
        .and_then(|track| track.codec_params.as_ref())
        .and_then(|params| params.audio())
        .cloned();
    let mut decoding = PacketLoop::start(track.map(|track| Track {
        id: track.id,
        params: codec_params.as_ref().map(|params| AudioParams {
            sample_rate: params.sample_rate,
            channels: params.channels.as_ref().map(symphonia::core::audio::Channels::count),
        }),
    }))?;
    let mut decoder = symphonia::default::get_codecs()
        .make_audio_decoder(&codec_params.unwrap(), &Default::default())
        .map_err(|err| decoder_error(&err.to_string()))?;
    loop {
        let (packet, read) = match format.next_packet() {
            Ok(Some(packet)) => {
                let read = PacketRead::Packet(packet.track_id);
                (Some(packet), read)
            }
            Ok(None) => (None, PacketRead::EndOfStream),
            Err(symphonia::core::errors::Error::ResetRequired) => (None, PacketRead::ResetRequired),
            Err(symphonia::core::errors::Error::IoError(err)) => (None, PacketRead::IoError(err.to_string())),
            Err(err) => (None, PacketRead::Failed(err.to_string())),
        };
        match decoding.packet_read(read) {
            ReadStep::Decode => {}
            ReadStep::Skip => continue,
            ReadStep::Finish => return decoding.finish(),
            ReadStep::Fail(error) => return Err(error),
        }
        let decoded = match decoder.decode(&packet.unwrap()) {
            Ok(buffer) => {
                let mut samples: Vec<f32> = Vec::new();
                buffer.copy_to_vec_interleaved(&mut samples);
                PacketDecode::Samples(samples)
            }
            Err(symphonia::core::errors::Error::DecodeError(_)) => PacketDecode::Malformed,
            Err(_) => PacketDecode::Failed,
        };
        if decoding.decoded(decoded) == DecodeStep::Finish {
            return decoding.finish();
        }
    }
}

#[test]
fn a_wav_file_decodes_to_its_samples() {
    // Long enough to take several packets.
    let samples: Vec<i16> = (0..20_000).map(|i| (i % 1_000) as i16 * 32).collect();
    let audio = decode(wav(&samples, 8_000, 2)).unwrap();
    assert_eq!(audio.sample_rate, 8_000);
    assert_eq!(audio.channels, 2);
    assert_eq!(audio.duration_ms(), 1_250);
    let expected: Vec<f32> = samples.iter().map(|s| *s as f32 / 32_768.0).collect();
    assert_eq!(audio.samples, expected);
}

#[test]
fn a_wav_file_without_samples_is_empty_audio() {
    assert!(matches!(decode(wav(&[], 16_000, 1)), Err(Error::EmptyAudio)));
}

#[test]
fn bytes_that_are_no_media_file_are_reported() {
    let garbage = vec![0x55u8; 4_096];
    assert!(matches!(
        decode(garbage),
        Err(Error::Audio(message)) if message.starts_with("cannot probe memory: ")
    ));
}
