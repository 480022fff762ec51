//! Audio decoding helpers.
//!
//! Whisper models are trained on **16 kHz mono** PCM. Media files rarely come in that shape, so
//! this module has two responsibilities:
//!
//! 1. Steer the decoding of a media file into interleaved samples ([`PacketLoop`]).
//! 2. Convert that into what Whisper wants: a mono stream resampled to [`WHISPER_SAMPLE_RATE`]
//!    ([`DecodedAudio::to_whisper_input`]).
//!
//! Everything here is generic in the sample type. Which samples go where is decided in this
//! module; the arithmetic on a sample, averaging a frame and converting a sample rate, is handed in
//! as a function.

use vstd::prelude::*;
use vstd::slice::*;

use crate::error::{Error, Result};
use crate::model::WHISPER_SAMPLE_RATE;
use crate::text;

verus! {

/// Frames the resampler converts per call. Large enough to amortise the transform, small enough
/// that a ten-second clip is not one giant transform.
pub const RESAMPLE_CHUNK: usize = 1_024;

/// Decoded PCM audio, in the channel-interleaved layout produced by the decoder.
#[derive(Debug, Clone, PartialEq)]
pub struct DecodedAudio<S> {
    /// Interleaved samples: frame `i`, channel `c` lives at index `i * channels + c`.
    pub samples: Vec<S>,
    /// Sample rate of the decoded audio, in Hz.
    pub sample_rate: u32,
    /// Number of channels in the decoded audio.
    pub channels: usize,
}

/// How many whole frames `samples` samples make up.
pub open spec fn frame_count(samples: nat, channels: nat) -> nat {
    samples / channels
}

/// Frame `i` of interleaved audio: one sample per channel.
pub open spec fn frame<S>(samples: Seq<S>, channels: nat, i: int) -> Seq<S> {
    samples.subrange(i * channels, i * channels + channels)
}

/// Whether `mono` is the mono mix of interleaved audio under `average`: audio with at most one
/// channel is kept as it is, any other yields one average per whole frame, and a partial trailing
/// frame yields nothing.
pub open spec fn is_mix_of<S, F: Fn(&[S]) -> S>(
    mono: Seq<S>,
    samples: Seq<S>,
    channels: nat,
    average: F,
) -> bool {
    if channels <= 1 {
        mono == samples
    } else {
        &&& mono.len() == frame_count(samples.len(), channels)
        &&& forall|i: int|
            0 <= i < mono.len() ==> averages(average, frame(samples, channels, i), #[trigger] mono[i])
    }
}

/// Whether `average` gives `mean` for the frame that holds `values`.
pub open spec fn averages<S, F: Fn(&[S]) -> S>(average: F, values: Seq<S>, mean: S) -> bool {
    exists|slice: &[S]| #[trigger] slice@ == values && call_ensures(average, (slice,), mean)
}

/// Whether `average` accepts every frame of `channels` samples.
pub open spec fn averages_frames_of<S, F: Fn(&[S]) -> S>(average: F, channels: nat) -> bool {
    forall|slice: &[S]| slice@.len() == channels ==> #[trigger] call_requires(average, (slice,))
}

/// Mixes interleaved multi-channel audio down to mono by averaging all channels per frame.
pub fn mix_down<S: Copy, F: Fn(&[S]) -> S>(samples: &[S], channels: usize, average: F) -> (mono:
    Vec<S>)
    requires
        channels > 1 ==> averages_frames_of(average, channels as nat),
    ensures
        is_mix_of(mono@, samples@, channels as nat, average),
        channels <= 1 ==> mono@ == samples@,
        channels > 1 ==> mono@.len() == samples@.len() / channels as nat,
        channels > 1 ==> forall|i: int|
            0 <= i < mono@.len() ==> averages(
                average,
                samples@.subrange(i * channels, i * channels + channels),
                #[trigger] mono@[i],
            ),
{
    if channels <= 1 {
        return slice_to_vec(samples);
    }
    let len: usize = samples.len();
    let frames: usize = len / channels;
    let mut mono: Vec<S> = Vec::with_capacity(frames);
    let mut i: usize = 0;
    while i < frames
        invariant
            channels > 1,
            i <= frames,
            len == samples@.len(),
            frames == frame_count(len as nat, channels as nat),
            mono@.len() == i,
            averages_frames_of(average, channels as nat),
            forall|j: int|
                0 <= j < i ==> averages(
                    average,
                    frame(samples@, channels as nat, j),
                    #[trigger] mono@[j],
                ),
        decreases frames - i,
    {
        proof {
            lemma_frame_fits(samples@.len(), channels as nat, i as int);
        }
        let slice = slice_subrange(samples, i * channels, i * channels + channels);
        let mean = average(slice);
        assert(averages(average, frame(samples@, channels as nat, i as int), mean));
        mono.push(mean);
        i = i + 1;
    }
    mono
}

/// Every whole frame lies inside the audio.
proof fn lemma_frame_fits(samples: nat, channels: nat, i: int)
    requires
        channels > 0,
        0 <= i < frame_count(samples, channels),
    ensures
        0 <= i * channels,
        i * channels + channels <= samples,
{
    let frames = frame_count(samples, channels) as int;
    assert(frames * channels <= samples) by {
        vstd::arithmetic::div_mod::lemma_fundamental_div_mod(samples as int, channels as int);
        vstd::arithmetic::mul::lemma_mul_is_commutative(frames, channels as int);
    }
    assert(0 <= i * channels && i * channels + channels <= frames * channels) by (nonlinear_arith)
        requires
            0 <= i < frames,
            channels > 0,
    ;
}

/// Whole frames fill the audio up to less than one frame.
pub proof fn law_frames_fill_the_audio(samples: nat, channels: nat)
    requires
        channels > 0,
    ensures
        frame_count(samples, channels) * channels <= samples,
        samples < (frame_count(samples, channels) + 1) * channels,
{
    let frames = frame_count(samples, channels) as int;
    vstd::arithmetic::div_mod::lemma_fundamental_div_mod(samples as int, channels as int);
    vstd::arithmetic::div_mod::lemma_mod_bound(samples as int, channels as int);
    vstd::arithmetic::mul::lemma_mul_is_commutative(frames, channels as int);
    vstd::arithmetic::mul::lemma_mul_is_distributive_add_other_way(channels as int, frames, 1);
}

/// Audio is interleaved: channel `c` of frame `i` is the sample at `i * channels + c`.
pub proof fn law_frames_are_interleaved<S>(samples: Seq<S>, channels: nat, i: int, c: int)
    requires
        0 <= i,
        0 <= c < channels,
        (i + 1) * channels <= samples.len(),
    ensures
        frame(samples, channels, i).len() == channels,
        frame(samples, channels, i)[c] == samples[i * channels + c],
{
    assert((i + 1) * channels == i * channels + channels && i * channels >= 0) by (nonlinear_arith)
        requires
            0 <= i,
    ;
}

/// Every value of a mono mix is the average of one frame, of all its channels and of nothing else:
/// value `i` is that of the samples from `i * channels` on. There is one value for each whole frame.
pub proof fn law_mix_averages_every_frame<S, F: Fn(&[S]) -> S>(
    mono: Seq<S>,
    samples: Seq<S>,
    channels: nat,
    average: F,
    i: int,
)
    requires
        channels > 1,
        is_mix_of(mono, samples, channels, average),
        0 <= i < mono.len(),
    ensures
        mono.len() == samples.len() / channels,
        exists|slice: &[S]|
            {
                &&& #[trigger] call_ensures(average, (slice,), mono[i])
                &&& slice@.len() == channels
                &&& forall|c: int|
                    0 <= c < channels ==> #[trigger] slice@[c] == samples[i * channels + c]
            },
{
    lemma_frame_fits(samples.len(), channels, i);
    let values = frame(samples, channels, i);
    assert(averages(average, values, mono[i]));
    let slice = choose|slice: &[S]| #[trigger]
        slice@ == values && call_ensures(average, (slice,), mono[i]);
    assert((i + 1) * channels == i * channels + channels) by (nonlinear_arith);
    assert forall|c: int| 0 <= c < channels implies #[trigger] slice@[c] == samples[i * channels
        + c] by {
        law_frames_are_interleaved(samples, channels, i, c);
    }
    law_frames_are_interleaved(samples, channels, i, 0);
}

/// Audio with one channel, or none, is its own mono mix.
pub proof fn law_mono_audio_is_its_own_mix<S, F: Fn(&[S]) -> S>(
    mono: Seq<S>,
    samples: Seq<S>,
    channels: nat,
    average: F,
)
    requires
        channels <= 1,
        is_mix_of(mono, samples, channels, average),
    ensures
        mono == samples,
{
}

/// Mixing down keeps the number of frames, and with it the duration.
pub proof fn law_mixing_keeps_the_frames<S, F: Fn(&[S]) -> S>(
    mono: Seq<S>,
    samples: Seq<S>,
    channels: nat,
    average: F,
)
    requires
        channels > 0,
        is_mix_of(mono, samples, channels, average),
    ensures
        frame_count(mono.len(), 1) == frame_count(samples.len(), channels),
{
}

/// Whether the frame that holds `values` has the same value in every channel.
pub open spec fn is_constant<S>(values: Seq<S>) -> bool {
    &&& values.len() > 0
    &&& forall|c: int| 0 <= c < values.len() ==> #[trigger] values[c] == values[0]
}

/// Channels that all carry the same signal mix down to that signal, if the average of equal values
/// is that value.
pub proof fn law_identical_channels_mix_to_the_signal<S, F: Fn(&[S]) -> S>(
    signal: Seq<S>,
    mono: Seq<S>,
    samples: Seq<S>,
    channels: nat,
    average: F,
)
    requires
        channels > 0,
        samples.len() == signal.len() * channels,
        forall|i: int, c: int|
            0 <= i < signal.len() && 0 <= c < channels ==> samples[#[trigger] (i * channels + c)]
                == signal[i],
        forall|slice: &[S], mean: S| #[trigger]
            call_ensures(average, (slice,), mean) && is_constant(slice@) ==> mean == slice@[0],
        is_mix_of(mono, samples, channels, average),
    ensures
        mono == signal,
{
    assert(frame_count(samples.len(), channels) == signal.len()) by {
        vstd::arithmetic::div_mod::lemma_div_multiples_vanish(signal.len() as int, channels as int);
        vstd::arithmetic::mul::lemma_mul_is_commutative(signal.len() as int, channels as int);
    }
    if channels == 1 {
        assert forall|i: int| 0 <= i < signal.len() implies mono[i] == signal[i] by {
            assert(samples[i * 1 + 0] == signal[i]);
        }
    } else {
        assert forall|i: int| 0 <= i < signal.len() implies mono[i] == signal[i] by {
            let values = frame(samples, channels, i);
            lemma_frame_fits(samples.len(), channels, i);
            assert forall|c: int| 0 <= c < channels implies values[c] == signal[i] by {
                assert(samples[i * channels + c] == signal[i]);
            }
            assert(averages(average, values, mono[i]));
        }
    }
    assert(mono =~= signal);
}

/// Why a sample rate could not be converted.
#[derive(Debug)]
pub enum ResampleFailure {
    /// The resampler does not take this pair of rates.
    Rejected(String),
    /// The conversion itself failed.
    Failed(String),
}

/// Whether there is nothing to convert: matching rates, an unusable rate, or fewer than two
/// samples.
pub open spec fn passes_through(len: nat, src_rate: u32, dst_rate: u32) -> bool {
    src_rate == dst_rate || src_rate == 0 || dst_rate == 0 || len < 2
}

/// The message for a resampler failure.
pub open spec fn resample_message(
    failure: ResampleFailure,
    src_rate: u32,
    dst_rate: u32,
) -> Seq<char> {
    match failure {
        ResampleFailure::Rejected(reason) => text::decimal(src_rate as nat) + " Hz -> "@
            + text::decimal(dst_rate as nat) + " Hz: "@ + reason@,
        ResampleFailure::Failed(reason) => reason@,
    }
}

/// Whether `result` is what the resampler's `outcome` is reported as.
pub open spec fn reports<S>(
    result: Result<Vec<S>>,
    outcome: std::result::Result<Vec<S>, ResampleFailure>,
    src_rate: u32,
    dst_rate: u32,
) -> bool {
    match outcome {
        Ok(converted) => result == Ok::<Vec<S>, Error>(converted),
        Err(failure) => result matches Err(Error::Resample(message)) && message@
            == resample_message(failure, src_rate, dst_rate),
    }
}

/// Whether `result` is mono audio `samples` brought from `src_rate` to `dst_rate` by `convert`:
/// the audio itself when there is nothing to convert, and otherwise what `convert` makes of it in
/// chunks of [`RESAMPLE_CHUNK`] frames.
pub open spec fn is_resampling_of<
    S,
    C: FnOnce(&[S], u32, u32, usize) -> std::result::Result<Vec<S>, ResampleFailure>,
>(result: Result<Vec<S>>, samples: Seq<S>, src_rate: u32, dst_rate: u32, convert: C) -> bool {
    if passes_through(samples.len(), src_rate, dst_rate) {
        result matches Ok(same) && same@ == samples
    } else {
        exists|slice: &[S], outcome: std::result::Result<Vec<S>, ResampleFailure>|
            {
                &&& slice@ == samples
                &&& #[trigger] call_ensures(
                    convert,
                    (slice, src_rate, dst_rate, RESAMPLE_CHUNK),
                    outcome,
                )
                &&& reports(result, outcome, src_rate, dst_rate)
            }
    }
}

/// Whether `convert` accepts `samples` in chunks of [`RESAMPLE_CHUNK`] frames.
pub open spec fn converts<
    S,
    C: FnOnce(&[S], u32, u32, usize) -> std::result::Result<Vec<S>, ResampleFailure>,
>(convert: C, samples: Seq<S>, src_rate: u32, dst_rate: u32) -> bool {
    forall|slice: &[S]|
        slice@ == samples ==> #[trigger] call_requires(
            convert,
            (slice, src_rate, dst_rate, RESAMPLE_CHUNK),
        )
}

/// Reports what the resampler returned as a result of this crate.
pub fn resample_result<S>(
    outcome: std::result::Result<Vec<S>, ResampleFailure>,
    src_rate: u32,
    dst_rate: u32,
) -> (result: Result<Vec<S>>)
    ensures
        reports(result, outcome, src_rate, dst_rate),
        match outcome {
            Ok(converted) => result == Ok::<Vec<S>, Error>(converted),
            Err(ResampleFailure::Rejected(reason)) => result matches Err(Error::Resample(message))
                && message@ == text::decimal(src_rate as nat) + " Hz -> "@ + text::decimal(
                dst_rate as nat,
            ) + " Hz: "@ + reason@,
            Err(ResampleFailure::Failed(reason)) => result matches Err(Error::Resample(message))
                && message@ == reason@,
        },
{
    match outcome {
        Ok(converted) => Ok(converted),
        Err(ResampleFailure::Rejected(reason)) => {
            let src = text::to_decimal(src_rate);
            let dst = text::to_decimal(dst_rate);
            let rates = text::concat3(src.as_str(), " Hz -> ", dst.as_str());
            Err(Error::Resample(text::concat3(rates.as_str(), " Hz: ", reason.as_str())))
        },
        Err(ResampleFailure::Failed(reason)) => Err(Error::Resample(reason)),
    }
}

/// Resamples mono audio to `dst_rate` with `convert`.
///
/// Inputs that cannot be resampled (matching rates, an unusable rate, or fewer than two samples,
/// which carry no frequency content to preserve) are returned unchanged, without asking `convert`.
///
/// # Errors
///
/// Returns [`Error::Resample`] if `convert` rejects the rate pair or fails mid-conversion.
pub fn resample<
    S: Copy,
    C: FnOnce(&[S], u32, u32, usize) -> std::result::Result<Vec<S>, ResampleFailure>,
>(samples: &[S], src_rate: u32, dst_rate: u32, convert: C) -> (result: Result<Vec<S>>)
    requires
        !passes_through(samples@.len(), src_rate, dst_rate) ==> converts(
            convert,
            samples@,
            src_rate,
            dst_rate,
        ),
    ensures
        is_resampling_of(result, samples@, src_rate, dst_rate, convert),
        src_rate == dst_rate || src_rate == 0 || dst_rate == 0 || samples@.len() < 2 ==> (
        result matches Ok(same) && same@ == samples@),
        src_rate != dst_rate && src_rate > 0 && dst_rate > 0 && samples@.len() >= 2 ==> exists|
            slice: &[S],
            outcome: std::result::Result<Vec<S>, ResampleFailure>,
        |
            {
                &&& slice@ == samples@
                &&& #[trigger] call_ensures(convert, (slice, src_rate, dst_rate, 1024usize), outcome)
                &&& match outcome {
                    Ok(converted) => result == Ok::<Vec<S>, Error>(converted),
                    Err(ResampleFailure::Rejected(reason)) => result matches Err(
                        Error::Resample(message),
                    ) && message@ == text::decimal(src_rate as nat) + " Hz -> "@ + text::decimal(
                        dst_rate as nat,
                    ) + " Hz: "@ + reason@,
                    Err(ResampleFailure::Failed(reason)) => result matches Err(
                        Error::Resample(message),
                    ) && message@ == reason@,
                }
            },
{
    if src_rate == dst_rate || src_rate == 0 || dst_rate == 0 || samples.len() < 2 {
        return Ok(slice_to_vec(samples));
    }
    let outcome = convert(samples, src_rate, dst_rate, RESAMPLE_CHUNK);
    resample_result(outcome, src_rate, dst_rate)
}

/// Resampling hands the audio as it is, the two rates and the chunk size to what converts it, and
/// gives back what came of that. Audio with nothing to convert, matching rates, an unusable rate, or
/// fewer than two samples, is the audio itself.
pub proof fn law_resampling_is_left_to_the_converter<
    S,
    C: FnOnce(&[S], u32, u32, usize) -> std::result::Result<Vec<S>, ResampleFailure>,
>(result: Result<Vec<S>>, samples: Seq<S>, src_rate: u32, dst_rate: u32, convert: C)
    requires
        is_resampling_of(result, samples, src_rate, dst_rate, convert),
    ensures
        src_rate == dst_rate || src_rate == 0 || dst_rate == 0 || samples.len() < 2 ==> (
        result matches Ok(same) && same@ == samples),
        src_rate != dst_rate && src_rate > 0 && dst_rate > 0 && samples.len() >= 2 ==> exists|
            slice: &[S],
            outcome: std::result::Result<Vec<S>, ResampleFailure>,
        |
            {
                &&& slice@ == samples
                &&& #[trigger] call_ensures(convert, (slice, src_rate, dst_rate, 1024usize), outcome)
                &&& match outcome {
                    Ok(converted) => result == Ok::<Vec<S>, Error>(converted),
                    Err(ResampleFailure::Rejected(reason)) => result matches Err(
                        Error::Resample(message),
                    ) && message@ == text::decimal(src_rate as nat) + " Hz -> "@ + text::decimal(
                        dst_rate as nat,
                    ) + " Hz: "@ + reason@,
                    Err(ResampleFailure::Failed(reason)) => result matches Err(
                        Error::Resample(message),
                    ) && message@ == reason@,
                }
            },
{
    if !passes_through(samples.len(), src_rate, dst_rate) {
        let (slice, outcome) = choose|
            slice: &[S],
            outcome: std::result::Result<Vec<S>, ResampleFailure>,
        |
            {
                &&& slice@ == samples
                &&& #[trigger] call_ensures(
                    convert,
                    (slice, src_rate, dst_rate, RESAMPLE_CHUNK),
                    outcome,
                )
                &&& reports(result, outcome, src_rate, dst_rate)
            };
        assert(call_ensures(convert, (slice, src_rate, dst_rate, 1024usize), outcome));
    }
}

impl<S> DecodedAudio<S> {
    /// Duration in milliseconds, rounded down; audio without channels or without a rate has none.
    pub open spec fn duration_in_ms(&self) -> nat {
        if self.channels == 0 || self.sample_rate == 0 {
            0
        } else {
            frame_count(self.samples@.len(), self.channels as nat) * 1000 / self.sample_rate as nat
        }
    }

    /// Duration of the decoded audio in milliseconds.
    pub fn duration_ms(&self) -> (ms: u64)
        requires
            self.channels > 0 && self.sample_rate > 0 ==> frame_count(self.samples@.len(), self.channels as nat)
                * 1000 <= u64::MAX,
        ensures
            ms == self.duration_in_ms(),
            self.channels == 0 || self.sample_rate == 0 ==> ms == 0,
            self.channels > 0 && self.sample_rate > 0 ==> ms == self.samples@.len()
                / self.channels as nat * 1000 / self.sample_rate as nat,
    {
        if self.channels == 0 || self.sample_rate == 0 {
            return 0;
        }
        let frames: usize = self.samples.len() / self.channels;
        (frames as u64 * 1000) / self.sample_rate as u64
    }
}

/// Whether `input` is `audio` in the layout Whisper expects: its mono mix under `average`, brought
/// to [`WHISPER_SAMPLE_RATE`] by `convert`.
pub open spec fn is_whisper_input_of<
    S,
    F: Fn(&[S]) -> S,
    C: FnOnce(&[S], u32, u32, usize) -> std::result::Result<Vec<S>, ResampleFailure>,
>(input: Result<Vec<S>>, audio: DecodedAudio<S>, average: F, convert: C) -> bool {
    exists|mono: Seq<S>|
        {
            &&& #[trigger] is_mix_of(mono, audio.samples@, audio.channels as nat, average)
            &&& is_resampling_of(input, mono, audio.sample_rate, WHISPER_SAMPLE_RATE, convert)
        }
}

/// What Whisper gets is audio at 16 kHz: the mono mix of the decoded audio, resampled from the
/// audio's own rate.
pub proof fn law_whisper_input_is_the_mix_at_16_khz<
    S,
    F: Fn(&[S]) -> S,
    C: FnOnce(&[S], u32, u32, usize) -> std::result::Result<Vec<S>, ResampleFailure>,
>(input: Result<Vec<S>>, audio: DecodedAudio<S>, average: F, convert: C)
    requires
        is_whisper_input_of(input, audio, average, convert),
    ensures
        exists|mono: Seq<S>|
            {
                &&& #[trigger] is_mix_of(mono, audio.samples@, audio.channels as nat, average)
                &&& is_resampling_of(input, mono, audio.sample_rate, 16_000u32, convert)
            },
{
}

/// Whether the length of what `convert` gives depends on the length of the audio and the two rates
/// alone.
pub open spec fn length_ignores_values<
    S,
    C: FnOnce(&[S], u32, u32, usize) -> std::result::Result<Vec<S>, ResampleFailure>,
>(convert: C) -> bool {
    forall|a: &[S], b: &[S], src_rate: u32, dst_rate: u32, chunk: usize, x: Vec<S>, y: Vec<S>|
        a@.len() == b@.len() && #[trigger] call_ensures(
            convert,
            (a, src_rate, dst_rate, chunk),
            Ok::<Vec<S>, ResampleFailure>(x),
        ) && #[trigger] call_ensures(
            convert,
            (b, src_rate, dst_rate, chunk),
            Ok::<Vec<S>, ResampleFailure>(y),
        ) ==> x@.len() == y@.len()
}

/// The length of resampled audio depends on the length of the audio and the two rates alone, not on
/// the samples, if that holds of what converts it.
pub proof fn law_resampled_length_ignores_the_samples<
    S,
    C: FnOnce(&[S], u32, u32, usize) -> std::result::Result<Vec<S>, ResampleFailure>,
>(a: Seq<S>, b: Seq<S>, src_rate: u32, dst_rate: u32, convert: C, x: Vec<S>, y: Vec<S>)
    requires
        length_ignores_values(convert),
        a.len() == b.len(),
        is_resampling_of(Ok(x), a, src_rate, dst_rate, convert),
        is_resampling_of(Ok(y), b, src_rate, dst_rate, convert),
    ensures
        x@.len() == y@.len(),
{
}

/// Whether `len` is the length of `samples` samples brought from `src_rate` to `dst_rate`, within
/// one sample.
pub open spec fn is_scaled_length(len: nat, samples: nat, src_rate: u32, dst_rate: u32) -> bool {
    -src_rate <= len * src_rate - samples * dst_rate <= src_rate
}

/// Whether `convert` scales the length of audio with the rates, within one sample.
pub open spec fn scales_length<
    S,
    C: FnOnce(&[S], u32, u32, usize) -> std::result::Result<Vec<S>, ResampleFailure>,
>(convert: C) -> bool {
    forall|slice: &[S], src_rate: u32, dst_rate: u32, chunk: usize, converted: Vec<S>| #[trigger]
        call_ensures(
            convert,
            (slice, src_rate, dst_rate, chunk),
            Ok::<Vec<S>, ResampleFailure>(converted),
        ) ==> is_scaled_length(converted@.len(), slice@.len(), src_rate, dst_rate)
}

/// Bringing audio of at least two frames into the layout Whisper expects keeps its duration, up to
/// rounding to milliseconds, if what converts the sample rate scales the length with the rates.
pub proof fn law_duration_survives_resampling<
    S,
    F: Fn(&[S]) -> S,
    C: FnOnce(&[S], u32, u32, usize) -> std::result::Result<Vec<S>, ResampleFailure>,
>(audio: DecodedAudio<S>, average: F, convert: C, resampled: DecodedAudio<S>)
    requires
        scales_length(convert),
        audio.sample_rate > 0,
        audio.channels > 0,
        frame_count(audio.samples@.len(), audio.channels as nat) >= 2,
        is_whisper_input_of(Ok(resampled.samples), audio, average, convert),
        resampled.sample_rate == WHISPER_SAMPLE_RATE,
        resampled.channels == 1,
    ensures
        -1 <= resampled.duration_in_ms() - audio.duration_in_ms() <= 1,
{
    let mono = choose|mono: Seq<S>|
        {
            &&& #[trigger] is_mix_of(mono, audio.samples@, audio.channels as nat, average)
            &&& is_resampling_of(
                Ok(resampled.samples),
                mono,
                audio.sample_rate,
                WHISPER_SAMPLE_RATE,
                convert,
            )
        };
    let frames = frame_count(audio.samples@.len(), audio.channels as nat);
    law_mixing_keeps_the_frames(mono, audio.samples@, audio.channels as nat, average);
    assert(mono.len() == frames);
    let len = resampled.samples@.len();
    let rate = audio.sample_rate;
    assert(is_scaled_length(len, frames, rate, WHISPER_SAMPLE_RATE)) by {
        if rate == WHISPER_SAMPLE_RATE {
            assert(len == frames);
        }
    }
    lemma_durations_agree(len, frames, rate);
}

/// Audio whose length is scaled with the rate lasts as long, up to rounding.
proof fn lemma_durations_agree(len: nat, frames: nat, rate: u32)
    requires
        rate > 0,
        is_scaled_length(len, frames, rate, WHISPER_SAMPLE_RATE),
    ensures
        -1 <= len * 1000 / 16000 - frames * 1000 / rate as nat <= 1,
{
    let before = (frames * 1000 / rate as nat) as int;
    let r = rate as int;
    let l = len as int;
    assert(before * r <= frames * 1000 < before * r + r) by {
        vstd::arithmetic::div_mod::lemma_fundamental_div_mod((frames * 1000) as int, r);
        vstd::arithmetic::div_mod::lemma_mod_bound((frames * 1000) as int, r);
        vstd::arithmetic::mul::lemma_mul_is_commutative(before, r);
    }
    assert(16 * before <= l + 1) by (nonlinear_arith)
        requires
            r > 0,
            16 * (before * r) <= l * r + r,
    ;
    assert(l - 1 < 16 * before + 16) by (nonlinear_arith)
        requires
            r > 0,
            l * r - r < 16 * (before * r) + 16 * r,
    ;
}

impl<S: Copy> DecodedAudio<S> {
    /// Mixes all channels down to a single mono channel.
    ///
    /// Already-mono audio is returned as-is (with a copy).
    pub fn to_mono<F: Fn(&[S]) -> S>(&self, average: F) -> (mono: Vec<S>)
        requires
            self.channels > 1 ==> averages_frames_of(average, self.channels as nat),
        ensures
            is_mix_of(mono@, self.samples@, self.channels as nat, average),
            self.channels <= 1 ==> mono@ == self.samples@,
            self.channels > 1 ==> mono@.len() == self.samples@.len() / self.channels as nat,
            self.channels > 1 ==> forall|i: int|
                0 <= i < mono@.len() ==> averages(
                    average,
                    self.samples@.subrange(i * self.channels, i * self.channels + self.channels),
                    #[trigger] mono@[i],
                ),
    {
        mix_down(self.samples.as_slice(), self.channels, average)
    }

    /// Converts the decoded audio into the layout Whisper expects: mono, resampled to
    /// [`WHISPER_SAMPLE_RATE`].
    ///
    /// Feeding anything else to Whisper produces severely degraded transcripts, so callers should
    /// always route decoder output through this method.
    ///
    /// # Errors
    ///
    /// Returns [`Error::Resample`] when the sample rate cannot be converted.
    pub fn to_whisper_input<
        F: Fn(&[S]) -> S,
        C: FnOnce(&[S], u32, u32, usize) -> std::result::Result<Vec<S>, ResampleFailure>,
    >(&self, average: F, convert: C) -> (input: Result<Vec<S>>)
        requires
            self.channels > 1 ==> averages_frames_of(average, self.channels as nat),
            forall|mono: Seq<S>|
                #[trigger] is_mix_of(mono, self.samples@, self.channels as nat, average)
                    && !passes_through(mono.len(), self.sample_rate, WHISPER_SAMPLE_RATE)
                    ==> converts(convert, mono, self.sample_rate, WHISPER_SAMPLE_RATE),
        ensures
            is_whisper_input_of(input, *self, average, convert),
            exists|mono: Seq<S>|
                {
                    &&& #[trigger] is_mix_of(mono, self.samples@, self.channels as nat, average)
                    &&& is_resampling_of(input, mono, self.sample_rate, 16_000u32, convert)
                },
            self.sample_rate == 16_000 ==> (input matches Ok(mono) && is_mix_of(
                mono@,
                self.samples@,
                self.channels as nat,
                average,
            )),
    {
        let mono = self.to_mono(average);
        resample(mono.as_slice(), self.sample_rate, WHISPER_SAMPLE_RATE, convert)
    }
}

/// What a container says of its audio track.
#[derive(Debug, Clone, Copy)]
pub struct Track {
    /// The id packets of this track carry.
    pub id: u32,
    /// The audio parameters of the track's codec, if they are audio parameters.
    pub params: Option<AudioParams>,
}

/// The parameters of an audio codec, as far as the container knows them.
#[derive(Debug, Clone, Copy)]
pub struct AudioParams {
    /// Sample rate, in Hz.
    pub sample_rate: Option<u32>,
    /// Number of channels.
    pub channels: Option<usize>,
}

/// What reading the next packet of a media file brought.
#[derive(Debug)]
pub enum PacketRead {
    /// A packet of the track with this id.
    Packet(u32),
    /// The end of the stream.
    EndOfStream,
    /// The track list changed underneath the reader.
    ResetRequired,
    /// Reading failed with an I/O error.
    IoError(String),
    /// Reading failed for another reason.
    Failed(String),
}

/// What to do after reading a packet.
#[derive(Debug)]
pub enum ReadStep {
    /// Decode the packet and report the outcome to [`PacketLoop::decoded`].
    Decode,
    /// Leave the packet alone and read the next one.
    Skip,
    /// Stop reading and call [`PacketLoop::finish`].
    Finish,
    /// Give up.
    Fail(Error),
}

/// What decoding a packet brought.
#[derive(Debug)]
pub enum PacketDecode<S> {
    /// The interleaved samples of the packet.
    Samples(Vec<S>),
    /// The packet is malformed.
    Malformed,
    /// The decoder failed for another reason.
    Failed,
}

/// What to do after decoding a packet.
#[derive(Debug, Clone, Copy, PartialEq, Eq, Structural)]
pub enum DecodeStep {
    /// Read the next packet.
    ReadNext,
    /// Stop reading and call [`PacketLoop::finish`].
    Finish,
}

/// The decoding of one audio track, packet by packet.
///
/// Reading packets and decoding them happens outside. This type decides which packets count, when
/// to stop, and what the decoded audio is in the end.
pub struct PacketLoop<S> {
    track_id: u32,
    sample_rate: u32,
    channels: usize,
    samples: Vec<S>,
    buffers: Ghost<Seq<Seq<S>>>,
}

/// The model of a [`PacketLoop`].
pub struct PacketLoopView<S> {
    /// The id of the track that is decoded.
    pub track_id: u32,
    /// Sample rate of the track, in Hz.
    pub sample_rate: u32,
    /// Number of channels of the track.
    pub channels: usize,
    /// The samples of every packet that was decoded, packet by packet.
    pub buffers: Seq<Seq<S>>,
}

impl<S> View for PacketLoop<S> {
    type V = PacketLoopView<S>;

    closed spec fn view(&self) -> PacketLoopView<S> {
        PacketLoopView {
            track_id: self.track_id,
            sample_rate: self.sample_rate,
            channels: self.channels,
            buffers: self.buffers@,
        }
    }
}

impl<S> PacketLoopView<S> {
    /// The decoding after a packet: its samples are added, and a failure adds nothing.
    pub open spec fn after(self, decode: PacketDecode<S>) -> PacketLoopView<S> {
        match decode {
            PacketDecode::Samples(samples) => PacketLoopView {
                buffers: self.buffers.push(samples@),
                ..self
            },
            _ => self,
        }
    }

    /// Whether what was read is a packet of the track that is decoded.
    pub open spec fn is_own(self, read: PacketRead) -> bool {
        read matches PacketRead::Packet(id) && id == self.track_id
    }

    /// Whether the decoding stops at a read and what decoding it brought: at anything but a packet,
    /// and at a packet of the track that the decoder failed on.
    pub open spec fn stops_at(self, read: PacketRead, decode: PacketDecode<S>) -> bool {
        !(read is Packet) || self.is_own(read) && decode is Failed
    }
}

/// One turn of the decoding: what was read, and what decoding it brings. The latter counts for
/// packets of the track alone, since no other is decoded.
pub type Turn<S> = (PacketRead, PacketDecode<S>);

/// Whether the decoding stops somewhere in `run`.
pub open spec fn is_stopped<S>(start: PacketLoopView<S>, run: Seq<Turn<S>>) -> bool {
    exists|i: int| 0 <= i < run.len() && start.stops_at((#[trigger] run[i]).0, run[i].1)
}

/// The decoding after the turns of `run`; those after a stop do not take place.
pub open spec fn run_after<S>(start: PacketLoopView<S>, run: Seq<Turn<S>>) -> PacketLoopView<S>
    decreases run.len(),
{
    if run.len() == 0 {
        start
    } else {
        let earlier = run_after(start, run.drop_last());
        if !is_stopped(start, run.drop_last()) && start.is_own(run.last().0) {
            earlier.after(run.last().1)
        } else {
            earlier
        }
    }
}

/// The samples of the packets of the track in `run` that could be decoded, in order.
pub open spec fn track_buffers<S>(start: PacketLoopView<S>, run: Seq<Turn<S>>) -> Seq<Seq<S>> {
    run.filter(|turn: Turn<S>| start.is_own(turn.0) && turn.1 is Samples).map_values(
        |turn: Turn<S>| turn.1->Samples_0@,
    )
}

/// A turn adds the samples of a decoded packet of the track behind what is there, as they are; any
/// other turn, and every turn after a stop, adds nothing. The decoding stops at what is no packet
/// and at a packet of the track that the decoder failed on.
pub proof fn law_turns_add_their_samples<S>(
    start: PacketLoopView<S>,
    run: Seq<Turn<S>>,
    turn: Turn<S>,
)
    ensures
        run_after(start, Seq::<Turn<S>>::empty()) == start,
        !is_stopped(start, Seq::<Turn<S>>::empty()),
        is_stopped(start, run.push(turn)) <==> is_stopped(start, run) || !(turn.0 is Packet) || (
        turn.0 == PacketRead::Packet(start.track_id) && turn.1 is Failed),
        !is_stopped(start, run) && turn.0 == PacketRead::Packet(start.track_id) ==> (turn.1 matches
            PacketDecode::Samples(samples) ==> run_after(start, run.push(turn)) == (
        PacketLoopView {
            track_id: start.track_id,
            sample_rate: start.sample_rate,
            channels: start.channels,
            buffers: run_after(start, run).buffers.push(samples@),
        })),
        is_stopped(start, run) || turn.0 != PacketRead::Packet(start.track_id) || !(
        turn.1 is Samples) ==> run_after(start, run.push(turn)) == run_after(start, run),
{
    let longer = run.push(turn);
    assert(longer.drop_last() =~= run);
    lemma_run_keeps_the_track(start, run);
    if is_stopped(start, run) {
        let i = choose|i: int|
            0 <= i < run.len() && start.stops_at((#[trigger] run[i]).0, run[i].1);
        assert(longer[i] == run[i]);
    } else if is_stopped(start, longer) {
        let i = choose|i: int|
            0 <= i < longer.len() && start.stops_at((#[trigger] longer[i]).0, longer[i].1);
        if i < run.len() {
            assert(run[i] == longer[i]);
        }
    }
    assert(longer[run.len() as int] == turn);
}

/// A run does not change the track or its parameters.
proof fn lemma_run_keeps_the_track<S>(start: PacketLoopView<S>, run: Seq<Turn<S>>)
    ensures
        run_after(start, run).track_id == start.track_id,
        run_after(start, run).sample_rate == start.sample_rate,
        run_after(start, run).channels == start.channels,
    decreases run.len(),
{
    if run.len() > 0 {
        lemma_run_keeps_the_track(start, run.drop_last());
    }
}

/// A run that does not stop gathers the samples of every packet of the track that could be decoded,
/// in order, and nothing else: packets of other tracks and malformed packets leave no trace, and
/// the track's parameters stay as they are.
pub proof fn law_run_gathers_the_track<S>(start: PacketLoopView<S>, run: Seq<Turn<S>>)
    requires
        !is_stopped(start, run),
    ensures
        run_after(start, run) == (PacketLoopView {
            buffers: start.buffers + track_buffers(start, run),
            ..start
        }),
    decreases run.len(),
{
    reveal(Seq::filter);
    let keep = |turn: Turn<S>| start.is_own(turn.0) && turn.1 is Samples;
    let samples = |turn: Turn<S>| turn.1->Samples_0@;
    if run.len() == 0 {
        assert(start.buffers + track_buffers(start, run) =~= start.buffers);
    } else {
        let earlier = run.drop_last();
        let last = run.last();
        assert(!is_stopped(start, earlier)) by {
            if is_stopped(start, earlier) {
                let i = choose|i: int|
                    0 <= i < earlier.len() && start.stops_at(
                        (#[trigger] earlier[i]).0,
                        earlier[i].1,
                    );
                assert(run[i] == earlier[i]);
            }
        }
        law_run_gathers_the_track(start, earlier);
        if keep(last) {
            assert(track_buffers(start, run) =~= track_buffers(start, earlier).push(samples(last)));
            assert(start.buffers + track_buffers(start, run) =~= (start.buffers + track_buffers(
                start,
                earlier,
            )).push(samples(last)));
        }
    }
}

/// What would follow a stop does not matter: the decoding ends with what the turns in front of the
/// stop gathered.
pub proof fn law_run_ends_at_the_first_stop<S>(
    start: PacketLoopView<S>,
    run: Seq<Turn<S>>,
    n: int,
)
    requires
        0 <= n < run.len(),
        start.stops_at(run[n].0, run[n].1),
        !is_stopped(start, run.take(n)),
    ensures
        run_after(start, run) == run_after(start, run.take(n)),
    decreases run.len(),
{
    let earlier = run.drop_last();
    if n == run.len() - 1 {
        assert(earlier =~= run.take(n));
    } else {
        assert(earlier[n] == run[n]);
        assert(earlier.take(n) =~= run.take(n));
        law_run_ends_at_the_first_stop(start, earlier, n);
        assert(is_stopped(start, earlier));
    }
}

/// The error for a media file that cannot be opened.
pub fn open_error(path: &str, reason: &str) -> (error: Error)
    ensures
        error matches Error::Audio(message) && message@ == "cannot open "@ + path@ + ": "@ + reason@,
{
    let subject = text::concat3("cannot open ", path, ": ");
    Error::Audio(text::concat2(subject.as_str(), reason))
}

/// The error for a media file whose container is not recognised.
pub fn probe_error(path: &str, reason: &str) -> (error: Error)
    ensures
        error matches Error::Audio(message) && message@ == "cannot probe "@ + path@ + ": "@ + reason@,
{
    let subject = text::concat3("cannot probe ", path, ": ");
    Error::Audio(text::concat2(subject.as_str(), reason))
}

/// The error for a codec no decoder can be made for.
pub fn decoder_error(reason: &str) -> (error: Error)
    ensures
        error matches Error::Audio(message) && message@ == "cannot create decoder: "@ + reason@,
{
    Error::Audio(text::concat2("cannot create decoder: ", reason))
}

impl<S> PacketLoop<S> {
    /// The samples gathered so far are those of the decoded packets, in order.
    pub closed spec fn wf(&self) -> bool {
        self.samples@ == self.buffers@.flatten()
    }

    /// Starts decoding the default audio track of a media file.
    ///
    /// A track that does not state its sample rate is taken to be at [`WHISPER_SAMPLE_RATE`], one
    /// that does not state its channels to have a single one.
    ///
    /// # Errors
    ///
    /// Returns [`Error::NoAudioTrack`] when there is no track, or none with audio parameters.
    pub fn start(track: Option<Track>) -> (started: Result<Self>)
        ensures
            match track {
                Some(Track { id, params: Some(params) }) => started matches Ok(state) && state.wf()
                    && state@ == (PacketLoopView::<S> {
                    track_id: id,
                    sample_rate: if params.sample_rate is Some {
                        params.sample_rate->0
                    } else {
                        WHISPER_SAMPLE_RATE
                    },
                    channels: if params.channels is Some {
                        params.channels->0
                    } else {
                        1
                    },
                    buffers: Seq::empty(),
                }),
                _ => started matches Err(Error::NoAudioTrack),
            },
    {
        match track {
            Some(Track { id, params: Some(params) }) => Ok(
                PacketLoop {
                    track_id: id,
                    sample_rate: match params.sample_rate {
                        Some(rate) => rate,
                        None => WHISPER_SAMPLE_RATE,
                    },
                    channels: match params.channels {
                        Some(count) => count,
                        None => 1,
                    },
                    samples: Vec::new(),
                    buffers: Ghost(Seq::empty()),
                },
            ),
            _ => Err(Error::NoAudioTrack),
        }
    }

    /// Decides what to do with what was read.
    ///
    /// Packets of other tracks are skipped. A changed track list ends the decode like the end of
    /// the stream does: rebuilding the decoder set is out of scope for a whole-file decode.
    pub fn packet_read(&self, read: PacketRead) -> (step: ReadStep)
        ensures
            step is Decode <==> self@.is_own(read),
            step is Decode || step is Skip <==> read is Packet,
            match read {
                PacketRead::Packet(id) => if id == self@.track_id {
                    step is Decode
                } else {
                    step is Skip
                },
                PacketRead::EndOfStream => step is Finish,
                PacketRead::ResetRequired => step is Finish,
                PacketRead::IoError(reason) => step matches ReadStep::Fail(Error::Audio(message))
                    && message@ == "io error while reading packets: "@ + reason@,
                PacketRead::Failed(reason) => step matches ReadStep::Fail(Error::Audio(message))
                    && message@ == "cannot read packet: "@ + reason@,
            },
    {
        match read {
            PacketRead::Packet(id) => {
                if id == self.track_id {
                    ReadStep::Decode
                } else {
                    ReadStep::Skip
                }
            },
            PacketRead::EndOfStream => ReadStep::Finish,
            PacketRead::ResetRequired => ReadStep::Finish,
            PacketRead::IoError(reason) => ReadStep::Fail(
                Error::Audio(text::concat2("io error while reading packets: ", reason.as_str())),
            ),
            PacketRead::Failed(reason) => ReadStep::Fail(
                Error::Audio(text::concat2("cannot read packet: ", reason.as_str())),
            ),
        }
    }

    /// Takes in what decoding a packet brought.
    ///
    /// A malformed packet is skipped; any other failure stops the decode.
    pub fn decoded(&mut self, decode: PacketDecode<S>) -> (step: DecodeStep)
        requires
            old(self).wf(),
        ensures
            final(self).wf(),
            final(self)@ == old(self)@.after(decode),
            final(self)@.track_id == old(self)@.track_id,
            final(self)@.sample_rate == old(self)@.sample_rate,
            final(self)@.channels == old(self)@.channels,
            decode matches PacketDecode::Samples(samples) ==> final(self)@.buffers
                == old(self)@.buffers.push(samples@),
            !(decode is Samples) ==> final(self)@.buffers == old(self)@.buffers,
            step == if decode is Failed {
                DecodeStep::Finish
            } else {
                DecodeStep::ReadNext
            },
    {
        match decode {
            PacketDecode::Samples(mut samples) => {
                proof {
                    self.buffers@.lemma_flatten_push(samples@);
                    self.buffers@ = self.buffers@.push(samples@);
                }
                self.samples.append(&mut samples);
                DecodeStep::ReadNext
            },
            PacketDecode::Malformed => DecodeStep::ReadNext,
            PacketDecode::Failed => DecodeStep::Finish,
        }
    }

    /// The decoded audio: the samples of every decoded packet, in order.
    ///
    /// # Errors
    ///
    /// Returns [`Error::EmptyAudio`] if nothing was decoded.
    pub fn finish(self) -> (audio: Result<DecodedAudio<S>>)
        requires
            self.wf(),
        ensures
            self@.buffers.flatten().len() == 0 ==> (audio matches Err(Error::EmptyAudio)),
            self@.buffers.flatten().len() > 0 ==> (audio matches Ok(decoded) && {
                &&& decoded.samples@ == self@.buffers.flatten()
                &&& decoded.sample_rate == self@.sample_rate
                &&& decoded.channels == if self@.channels == 0 {
                    1
                } else {
                    self@.channels
                }
            }),
    {
        if self.samples.is_empty() {
            return Err(Error::EmptyAudio);
        }
        let channels: usize = if self.channels == 0 {
            1
        } else {
            self.channels
        };
        Ok(DecodedAudio { samples: self.samples, sample_rate: self.sample_rate, channels })
    }
}

} // verus!
