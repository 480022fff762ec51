//! What goes into a transcription and what comes out of it.
//!
//! Running the model happens outside. This module decides whether a request can be run and with
//! which parameters, and gathers the segments the model produced.
//!
//! Probabilities and thresholds are of a type of the caller's choice, `P`.

use vstd::prelude::*;

use crate::error::{Error, Result, WhisperFailure};

verus! {

/// One transcribed chunk of speech, as produced by Whisper.
#[derive(Debug, Clone, PartialEq)]
pub struct Segment<P> {
    /// Start of the segment, in Whisper's 10 ms units (multiply by 10 to get milliseconds).
    pub start_timestamp: i64,
    /// End of the segment, in Whisper's 10 ms units.
    pub end_timestamp: i64,
    /// Transcribed text for this segment, including its leading space if Whisper emitted one.
    pub text: String,
    /// How sure Whisper is that this segment holds no speech at all, between 0 and 1.
    ///
    /// Whisper happily invents text over silence, noise and music. This is the model's own opinion
    /// on whether the segment was speech. How much it can be trusted depends on the checkpoint: it
    /// separates clean speech from silence on the classic multilingual models, and stays near zero
    /// for everything on the turbo ones. Gate on it only after checking what it actually reports
    /// for your model.
    pub no_speech_probability: P,
}

impl<P> Segment<P> {
    /// Segment start in milliseconds.
    pub fn start_ms(&self) -> (ms: i64)
        requires
            i64::MIN <= self.start_timestamp * 10 <= i64::MAX,
        ensures
            ms == self.start_timestamp * 10,
    {
        self.start_timestamp * 10
    }

    /// Segment end in milliseconds.
    pub fn end_ms(&self) -> (ms: i64)
        requires
            i64::MIN <= self.end_timestamp * 10 <= i64::MAX,
        ensures
            ms == self.end_timestamp * 10,
    {
        self.end_timestamp * 10
    }
}

/// The concatenated text of `segments`, in order.
pub open spec fn transcript<P>(segments: Seq<Segment<P>>) -> Seq<char>
    decreases segments.len(),
{
    if segments.len() == 0 {
        Seq::empty()
    } else {
        transcript(segments.drop_last()) + segments.last().text@
    }
}

/// Result of a transcription run.
///
/// Beside the full text, the individual Whisper segments are kept so callers can build subtitles or
/// word-level timelines without re-running the model.
#[derive(Debug, Clone, PartialEq)]
pub struct TranscriberOutput<P> {
    /// Concatenated text of every segment.
    pub text: String,
    /// Individual segments, in the order Whisper produced them.
    pub segments: Vec<Segment<P>>,
    start_timestamp: i64,
    end_timestamp: i64,
}

/// Whether `result` comes of combining `start` with each of `values` in turn under `combine`.
pub open spec fn is_fold<P, F: Fn(P, P) -> P>(
    combine: F,
    start: P,
    values: Seq<P>,
    result: P,
) -> bool {
    exists|steps: Seq<P>| #[trigger]
        are_fold_steps(combine, start, values, steps) && steps.last() == result
}

/// Whether `steps` are the intermediate results of combining `start` with each of `values`.
pub open spec fn are_fold_steps<P, F: Fn(P, P) -> P>(
    combine: F,
    start: P,
    values: Seq<P>,
    steps: Seq<P>,
) -> bool {
    &&& steps.len() == values.len() + 1
    &&& steps.first() == start
    &&& forall|i: int|
        0 <= i < values.len() ==> call_ensures(
            combine,
            (steps[i], #[trigger] values[i]),
            steps[i + 1],
        )
}

/// The no-speech probabilities of `segments`, in order.
pub open spec fn probabilities<P>(segments: Seq<Segment<P>>) -> Seq<P> {
    Seq::new(segments.len(), |i: int| segments[i].no_speech_probability)
}

/// What asking for one segment of a finished run brought.
#[derive(Debug)]
pub enum SegmentRead<P> {
    /// The segment.
    Segment(Segment<P>),
    /// There is no such segment, although the run counted it.
    Missing,
    /// The text of the segment could not be read.
    Unreadable(WhisperFailure),
}

/// The position of the first read that did not bring a segment, or the number of reads.
pub open spec fn first_gap<P>(reads: Seq<SegmentRead<P>>) -> nat
    decreases reads.len(),
{
    if reads.len() == 0 || !(reads.first() is Segment) {
        0
    } else {
        1 + first_gap(reads.drop_first())
    }
}

/// The segments among `reads`.
pub open spec fn segments_of<P>(reads: Seq<SegmentRead<P>>) -> Seq<Segment<P>> {
    Seq::new(reads.len(), |i: int| reads[i]->Segment_0)
}

/// The model of a [`TranscriberOutput`].
pub struct OutputView<P> {
    /// The full text.
    pub text: Seq<char>,
    /// The segments, in order.
    pub segments: Seq<Segment<P>>,
    /// Start of the first segment, in 10 ms units.
    pub start: int,
    /// End of the last segment, in 10 ms units.
    pub end: int,
}

/// The output that describes `segments`: their concatenated text, from the start of the first to
/// the end of the last.
pub open spec fn output_of<P>(segments: Seq<Segment<P>>) -> OutputView<P> {
    OutputView {
        text: transcript(segments),
        segments,
        start: if segments.len() == 0 {
            0
        } else {
            segments.first().start_timestamp as int
        },
        end: if segments.len() == 0 {
            0
        } else {
            segments.last().end_timestamp as int
        },
    }
}

impl<P> View for TranscriberOutput<P> {
    type V = OutputView<P>;

    closed spec fn view(&self) -> OutputView<P> {
        OutputView {
            text: self.text@,
            segments: self.segments@,
            start: self.start_timestamp as int,
            end: self.end_timestamp as int,
        }
    }
}

impl<P> TranscriberOutput<P> {
    /// The output that describes `segments`.
    pub fn from_segments(segments: Vec<Segment<P>>) -> (output: Self)
        ensures
            output@ == output_of(segments@),
            output@.segments == segments@,
            output@.text == transcript(segments@),
            segments@.len() == 0 ==> output@.start == 0 && output@.end == 0,
            segments@.len() > 0 ==> output@.start == segments@[0].start_timestamp && output@.end
                == segments@[segments@.len() - 1].end_timestamp,
    {
        Self::assemble(segments)
    }

    /// Puts an output together, field by field.
    fn assemble(segments: Vec<Segment<P>>) -> (output: Self)
        ensures
            output.text@ == transcript(segments@),
            output.segments@ == segments@,
            segments@.len() == 0 ==> output.start_timestamp == 0 && output.end_timestamp == 0,
            segments@.len() > 0 ==> output.start_timestamp == segments@[0].start_timestamp
                && output.end_timestamp == segments@[segments@.len() - 1].end_timestamp,
    {
        let mut text = String::new();
        let mut i: usize = 0;
        while i < segments.len()
            invariant
                i <= segments@.len(),
                text@ == transcript(segments@.take(i as int)),
            decreases segments.len() - i,
        {
            text.append(segments[i].text.as_str());
            i = i + 1;
            assert(segments@.take(i as int).drop_last() =~= segments@.take(i - 1));
        }
        assert(segments@.take(i as int) =~= segments@);
        let start_timestamp: i64 = if segments.len() == 0 {
            0
        } else {
            segments[0].start_timestamp
        };
        let end_timestamp: i64 = if segments.len() == 0 {
            0
        } else {
            segments[segments.len() - 1].end_timestamp
        };
        TranscriberOutput { text, segments, start_timestamp, end_timestamp }
    }

    /// Collects every segment Whisper produced in a run.
    ///
    /// # Errors
    ///
    /// Returns [`Error::Whisper`] for the first segment that is missing or has no readable text.
    pub fn collect(reads: Vec<SegmentRead<P>>) -> (output: Result<Self>)
        ensures
            first_gap(reads@) == reads@.len() ==> (output matches Ok(collected)
                && collected@ == output_of(segments_of(reads@))),
            (forall|i: int| 0 <= i < reads@.len() ==> #[trigger] reads@[i] is Segment) ==> (
            output matches Ok(collected) && {
                &&& collected@.segments.len() == reads@.len()
                &&& collected@.text == transcript(collected@.segments)
                &&& forall|i: int|
                    0 <= i < reads@.len() ==> #[trigger] reads@[i] == SegmentRead::Segment(
                        collected@.segments[i],
                    )
            }),
            forall|n: int|
                0 <= n < reads@.len() && !(#[trigger] reads@[n] is Segment) && (forall|i: int|
                    0 <= i < n ==> #[trigger] reads@[i] is Segment) ==> match reads@[n] {
                    SegmentRead::Unreadable(failure) => output matches Err(Error::Whisper(reported))
                        && reported == failure,
                    _ => output matches Err(Error::Whisper(WhisperFailure::NullPointer)),
                },
            first_gap(reads@) < reads@.len() ==> match reads@[first_gap(reads@) as int] {
                SegmentRead::Unreadable(failure) => output matches Err(Error::Whisper(reported))
                    && reported == failure,
                _ => output matches Err(Error::Whisper(WhisperFailure::NullPointer)),
            },
    {
        let ghost all = reads@;
        let mut segments: Vec<Segment<P>> = Vec::new();
        proof {
            law_first_gap(all);
        }
        for read in it: reads
            invariant
                it.seq() == all,
                segments@ == segments_of(all).take(it.index() as int),
                forall|j: int| 0 <= j < it.index() ==> all[j] is Segment,
                forall|j: int| 0 <= j < first_gap(all) ==> #[trigger] all[j] is Segment,
                first_gap(all) <= all.len(),
                first_gap(all) < all.len() ==> !(all[first_gap(all) as int] is Segment),
        {
            match read {
                SegmentRead::Segment(segment) => {
                    segments.push(segment);
                    assert(segments@ =~= segments_of(all).take(it.index() + 1));
                },
                SegmentRead::Missing => {
                    return Err(Error::Whisper(WhisperFailure::NullPointer));
                },
                SegmentRead::Unreadable(failure) => {
                    return Err(Error::Whisper(failure));
                },
            }
        }
        assert(segments_of(all).take(all.len() as int) =~= segments_of(all));
        Ok(Self::from_segments(segments))
    }

    /// Concatenated text of every segment.
    pub fn text(&self) -> (text: &str)
        ensures
            text@ == self@.text,
    {
        self.text.as_str()
    }

    /// Individual segments, in the order Whisper produced them.
    pub fn segments(&self) -> (segments: &[Segment<P>])
        ensures
            segments@ == self@.segments,
    {
        self.segments.as_slice()
    }

    /// Start of the first segment, in Whisper's 10 ms units.
    pub fn start_timestamp(&self) -> (start: i64)
        ensures
            start == self@.start,
    {
        self.start_timestamp
    }

    /// End of the last segment, in Whisper's 10 ms units.
    pub fn end_timestamp(&self) -> (end: i64)
        ensures
            end == self@.end,
    {
        self.end_timestamp
    }

    /// Duration covered by the transcription, in milliseconds.
    pub fn duration_ms(&self) -> (ms: i64)
        requires
            i64::MIN <= self@.end - self@.start <= i64::MAX,
            i64::MIN <= (self@.end - self@.start) * 10 <= i64::MAX,
        ensures
            ms == (self@.end - self@.start) * 10,
    {
        (self.end_timestamp - self.start_timestamp) * 10
    }

    /// Number of transcribed segments.
    pub fn len(&self) -> (len: usize)
        ensures
            len == self@.segments.len(),
    {
        self.segments.len()
    }

    /// Whether no segment was produced.
    pub fn is_empty(&self) -> (yes: bool)
        ensures
            yes == (self@.segments.len() == 0),
    {
        self.segments.is_empty()
    }
}

impl<P: Copy> TranscriberOutput<P> {
    /// Highest no-speech probability across the segments, or `silent` when nothing was decoded.
    ///
    /// `worse` picks the higher of two probabilities, and the search starts from `floor`. A
    /// one-line guard against invented text; see [`Segment::no_speech_probability`] for how much
    /// weight it carries for a given checkpoint.
    pub fn no_speech_probability<F: Fn(P, P) -> P>(&self, silent: P, floor: P, worse: F) -> (highest:
        P)
        requires
            self@.segments.len() > 0 ==> forall|a: P, b: P| call_requires(worse, (a, b)),
        ensures
            self@.segments.len() == 0 ==> highest == silent,
            self@.segments.len() > 0 ==> is_fold(
                worse,
                floor,
                probabilities(self@.segments),
                highest,
            ),
            self@.segments.len() > 0 ==> exists|steps: Seq<P>|
                {
                    &&& #[trigger] steps.len() == self@.segments.len() + 1
                    &&& steps[0] == floor
                    &&& steps[self@.segments.len() as int] == highest
                    &&& forall|i: int|
                        0 <= i < self@.segments.len() ==> call_ensures(
                            worse,
                            (steps[i], (#[trigger] self@.segments[i]).no_speech_probability),
                            steps[i + 1],
                        )
                },
    {
        if self.segments.is_empty() {
            return silent;
        }
        let ghost values = probabilities(self@.segments);
        let mut highest: P = floor;
        let ghost mut steps: Seq<P> = seq![floor];
        let mut i: usize = 0;
        while i < self.segments.len()
            invariant
                i <= self@.segments.len() == values.len(),
                values == probabilities(self@.segments),
                forall|a: P, b: P| call_requires(worse, (a, b)),
                are_fold_steps(worse, floor, values.take(i as int), steps),
                steps.last() == highest,
            decreases self.segments.len() - i,
        {
            highest = worse(highest, self.segments[i].no_speech_probability);
            proof {
                let earlier = steps;
                steps = steps.push(highest);
                assert forall|k: int| 0 <= k < i + 1 implies call_ensures(
                    worse,
                    (steps[k], #[trigger] values.take(i + 1)[k]),
                    steps[k + 1],
                ) by {
                    if k < i {
                        assert(values.take(i as int)[k] == values[k]);
                        assert(steps[k] == earlier[k] && steps[k + 1] == earlier[k + 1]);
                    }
                }
            }
            i = i + 1;
        }
        assert(values.take(i as int) =~= values);
        assert forall|k: int| 0 <= k < self@.segments.len() implies call_ensures(
            worse,
            (steps[k], (#[trigger] self@.segments[k]).no_speech_probability),
            steps[k + 1],
        ) by {
            assert(values[k] == self@.segments[k].no_speech_probability);
        }
        assert(steps.len() == self@.segments.len() + 1);
        highest
    }
}

/// The text of a single segment is that segment's text, whatever its timestamps, and no segment has
/// no text.
pub proof fn law_one_segment_is_its_text<P>(segment: Segment<P>)
    ensures
        transcript(seq![segment]) == segment.text@,
        transcript(Seq::<Segment<P>>::empty()) == Seq::<char>::empty(),
{
    let one = seq![segment];
    assert(one.drop_last() =~= Seq::empty());
    assert(transcript(one.drop_last()) + segment.text@ =~= segment.text@);
}

/// The full text holds the text of every segment, whole, behind the text of the segments before it
/// and in front of the text of those after it.
pub proof fn law_transcript_holds_every_segment<P>(segments: Seq<Segment<P>>, i: int)
    requires
        0 <= i < segments.len(),
    ensures
        transcript(segments) == transcript(segments.take(i)) + segments[i].text@ + transcript(
            segments.skip(i + 1),
        ),
{
    let before = segments.take(i);
    let one = seq![segments[i]];
    let after = segments.skip(i + 1);
    assert(before + one + after =~= segments);
    law_transcripts_concatenate(before + one, after);
    law_transcripts_concatenate(before, one);
    law_one_segment_is_its_text(segments[i]);
}

/// An output describes its segments: all of them, in order, with their full text, from the start of
/// the first to the end of the last.
pub proof fn law_output_describes_its_segments<P>(segments: Seq<Segment<P>>)
    ensures
        output_of(segments).segments == segments,
        output_of(segments).text == transcript(segments),
        segments.len() == 0 ==> output_of(segments).start == 0 && output_of(segments).end == 0,
        segments.len() > 0 ==> output_of(segments).start == segments[0].start_timestamp && output_of(
            segments,
        ).end == segments[segments.len() - 1].end_timestamp,
{
}

/// The text of two stretches of segments is the text of the first followed by that of the second.
pub proof fn law_transcripts_concatenate<P>(first: Seq<Segment<P>>, second: Seq<Segment<P>>)
    ensures
        transcript(first + second) == transcript(first) + transcript(second),
    decreases second.len(),
{
    if second.len() == 0 {
        assert(first + second =~= first);
        assert(transcript(first) + transcript(second) =~= transcript(first));
    } else {
        law_transcripts_concatenate(first, second.drop_last());
        assert((first + second).drop_last() =~= first + second.drop_last());
        assert((first + second).last() == second.last());
        assert(transcript(first) + (transcript(second.drop_last()) + second.last().text@)
            =~= transcript(first) + transcript(second.drop_last()) + second.last().text@);
    }
}

/// With a `worse` that picks the higher of two values, the no-speech probability of a transcription
/// is the highest of its segments': none is above it, and it is one of them or the floor.
pub proof fn law_no_speech_probability_is_the_highest<P, F: Fn(P, P) -> P>(
    worse: F,
    floor: P,
    values: Seq<P>,
    highest: P,
    at_most: spec_fn(P, P) -> bool,
)
    requires
        is_fold(worse, floor, values, highest),
        forall|a: P| #[trigger] at_most(a, a),
        forall|a: P, b: P, c: P| #[trigger]
            at_most(a, b) && #[trigger] at_most(b, c) ==> at_most(a, c),
        forall|a: P, b: P, r: P| #[trigger]
            call_ensures(worse, (a, b), r) ==> at_most(a, r) && at_most(b, r) && (r == a || r == b),
    ensures
        forall|i: int| 0 <= i < values.len() ==> at_most(#[trigger] values[i], highest),
        at_most(floor, highest),
        highest == floor || values.contains(highest),
{
    let steps = choose|steps: Seq<P>| #[trigger]
        are_fold_steps(worse, floor, values, steps) && steps.last() == highest;
    lemma_steps_rise(worse, floor, values, steps, at_most, values.len());
}

/// With a `worse` that picks the higher of two values, no segment is less likely to hold speech than
/// the no-speech probability of the whole says, and that probability is one of a segment or the
/// floor.
pub proof fn law_no_segment_exceeds_the_no_speech_probability<P, F: Fn(P, P) -> P>(
    worse: F,
    floor: P,
    segments: Seq<Segment<P>>,
    highest: P,
    at_most: spec_fn(P, P) -> bool,
    i: int,
)
    requires
        is_fold(worse, floor, probabilities(segments), highest),
        forall|a: P| #[trigger] at_most(a, a),
        forall|a: P, b: P, c: P| #[trigger]
            at_most(a, b) && #[trigger] at_most(b, c) ==> at_most(a, c),
        forall|a: P, b: P, r: P| #[trigger]
            call_ensures(worse, (a, b), r) ==> at_most(a, r) && at_most(b, r) && (r == a || r == b),
        0 <= i < segments.len(),
    ensures
        at_most(segments[i].no_speech_probability, highest),
        at_most(floor, highest),
        highest == floor || exists|k: int|
            0 <= k < segments.len() && (#[trigger] segments[k]).no_speech_probability == highest,
{
    let values = probabilities(segments);
    law_no_speech_probability_is_the_highest(worse, floor, values, highest, at_most);
    assert(values[i] == segments[i].no_speech_probability);
    if highest != floor {
        let k = choose|k: int| 0 <= k < values.len() && values[k] == highest;
        assert(segments[k].no_speech_probability == highest);
    }
}

/// Each step of a search for the highest value is the highest so far.
proof fn lemma_steps_rise<P, F: Fn(P, P) -> P>(
    worse: F,
    floor: P,
    values: Seq<P>,
    steps: Seq<P>,
    at_most: spec_fn(P, P) -> bool,
    n: nat,
)
    requires
        n <= values.len(),
        are_fold_steps(worse, floor, values, steps),
        forall|a: P| #[trigger] at_most(a, a),
        forall|a: P, b: P, c: P| #[trigger]
            at_most(a, b) && #[trigger] at_most(b, c) ==> at_most(a, c),
        forall|a: P, b: P, r: P| #[trigger]
            call_ensures(worse, (a, b), r) ==> at_most(a, r) && at_most(b, r) && (r == a || r == b),
    ensures
        forall|i: int| 0 <= i < n ==> at_most(#[trigger] values[i], steps[n as int]),
        at_most(floor, steps[n as int]),
        steps[n as int] == floor || values.contains(steps[n as int]),
    decreases n,
{
    if n > 0 {
        let k = n - 1;
        lemma_steps_rise(worse, floor, values, steps, at_most, k as nat);
        assert(call_ensures(worse, (steps[k], values[k]), steps[k + 1]));
        assert(at_most(steps[k], steps[n as int]));
        assert forall|i: int| 0 <= i < n implies at_most(#[trigger] values[i], steps[n as int]) by {
            if i < k {
                assert(at_most(values[i], steps[k]));
            }
        }
    }
}

/// The segments among reads that all brought one are those segments, in order.
pub proof fn law_segments_are_those_read<P>(reads: Seq<SegmentRead<P>>, i: int)
    requires
        0 <= i < reads.len(),
        reads[i] is Segment,
    ensures
        segments_of(reads).len() == reads.len(),
        reads[i] == SegmentRead::Segment(segments_of(reads)[i]),
{
}

/// Every read in front of the first gap brought a segment, and the one at the gap did not.
pub proof fn law_first_gap<P>(reads: Seq<SegmentRead<P>>)
    ensures
        first_gap(reads) <= reads.len(),
        forall|j: int| 0 <= j < first_gap(reads) ==> #[trigger] reads[j] is Segment,
        first_gap(reads) < reads.len() ==> !(reads[first_gap(reads) as int] is Segment),
    decreases reads.len(),
{
    if reads.len() > 0 && reads.first() is Segment {
        let rest = reads.drop_first();
        law_first_gap(rest);
        assert forall|j: int| 0 <= j < first_gap(reads) implies #[trigger] reads[j] is Segment by {
            if j > 0 {
                assert(rest[j - 1] is Segment);
            }
        }
    }
}

/// How tokens are sampled when decoding.
#[derive(Debug, Clone, Copy, PartialEq)]
pub enum SamplingStrategy<P> {
    /// Greedy sampling: picks the token with the highest probability after having seen `best_of`
    /// tokens.
    Greedy {
        /// How many candidates to look at.
        best_of: i32,
    },
    /// Beam search. Tends to be more accurate in exchange for more CPU time.
    BeamSearch {
        /// The maximum width of the beam.
        beam_size: i32,
        /// How patient the search is.
        patience: P,
    },
}

/// High-level transcription settings.
///
/// All defaults are Whisper's own defaults. Construct one, tweak the fields you care about, and
/// turn it into the parameters of a run with [`TranscriptionOptions::to_full_params`].
#[derive(Debug, Clone)]
pub struct TranscriptionOptions<P> {
    /// Force a source language (`"en"`, `"zh"`, `"auto"`, ...) instead of letting Whisper detect it.
    pub language: Option<String>,
    /// Translate the speech into English instead of transcribing it.
    ///
    /// Requires a multilingual model; requests against an English-only checkpoint fail with
    /// [`Error::TranslationUnsupported`].
    pub translate: bool,
    /// Sampling strategy used when decoding tokens.
    pub sampling: SamplingStrategy<P>,
    /// Emit progress lines while decoding.
    pub print_progress: bool,
    /// Emit special tokens (segment markers, `<|Novalidate|>`, etc.).
    pub print_special: bool,
    /// Do not reuse the previous window's text as context for the next one.
    ///
    /// Leave this off when transcribing one long recording. Turn it on when every call is an
    /// independent utterance, otherwise Whisper carries the tail of the previous sentence into the
    /// new one and both come out wrong.
    pub no_context: bool,
    /// Force the whole input into a single segment instead of splitting it on timestamps.
    ///
    /// Short utterances (a few seconds) often confuse Whisper's timestamp logic, which shows up as
    /// text being dropped or repeated. One segment is the right shape for a single utterance.
    pub single_segment: bool,
    /// Suppress tokens that the model considers non-speech.
    ///
    /// It needs token-level timestamps internally, which this option enables on its own.
    pub suppress_non_speech: bool,
    /// Probability above which a window is declared silence and produces no text.
    ///
    /// `None` keeps Whisper's default. Raise it to be stricter about what counts as speech; lower
    /// it if short, quiet utterances come back empty.
    pub no_speech_threshold: Option<P>,
    /// Number of threads to use. `None` lets whisper.cpp pick.
    pub n_threads: Option<i32>,
    /// Optional prompt prepended to the first window, useful for steering spelling and vocabulary.
    pub initial_prompt: Option<String>,
}

/// The parameters of one run of the model.
#[derive(Debug)]
pub struct FullParams<P> {
    /// How tokens are sampled.
    pub sampling: SamplingStrategy<P>,
    /// Translate into English.
    pub translate: bool,
    /// Emit progress lines.
    pub print_progress: bool,
    /// Emit special tokens.
    pub print_special: bool,
    /// The source language; `None` has it detected.
    pub language: Option<String>,
    /// Forget the text produced so far.
    pub no_context: bool,
    /// Produce a single segment.
    pub single_segment: bool,
    /// Switch token-level timestamps on.
    pub token_timestamps: bool,
    /// Switch the suppression of non-speech tokens on.
    pub suppress_nst: bool,
    /// The no-speech threshold; `None` keeps Whisper's own.
    pub no_speech_thold: Option<P>,
    /// The number of threads; `None` keeps Whisper's own.
    pub n_threads: Option<i32>,
    /// The initial prompt; `None` sets none.
    pub initial_prompt: Option<String>,
}

impl<P> TranscriptionOptions<P> {
    /// Greedy sampling of a single candidate, and nothing else switched on or set.
    pub open spec fn defaults() -> Self {
        TranscriptionOptions {
            language: None,
            translate: false,
            sampling: SamplingStrategy::Greedy { best_of: 1 },
            print_progress: false,
            print_special: false,
            no_context: false,
            single_segment: false,
            suppress_non_speech: false,
            no_speech_threshold: None,
            n_threads: None,
            initial_prompt: None,
        }
    }

    /// The parameters these options stand for. Suppressing non-speech tokens takes the per-token
    /// probabilities that come with token timestamps, so it switches on both.
    pub open spec fn full_params(self) -> FullParams<P> {
        FullParams {
            sampling: self.sampling,
            translate: self.translate,
            print_progress: self.print_progress,
            print_special: self.print_special,
            language: self.language,
            no_context: self.no_context,
            single_segment: self.single_segment,
            token_timestamps: self.suppress_non_speech,
            suppress_nst: self.suppress_non_speech,
            no_speech_thold: self.no_speech_threshold,
            n_threads: self.n_threads,
            initial_prompt: self.initial_prompt,
        }
    }

    /// Options with all defaults applied.
    pub fn new() -> (options: Self)
        ensures
            options == Self::defaults(),
            options.language is None,
            !options.translate,
            options.sampling == (SamplingStrategy::<P>::Greedy { best_of: 1 }),
            !options.print_progress,
            !options.print_special,
            !options.no_context,
            !options.single_segment,
            !options.suppress_non_speech,
            options.no_speech_threshold is None,
            options.n_threads is None,
            options.initial_prompt is None,
    {
        Self::default()
    }
}

impl<P> Default for TranscriptionOptions<P> {
    fn default() -> (options: Self)
        ensures
            options == Self::defaults(),
            options.language is None,
            !options.translate,
            options.sampling == (SamplingStrategy::<P>::Greedy { best_of: 1 }),
            !options.print_progress,
            !options.print_special,
            !options.no_context,
            !options.single_segment,
            !options.suppress_non_speech,
            options.no_speech_threshold is None,
            options.n_threads is None,
            options.initial_prompt is None,
    {
        TranscriptionOptions {
            language: None,
            translate: false,
            sampling: SamplingStrategy::Greedy { best_of: 1 },
            print_progress: false,
            print_special: false,
            no_context: false,
            single_segment: false,
            suppress_non_speech: false,
            no_speech_threshold: None,
            n_threads: None,
            initial_prompt: None,
        }
    }
}

/// A copy of an optional text.
fn copy_text(text: &Option<String>) -> (copy: Option<String>)
    ensures
        copy == *text,
{
    match text {
        Some(text) => Some(text.clone()),
        None => None,
    }
}

impl<P: Copy> TranscriptionOptions<P> {
    /// Builds the equivalent [`FullParams`].
    pub fn to_full_params(&self) -> (params: FullParams<P>)
        ensures
            params == self.full_params(),
            params.sampling == self.sampling,
            params.translate == self.translate,
            params.print_progress == self.print_progress,
            params.print_special == self.print_special,
            params.language == self.language,
            params.no_context == self.no_context,
            params.single_segment == self.single_segment,
            params.token_timestamps == self.suppress_non_speech,
            params.suppress_nst == self.suppress_non_speech,
            params.no_speech_thold == self.no_speech_threshold,
            params.n_threads == self.n_threads,
            params.initial_prompt == self.initial_prompt,
    {
        let mut params = FullParams {
            sampling: self.sampling,
            translate: self.translate,
            print_progress: self.print_progress,
            print_special: self.print_special,
            language: copy_text(&self.language),
            no_context: self.no_context,
            single_segment: self.single_segment,
            token_timestamps: false,
            suppress_nst: false,
            no_speech_thold: self.no_speech_threshold,
            n_threads: self.n_threads,
            initial_prompt: copy_text(&self.initial_prompt),
        };
        // whisper.cpp only has the per-token probabilities this needs when token timestamps are on.
        if self.suppress_non_speech {
            params.token_timestamps = true;
            params.suppress_nst = true;
        }
        params
    }
}

/// Every parameter of a run is the option of the same name; token timestamps and the suppression of
/// non-speech tokens go by whether non-speech is suppressed. Nothing else has a say in any of them.
pub proof fn law_options_govern_their_parameters<P>(options: TranscriptionOptions<P>)
    ensures
        options.full_params().sampling == options.sampling,
        options.full_params().translate == options.translate,
        options.full_params().print_progress == options.print_progress,
        options.full_params().print_special == options.print_special,
        options.full_params().language == options.language,
        options.full_params().no_context == options.no_context,
        options.full_params().single_segment == options.single_segment,
        options.full_params().token_timestamps == options.suppress_non_speech,
        options.full_params().suppress_nst == options.suppress_non_speech,
        options.full_params().no_speech_thold == options.no_speech_threshold,
        options.full_params().n_threads == options.n_threads,
        options.full_params().initial_prompt == options.initial_prompt,
{
}

/// Options that agree on what governs a parameter agree on that parameter, and those that differ
/// there differ in it, whatever else they say.
pub proof fn law_parameters_follow_their_option_alone<P>(
    a: TranscriptionOptions<P>,
    b: TranscriptionOptions<P>,
)
    ensures
        a.sampling == b.sampling <==> a.full_params().sampling == b.full_params().sampling,
        a.translate == b.translate <==> a.full_params().translate == b.full_params().translate,
        a.print_progress == b.print_progress <==> a.full_params().print_progress == b.full_params().print_progress,
        a.print_special == b.print_special <==> a.full_params().print_special == b.full_params().print_special,
        a.language == b.language <==> a.full_params().language == b.full_params().language,
        a.no_context == b.no_context <==> a.full_params().no_context == b.full_params().no_context,
        a.single_segment == b.single_segment <==> a.full_params().single_segment == b.full_params().single_segment,
        a.suppress_non_speech == b.suppress_non_speech <==> a.full_params().token_timestamps == b.full_params().token_timestamps,
        a.suppress_non_speech == b.suppress_non_speech <==> a.full_params().suppress_nst == b.full_params().suppress_nst,
        a.no_speech_threshold == b.no_speech_threshold <==> a.full_params().no_speech_thold == b.full_params().no_speech_thold,
        a.n_threads == b.n_threads <==> a.full_params().n_threads == b.full_params().n_threads,
        a.initial_prompt == b.initial_prompt <==> a.full_params().initial_prompt == b.full_params().initial_prompt,
{
}

/// The options to go by: those given, or the defaults.
pub open spec fn options_or_defaults<P>(
    options: Option<&TranscriptionOptions<P>>,
) -> TranscriptionOptions<P> {
    match options {
        Some(options) => *options,
        None => TranscriptionOptions::defaults(),
    }
}

/// Options that are given are gone by as they are, and the defaults switch nothing on.
pub proof fn law_given_options_are_gone_by<P>(options: Option<&TranscriptionOptions<P>>)
    ensures
        options matches Some(given) ==> options_or_defaults(options) == *given,
        options is None ==> ({
            let defaults = options_or_defaults(options);
            &&& defaults.language is None
            &&& !defaults.translate
            &&& defaults.sampling == (SamplingStrategy::<P>::Greedy { best_of: 1 })
            &&& !defaults.print_progress
            &&& !defaults.print_special
            &&& !defaults.no_context
            &&& !defaults.single_segment
            &&& !defaults.suppress_non_speech
            &&& defaults.no_speech_threshold is None
            &&& defaults.n_threads is None
            &&& defaults.initial_prompt is None
        }),
{
}

/// Whether there is anything to transcribe.
///
/// # Errors
///
/// Returns [`Error::EmptyAudio`] when there is no sample.
pub fn check_samples(samples: usize) -> (checked: Result<()>)
    ensures
        samples == 0 ==> (checked matches Err(Error::EmptyAudio)),
        samples > 0 ==> checked is Ok,
{
    if samples == 0 {
        Err(Error::EmptyAudio)
    } else {
        Ok(())
    }
}

/// Prepares the transcription of this many samples by a model that is `multilingual` or not.
///
/// `options` may be `None` to use [`TranscriptionOptions::default`].
///
/// # Errors
///
/// Returns [`Error::EmptyAudio`] when there is no sample, and [`Error::TranslationUnsupported`]
/// when translation is requested for an English-only model.
pub fn prepare<P: Copy>(
    samples: usize,
    options: Option<&TranscriptionOptions<P>>,
    multilingual: bool,
) -> (params: Result<FullParams<P>>)
    ensures
        if samples == 0 {
            params matches Err(Error::EmptyAudio)
        } else if options_or_defaults(options).translate && !multilingual {
            params matches Err(Error::TranslationUnsupported)
        } else {
            params matches Ok(prepared) && prepared == options_or_defaults(options).full_params()
        },
        samples == 0 ==> (params matches Err(Error::EmptyAudio)),
        samples > 0 && params is Err ==> (params matches Err(Error::TranslationUnsupported)),
        params is Ok <==> samples > 0 && (multilingual || (options matches Some(given)
            ==> !given.translate)),
        params matches Ok(prepared) ==> match options {
            Some(given) => {
                &&& prepared.sampling == given.sampling
                &&& prepared.translate == given.translate
                &&& prepared.print_progress == given.print_progress
                &&& prepared.print_special == given.print_special
                &&& prepared.language == given.language
                &&& prepared.no_context == given.no_context
                &&& prepared.single_segment == given.single_segment
                &&& prepared.token_timestamps == given.suppress_non_speech
                &&& prepared.suppress_nst == given.suppress_non_speech
                &&& prepared.no_speech_thold == given.no_speech_threshold
                &&& prepared.n_threads == given.n_threads
                &&& prepared.initial_prompt == given.initial_prompt
            },
            None => {
                &&& prepared.sampling == (SamplingStrategy::<P>::Greedy { best_of: 1 })
                &&& !prepared.translate
                &&& !prepared.print_progress
                &&& !prepared.print_special
                &&& prepared.language is None
                &&& !prepared.no_context
                &&& !prepared.single_segment
                &&& !prepared.token_timestamps
                &&& !prepared.suppress_nst
                &&& prepared.no_speech_thold is None
                &&& prepared.n_threads is None
                &&& prepared.initial_prompt is None
            },
        },
{
    match check_samples(samples) {
        Ok(_) => {},
        Err(error) => {
            return Err(error);
        },
    }
    let default_options = TranscriptionOptions::default();
    let options = match options {
        Some(options) => options,
        None => &default_options,
    };
    if options.translate && !multilingual {
        return Err(Error::TranslationUnsupported);
    }
    Ok(options.to_full_params())
}

/// Reports the allocation of the state a transcription runs in, whatever the reason it failed for.
///
/// # Errors
///
/// Returns [`Error::Whisper`] if the state could not be allocated.
pub fn create_state<T, E>(outcome: std::result::Result<T, E>) -> (state: Result<T>)
    ensures
        match outcome {
            Ok(created) => state == Ok::<T, Error>(created),
            Err(_) => state matches Err(Error::Whisper(WhisperFailure::FailedToCreateState)),
        },
{
    match outcome {
        Ok(created) => Ok(created),
        Err(_) => Err(Error::Whisper(WhisperFailure::FailedToCreateState)),
    }
}

} // verus!
