use whisper_stt::error::WhisperFailure;
use whisper_stt::transcriber::{
    check_samples, create_state, prepare, SamplingStrategy, SegmentRead,
};
use whisper_stt::{Error, Segment, TranscriberOutput, TranscriptionOptions};

fn segment(start: i64, end: i64, text: &str, probability: f32) -> Segment<f32> {
    Segment {
        start_timestamp: start,
        end_timestamp: end,
        text: text.into(),
        no_speech_probability: probability,
    }
}

/// The highest no-speech probability, the way single-precision numbers are compared.
fn no_speech(output: &TranscriberOutput<f32>) -> f32 {
    output.no_speech_probability(1.0, 0.0, f32::max)
}

#[test]
fn default_options_disable_extras() {
    let options = TranscriptionOptions::<f32>::default();
    assert!(!options.translate);
    assert!(!options.print_progress);
    assert!(options.language.is_none());
    assert!(matches!(
        options.sampling,
        SamplingStrategy::Greedy { best_of: 1 }
    ));
}

#[test]
fn options_convert_to_full_params() {
    let options = TranscriptionOptions::<f32> {
        language: Some("zh".into()),
        translate: true,
        print_progress: true,
        n_threads: Some(4),
        ..TranscriptionOptions::default()
    };
    let params = options.to_full_params();
    assert_eq!(params.language.as_deref(), Some("zh"));
    assert!(params.translate);
    assert!(params.print_progress);
    assert_eq!(params.n_threads, Some(4));
    assert_eq!(params.sampling, SamplingStrategy::Greedy { best_of: 1 });
    assert!(!params.print_special);
    assert!(!params.token_timestamps);
    assert!(!params.suppress_nst);
    assert_eq!(params.no_speech_thold, None);
    assert_eq!(params.initial_prompt, None);
}

#[test]
fn suppressing_non_speech_switches_on_token_timestamps() {
    let options = TranscriptionOptions::<f32> {
        suppress_non_speech: true,
        no_context: true,
        single_segment: true,
        no_speech_threshold: Some(0.6),
        initial_prompt: Some("Names: Ada.".into()),
        sampling: SamplingStrategy::BeamSearch {
            beam_size: 5,
            patience: -1.0,
        },
        ..TranscriptionOptions::new()
    };
    let params = options.to_full_params();
    assert!(params.token_timestamps);
    assert!(params.suppress_nst);
    assert!(params.no_context);
    assert!(params.single_segment);
    assert_eq!(params.no_speech_thold, Some(0.6));
    assert_eq!(params.initial_prompt.as_deref(), Some("Names: Ada."));
    assert_eq!(
        params.sampling,
        SamplingStrategy::BeamSearch {
            beam_size: 5,
            patience: -1.0
        }
    );
}

#[test]
fn segments_expose_milliseconds() {
    let segment = Segment {
        start_timestamp: 0,
        end_timestamp: 320,
        text: " hello".into(),
        no_speech_probability: 0.1f32,
    };
    assert_eq!(segment.start_ms(), 0);
    assert_eq!(segment.end_ms(), 3_200);
}

#[test]
fn output_aggregates_timestamps() {
    let output = TranscriberOutput::from_segments(vec![
        segment(0, 100, " a", 0.05),
        segment(100, 250, " b", 0.42),
    ]);

    // Timestamps span the whole transcript rather than only the last segment.
    assert_eq!(output.start_timestamp(), 0);
    assert_eq!(output.end_timestamp(), 250);
    assert_eq!(output.duration_ms(), 2_500);
    assert_eq!(output.len(), 2);
    assert!(!output.is_empty());
    assert_eq!(output.text(), " a b");
    // The reported probability is the worst segment's, not an average.
    assert!((no_speech(&output) - 0.42).abs() < f32::EPSILON);
}

#[test]
fn empty_output_is_consistent() {
    let output = TranscriberOutput::<f32>::from_segments(Vec::new());
    assert!(output.is_empty());
    assert_eq!(output.duration_ms(), 0);
    assert_eq!(output.segments().len(), 0);
    assert_eq!(output.text(), "");
    // Nothing decoded at all is as silent as it gets.
    assert_eq!(no_speech(&output), 1.0);
}

#[test]
fn the_worst_segment_need_not_be_the_last() {
    let output = TranscriberOutput::from_segments(vec![
        segment(5, 10, "x", 0.9),
        segment(10, 20, "y", 0.2),
    ]);
    assert_eq!(no_speech(&output), 0.9);
    assert_eq!(output.start_timestamp(), 5);
    assert_eq!(output.duration_ms(), 150);
}

#[test]
fn collecting_keeps_the_order_of_segments() {
    let output = TranscriberOutput::collect(vec![
        SegmentRead::Segment(segment(0, 100, " one", 0.1)),
        SegmentRead::Segment(segment(100, 300, " two", 0.2)),
    ])
    .unwrap();
    assert_eq!(output.text, " one two");
    assert_eq!(output.segments[1].text, " two");
    assert_eq!(output.end_timestamp(), 300);
    assert!(TranscriberOutput::<f32>::collect(Vec::new())
        .unwrap()
        .is_empty());
}

#[test]
fn collecting_stops_at_the_first_gap() {
    let missing = TranscriberOutput::collect(vec![
        SegmentRead::Segment(segment(0, 100, " one", 0.1)),
        SegmentRead::Missing,
        SegmentRead::Unreadable(WhisperFailure::Reported("later".into())),
    ])
    .unwrap_err();
    assert!(matches!(
        missing,
        Error::Whisper(WhisperFailure::NullPointer)
    ));

    let unreadable = TranscriberOutput::<f32>::collect(vec![
        SegmentRead::Unreadable(WhisperFailure::Reported("first".into())),
        SegmentRead::Missing,
    ])
    .unwrap_err();
    assert!(matches!(
        unreadable,
        Error::Whisper(WhisperFailure::Reported(reason)) if reason == "first"
    ));
}

#[test]
fn requests_are_checked_before_they_run() {
    let translate = TranscriptionOptions::<f32> {
        translate: true,
        ..TranscriptionOptions::default()
    };
    // Empty audio is reported first.
    assert!(matches!(
        prepare(0, Some(&translate), false),
        Err(Error::EmptyAudio)
    ));
    assert!(matches!(
        prepare(1, Some(&translate), false),
        Err(Error::TranslationUnsupported)
    ));
    assert!(prepare(1, Some(&translate), true).unwrap().translate);
    let defaults = prepare::<f32>(16_000, None, false).unwrap();
    assert!(!defaults.translate);
    assert_eq!(defaults.sampling, SamplingStrategy::Greedy { best_of: 1 });
    assert!(matches!(check_samples(0), Err(Error::EmptyAudio)));
    assert!(check_samples(1).is_ok());
}

#[test]
fn a_state_that_cannot_be_allocated_is_reported() {
    assert_eq!(create_state::<u8, String>(Ok(7)).unwrap(), 7);
    assert!(matches!(
        create_state::<u8, String>(Err("out of memory".into())),
        Err(Error::Whisper(WhisperFailure::FailedToCreateState))
    ));
}

#[test]
fn transcripts_concatenate() {
    let first = vec![segment(0, 100, " one", 0.1), segment(100, 200, " two", 0.1)];
    let second = vec![segment(200, 300, " three", 0.1)];
    let whole: Vec<Segment<f32>> = first.iter().chain(second.iter()).cloned().collect();
    let text = TranscriberOutput::from_segments(whole).text;
    assert_eq!(text, " one two three");
    assert_eq!(
        text,
        TranscriberOutput::from_segments(first).text
            + &TranscriberOutput::from_segments(second).text
    );
}
