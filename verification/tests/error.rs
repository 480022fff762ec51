use whisper_stt::error::WhisperFailure;
use whisper_stt::Error;

#[test]
fn messages_name_what_failed() {
    let cases = [
        (
            Error::UnknownModel("nope".into()),
            "unknown whisper model 'nope'",
        ),
        (
            Error::ModelNotFound("/tmp/x.bin".into()),
            "model file not found at /tmp/x.bin",
        ),
        (
            Error::Download("timed out".into()),
            "model download failed: timed out",
        ),
        (
            Error::UnexpectedStatus {
                url: "https://example.com/a".into(),
                status: 404,
            },
            "request to https://example.com/a failed with status 404",
        ),
        (
            Error::Whisper(WhisperFailure::NullPointer),
            "whisper error: Whisper returned a null pointer.",
        ),
        (
            Error::Whisper(WhisperFailure::FailedToCreateState),
            "whisper error: Creating a state pointer failed.",
        ),
        (
            Error::Whisper(WhisperFailure::Reported("Invalid thread count.".into())),
            "whisper error: Invalid thread count.",
        ),
        (Error::Io("disk full".into()), "io error: disk full"),
        (
            Error::Audio("cannot open x".into()),
            "audio decoding failed: cannot open x",
        ),
        (Error::NoAudioTrack, "the media file has no audio track"),
        (
            Error::EmptyAudio,
            "the audio file decoded to zero samples",
        ),
        (
            Error::Resample("8 Hz -> 9 Hz: no".into()),
            "resampling failed: 8 Hz -> 9 Hz: no",
        ),
        (
            Error::TranslationUnsupported,
            "translation requires a multilingual model, the loaded model is English-only",
        ),
    ];
    for (error, message) in cases {
        assert_eq!(error.message(), message);
    }
}

#[test]
fn only_failures_underneath_are_sources() {
    assert_eq!(Error::Download("timed out".into()).source(), Some("timed out"));
    assert_eq!(Error::Io("disk full".into()).source(), Some("disk full"));
    assert_eq!(
        Error::Whisper(WhisperFailure::NullPointer).source(),
        Some("Whisper returned a null pointer.")
    );
    assert_eq!(Error::NoAudioTrack.source(), None);
    assert_eq!(Error::Audio("cannot open x".into()).source(), None);
    assert_eq!(Error::UnknownModel("nope".into()).source(), None);
}

#[test]
fn messages_end_in_their_source() {
    for error in [
        Error::Download("timed out".into()),
        Error::Io("disk full".into()),
        Error::Whisper(WhisperFailure::FailedToCreateState),
        Error::Whisper(WhisperFailure::Reported("out of memory".into())),
    ] {
        assert!(error.message().ends_with(error.source().unwrap()));
    }
}
