//! Crate-wide error type.
//!
//! Every fallible operation in this crate returns [`Result<T>`], i.e.
//! `std::result::Result<T, ` [`Error`] `>`.

use vstd::prelude::*;

use crate::text;

verus! {

/// Convenience alias for a result carrying this crate's [`Error`].
pub type Result<T> = std::result::Result<T, Error>;

/// Errors returned by this crate.
#[derive(Debug)]
#[non_exhaustive]
pub enum Error {
    /// A model alias or file name does not match any known Whisper checkpoint.
    UnknownModel(String),
    /// The model file could not be found on disk, at this path.
    ModelNotFound(String),
    /// Downloading a model from the model repository failed, for the reason given.
    Download(String),
    /// The model repository answered with a non-success HTTP status.
    UnexpectedStatus {
        /// The URL that was requested.
        url: String,
        /// HTTP status returned by the server.
        status: u16,
    },
    /// Whisper returned an error while loading a model or running transcription.
    Whisper(WhisperFailure),
    /// Reading, writing, creating directories, etc. failed, for the reason given.
    Io(String),
    /// The audio file could not be opened, probed, or read.
    Audio(String),
    /// The media file contains no playable audio track.
    NoAudioTrack,
    /// The audio file decoded to zero samples.
    EmptyAudio,
    /// Converting audio to the sample rate Whisper needs failed.
    Resample(String),
    /// Translation to English was requested but the loaded model is English-only.
    TranslationUnsupported,
}

/// What went wrong inside Whisper.
#[derive(Debug)]
pub enum WhisperFailure {
    /// The state a transcription runs in could not be allocated.
    FailedToCreateState,
    /// Whisper handed out nothing where a result was due.
    NullPointer,
    /// Any other failure, as Whisper describes it.
    Reported(String),
}

impl WhisperFailure {
    /// The description of this failure.
    pub open spec fn text(self) -> Seq<char> {
        match self {
            WhisperFailure::FailedToCreateState => "Creating a state pointer failed."@,
            WhisperFailure::NullPointer => "Whisper returned a null pointer."@,
            WhisperFailure::Reported(reason) => reason@,
        }
    }

    /// Describes this failure.
    pub fn message(&self) -> (message: &str)
        ensures
            message@ == self.text(),
            *self matches WhisperFailure::Reported(reason) ==> message@ == reason@,
            self is FailedToCreateState ==> message@ == "Creating a state pointer failed."@,
            self is NullPointer ==> message@ == "Whisper returned a null pointer."@,
    {
        match self {
            WhisperFailure::FailedToCreateState => "Creating a state pointer failed.",
            WhisperFailure::NullPointer => "Whisper returned a null pointer.",
            WhisperFailure::Reported(reason) => reason.as_str(),
        }
    }
}

impl Error {
    /// The one-line description of this error.
    pub open spec fn text(self) -> Seq<char> {
        match self {
            Error::UnknownModel(name) => "unknown whisper model '"@ + name@ + "'"@,
            Error::ModelNotFound(path) => "model file not found at "@ + path@,
            Error::Download(reason) => "model download failed: "@ + reason@,
            Error::UnexpectedStatus { url, status } => "request to "@ + url@
                + " failed with status "@ + text::decimal(status as nat),
            Error::Whisper(failure) => "whisper error: "@ + failure.text(),
            Error::Io(reason) => "io error: "@ + reason@,
            Error::Audio(reason) => "audio decoding failed: "@ + reason@,
            Error::NoAudioTrack => "the media file has no audio track"@,
            Error::EmptyAudio => "the audio file decoded to zero samples"@,
            Error::Resample(reason) => "resampling failed: "@ + reason@,
            Error::TranslationUnsupported =>
                "translation requires a multilingual model, the loaded model is English-only"@,
        }
    }

    /// The description of the failure underneath this error, if there is one.
    pub open spec fn source_text(self) -> Option<Seq<char>> {
        match self {
            Error::Download(reason) => Some(reason@),
            Error::Whisper(failure) => Some(failure.text()),
            Error::Io(reason) => Some(reason@),
            _ => None,
        }
    }

    /// Describes this error in one line.
    pub fn message(&self) -> (message: String)
        ensures
            message@ == self.text(),
            match *self {
                Error::UnknownModel(name) => message@ == "unknown whisper model '"@ + name@ + "'"@,
                Error::ModelNotFound(path) => message@ == "model file not found at "@ + path@,
                Error::Download(reason) => message@ == "model download failed: "@ + reason@,
                Error::UnexpectedStatus { url, status } => message@ == "request to "@ + url@
                    + " failed with status "@ + text::decimal(status as nat),
                Error::Whisper(WhisperFailure::FailedToCreateState) => message@
                    == "whisper error: "@ + "Creating a state pointer failed."@,
                Error::Whisper(WhisperFailure::NullPointer) => message@
                    == "whisper error: "@ + "Whisper returned a null pointer."@,
                Error::Whisper(WhisperFailure::Reported(reason)) => message@ == "whisper error: "@ + reason@,
                Error::Io(reason) => message@ == "io error: "@ + reason@,
                Error::Audio(reason) => message@ == "audio decoding failed: "@ + reason@,
                Error::NoAudioTrack => message@ == "the media file has no audio track"@,
                Error::EmptyAudio => message@ == "the audio file decoded to zero samples"@,
                Error::Resample(reason) => message@ == "resampling failed: "@ + reason@,
                Error::TranslationUnsupported => message@
                    == "translation requires a multilingual model, the loaded model is English-only"@,
            },
    {
        match self {
            Error::UnknownModel(name) => text::concat3("unknown whisper model '", name.as_str(), "'"),
            Error::ModelNotFound(path) => text::concat2("model file not found at ", path.as_str()),
            Error::Download(reason) => text::concat2("model download failed: ", reason.as_str()),
            Error::UnexpectedStatus { url, status } => {
                let request = text::concat3("request to ", url.as_str(), " failed with status ");
                text::concat2(request.as_str(), text::to_decimal(*status as u32).as_str())
            },
            Error::Whisper(failure) => text::concat2("whisper error: ", failure.message()),
            Error::Io(reason) => text::concat2("io error: ", reason.as_str()),
            Error::Audio(reason) => text::concat2("audio decoding failed: ", reason.as_str()),
            Error::NoAudioTrack => "the media file has no audio track".to_owned(),
            Error::EmptyAudio => "the audio file decoded to zero samples".to_owned(),
            Error::Resample(reason) => text::concat2("resampling failed: ", reason.as_str()),
            Error::TranslationUnsupported =>
                "translation requires a multilingual model, the loaded model is English-only".to_owned(),
        }
    }

    /// The description of the failure underneath this error, when something outside this crate
    /// failed first.
    pub fn source(&self) -> (source: Option<&str>)
        ensures
            source is Some == self.source_text() is Some,
            source matches Some(reason) ==> reason@ == self.source_text()->0,
            match *self {
                Error::Download(reason) => source matches Some(found) && found@ == reason@,
                Error::Whisper(failure) => source matches Some(found) && found@ == match failure {
                    WhisperFailure::FailedToCreateState => "Creating a state pointer failed."@,
                    WhisperFailure::NullPointer => "Whisper returned a null pointer."@,
                    WhisperFailure::Reported(reason) => reason@,
                },
                Error::Io(reason) => source matches Some(found) && found@ == reason@,
                _ => source is None,
            },
    {
        match self {
            Error::Download(reason) => Some(reason.as_str()),
            Error::Whisper(failure) => Some(failure.message()),
            Error::Io(reason) => Some(reason.as_str()),
            _ => None,
        }
    }
}

/// The message of an error names what failed, as it is: the name, the path, the URL and the status in
/// decimal, or the reason.
pub proof fn law_messages_name_what_failed(error: Error)
    ensures
        match error {
            Error::UnknownModel(name) => error.text() == "unknown whisper model '"@ + name@ + "'"@,
            Error::ModelNotFound(path) => error.text() == "model file not found at "@ + path@,
            Error::Download(reason) => error.text() == "model download failed: "@ + reason@,
            Error::UnexpectedStatus { url, status } => error.text() == "request to "@ + url@
                + " failed with status "@ + text::decimal(status as nat),
            Error::Whisper(WhisperFailure::FailedToCreateState) => error.text()
                == "whisper error: "@ + "Creating a state pointer failed."@,
            Error::Whisper(WhisperFailure::NullPointer) => error.text()
                == "whisper error: "@ + "Whisper returned a null pointer."@,
            Error::Whisper(WhisperFailure::Reported(reason)) => error.text() == "whisper error: "@ + reason@,
            Error::Io(reason) => error.text() == "io error: "@ + reason@,
            Error::Audio(reason) => error.text() == "audio decoding failed: "@ + reason@,
            Error::NoAudioTrack => error.text() == "the media file has no audio track"@,
            Error::EmptyAudio => error.text() == "the audio file decoded to zero samples"@,
            Error::Resample(reason) => error.text() == "resampling failed: "@ + reason@,
            Error::TranslationUnsupported => error.text()
                == "translation requires a multilingual model, the loaded model is English-only"@,
        },
{
}

/// What failed underneath is the reason of a failed download, of failed I/O, or of a failure inside
/// Whisper, and there is nothing underneath any other error.
pub proof fn law_sources_are_the_failures_underneath(error: Error)
    ensures
        match error {
            Error::Download(reason) => error.source_text() matches Some(found) && found == reason@,
            Error::Whisper(failure) => error.source_text() matches Some(found) && found == match failure {
                WhisperFailure::FailedToCreateState => "Creating a state pointer failed."@,
                WhisperFailure::NullPointer => "Whisper returned a null pointer."@,
                WhisperFailure::Reported(reason) => reason@,
            },
            Error::Io(reason) => error.source_text() matches Some(found) && found == reason@,
            _ => error.source_text() is None,
        },
{
}

/// The message of an error that comes of another failure ends in the description of that failure.
pub proof fn law_messages_end_in_their_source(error: Error)
    ensures
        error.source_text() matches Some(reason) ==> reason.is_suffix_of(error.text()),
{
    if let Some(reason) = error.source_text() {
        let whole = error.text();
        assert(whole.subrange(whole.len() - reason.len(), whole.len() as int) =~= reason);
    }
}

} // verus!
