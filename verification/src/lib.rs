//! The decisions behind simple speech-to-text with Whisper.
//!
//! Three things make whisper.cpp fiddly: getting a model onto disk, getting audio into the shape
//! Whisper expects, and reading results back out. This crate holds what has to be decided along
//! the way, with a proof of each contract; the network, the disk, the codecs and the model itself
//! are left to the program around it.
//!
//! # Architecture
//!
//! | Module | Responsibility |
//! |---|---|
//! | [`model`] | Catalogue of every Whisper checkpoint. Pure data. |
//! | [`names`] | What holds of model names: how tolerant their resolution is. |
//! | [`downloads`] | What holds of downloads, from start to finish. |
//! | [`store`] | Where a model lives on disk, and how to fetch it. |
//! | [`audio`] | Turning decoded media files into mono 16 kHz, what Whisper is trained on. |
//! | [`transcriber`] | Preparing a run of the model and reading back what it produced. |
//! | [`error`] | The one error type every fallible call returns. |
//! | [`handler`], [`model_handler`] | Stores for callers that have a model name. |
//! | [`path`], [`text`] | Paths and text, which the rest is written in. |
//!
//! # Supported models
//!
//! All twelve checkpoints are available:
//! `tiny`, `tiny.en`, `base`, `base.en`, `small`, `small.en`, `medium`, `medium.en`,
//! `large-v1`, `large-v2`, `large-v3`, and `large-v3-turbo`. See [`WhisperModel`].

pub mod audio;
pub mod downloads;
pub mod error;
pub mod handler;
pub mod model;
pub mod model_handler;
pub mod names;
pub mod path;
pub mod store;
pub mod text;
pub mod transcriber;

pub use error::{Error, Result};
pub use model::{ModelSource, WhisperModel, WHISPER_MODELS, WHISPER_SAMPLE_RATE};
pub use store::ModelStore;
pub use transcriber::{Segment, TranscriberOutput, TranscriptionOptions};
