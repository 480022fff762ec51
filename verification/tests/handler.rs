use std::path::PathBuf;

use whisper_stt::handler::ModelHandler;
use whisper_stt::model_handler;
use whisper_stt::{Error, ModelStore, WhisperModel};

const MODEL_DIR: &str = "test_models/";

#[test]
fn name_resolution_matches_the_catalogue() {
    for model in WhisperModel::all() {
        let store = ModelStore::from_name(model.id(), MODEL_DIR).unwrap();
        assert_eq!(
            PathBuf::from(store.path()),
            PathBuf::from(MODEL_DIR).join(model.file_name()),
            "unexpected path for {}",
            model.id()
        );
    }
}

#[test]
fn unknown_names_are_rejected() {
    let err = ModelStore::from_name("nope", MODEL_DIR).unwrap_err();
    assert!(matches!(err, Error::UnknownModel(name) if name == "nope"));
    let err = ModelHandler::resolve("nope", MODEL_DIR).unwrap_err();
    assert!(matches!(err, Error::UnknownModel(name) if name == "nope"));
}

#[test]
fn handler_exposes_the_store_path() {
    let handler = ModelHandler::resolve("Tiny", MODEL_DIR).unwrap();
    assert_eq!(handler.get_model_dir(), format!("{MODEL_DIR}ggml-tiny.bin"));
    assert_eq!(handler.model(), WhisperModel::Tiny);
    assert_eq!(
        PathBuf::from(handler.path()),
        PathBuf::from(format!("{MODEL_DIR}ggml-tiny.bin"))
    );
    assert_eq!(handler.as_ref(), handler.store().as_ref());
}

#[test]
fn legacy_large_alias_still_means_large_v3() {
    let handler = ModelHandler::resolve("large", MODEL_DIR).unwrap();
    assert_eq!(handler.model(), WhisperModel::LargeV3);
    assert_eq!(
        handler.get_model_dir(),
        format!("{MODEL_DIR}ggml-large-v3.bin")
    );
}

#[test]
fn sizes_resolve_whatever_their_case_and_padding() {
    let handler = model_handler::ModelHandler::resolve(" LARGE\n", "models").unwrap();
    assert_eq!(handler.get_model_dir(), "models/ggml-large-v3.bin");
    assert_eq!(
        handler.download_url(),
        WhisperModel::LargeV3.download_url()
    );
    // The directory is followed by a separator of its own.
    let tiny = model_handler::ModelHandler::resolve("tiny", MODEL_DIR).unwrap();
    assert_eq!(tiny.get_model_dir(), "test_models//ggml-tiny.bin");
}

#[test]
fn sizes_agree_with_the_catalogue() {
    for size in ["tiny", "base", "small", "medium", "large"] {
        let model = WhisperModel::from_name(size).unwrap();
        assert_eq!(
            model_handler::ModelHandler::stem_for(size),
            Some(model.file_stem())
        );
    }
    assert_eq!(model_handler::ModelHandler::stem_for("Tiny"), None);
    assert_eq!(model_handler::ModelHandler::stem_for("tiny.en"), None);
}

#[test]
fn unknown_sizes_are_reported() {
    let message = model_handler::ModelHandler::resolve("Huge", "models").unwrap_err();
    assert_eq!(message, "Model 'ggml-Huge' not found");
    // A letter that only Unicode lower-cases is lower-cased all the same.
    let message = model_handler::ModelHandler::resolve("\u{c9}", "models").unwrap_err();
    assert_eq!(message, "Model 'ggml-\u{c9}' not found");
}

#[test]
fn only_missing_checkpoints_are_fetched() {
    let handler = model_handler::ModelHandler::resolve("Small", "models").unwrap();
    assert!(handler.prepare(true).is_none());
    let fetch = handler.prepare(false).unwrap();
    assert_eq!(fetch.dir, "models");
    assert_eq!(fetch.path, "models/ggml-small.bin");
    assert_eq!(fetch.url, WhisperModel::Small.download_url());
}
