use std::path::PathBuf;

use whisper_stt::store::{
    temp_path_for, Download, DownloadAction, DownloadEvent, EnsureStep, Progress,
};
use whisper_stt::{Error, ModelStore, WhisperModel};

/// The fraction as a number, the way a progress bar wants it.
fn as_number(fraction: Option<(u64, u64)>) -> Option<f32> {
    fraction.map(|(done, total)| done as f32 / total as f32)
}

#[test]
fn pretrained_paths_land_in_the_models_dir() {
    let store = ModelStore::pretrained(WhisperModel::Base, "models");
    assert_eq!(store.dir(), "models");
    assert_eq!(
        PathBuf::from(store.path()),
        PathBuf::from("models/ggml-base.bin")
    );
    assert_eq!(store.path(), "models/ggml-base.bin");
}

#[test]
fn from_name_resolves_every_checkpoint() {
    for model in WhisperModel::all() {
        let store = ModelStore::from_name(model.id(), "models").unwrap();
        assert_eq!(
            PathBuf::from(store.path()),
            PathBuf::from("models").join(model.file_name())
        );
    }
}

#[test]
fn unknown_names_are_reported() {
    let err = ModelStore::from_name("nope", "models").unwrap_err();
    assert!(matches!(err, Error::UnknownModel(name) if name == "nope"));
}

#[test]
fn file_sources_are_absolute_paths() {
    let store = ModelStore::file("/tmp/ggml-custom.bin", "models");
    assert_eq!(
        PathBuf::from(store.path()),
        PathBuf::from("/tmp/ggml-custom.bin")
    );
}

#[test]
fn temp_path_appends_part() {
    let destination = "models/ggml-tiny.bin";
    assert_eq!(
        PathBuf::from(temp_path_for(destination)),
        PathBuf::from("models/ggml-tiny.bin.part")
    );
    assert_eq!(temp_path_for(destination), "models/ggml-tiny.bin.part");
}

#[test]
fn local_files_are_not_downloaded() {
    // A local source has no download URL, so `download` must refuse rather than hit the network.
    let store = ModelStore::file("/tmp/does-not-exist.bin", "models");
    assert!(store.source().download_url().is_none());
    assert!(!store.exists_on_disk());
    assert!(matches!(
        store.download(),
        Err(Error::ModelNotFound(path)) if path == "/tmp/does-not-exist.bin"
    ));
}

#[test]
fn progress_fraction_is_clamped_and_total_aware() {
    let known = Progress {
        written: 500,
        total: Some(1_000),
    };
    assert_eq!(as_number(known.fraction()), Some(0.5));

    // A server that omits Content-Length leaves the fraction unknown rather than zero.
    let unknown = Progress {
        written: 500,
        total: None,
    };
    assert_eq!(as_number(unknown.fraction()), None);

    let empty = Progress {
        written: 0,
        total: Some(0),
    };
    assert_eq!(as_number(empty.fraction()), None);
}

#[test]
fn progress_never_exceeds_the_whole() {
    let past_the_end = Progress {
        written: 1_500,
        total: Some(1_000),
    };
    assert_eq!(past_the_end.fraction(), Some((1_000, 1_000)));
    assert_eq!(as_number(past_the_end.fraction()), Some(1.0));
}

#[test]
fn files_in_a_directory_need_not_be_in_the_catalogue() {
    let store = ModelStore::from_file_in_dir("ggml-tiny-q5_1.bin", "models/");
    assert_eq!(store.path(), "models/ggml-tiny-q5_1.bin");
    assert_eq!(store.dir(), "models/");
    assert_eq!(store.source().file_stem(), "ggml-tiny-q5_1");
    assert_eq!(store.as_ref(), "models/ggml-tiny-q5_1.bin");
}

#[test]
fn a_present_file_exists_on_disk() {
    // The test binary itself is a regular file; its directory is not.
    let binary = std::path::Path::new("/proc/self/exe");
    let store = ModelStore::file(binary.to_str().unwrap(), "models");
    assert_eq!(store.exists_on_disk(), binary.is_file());
    assert!(!ModelStore::file("/", "models").exists_on_disk());
}

#[test]
fn ensure_uses_what_is_there() {
    let store = ModelStore::pretrained(WhisperModel::Tiny, "models");
    assert!(matches!(
        store.ensure(true),
        Ok(EnsureStep::Ready(path)) if path == "models/ggml-tiny.bin"
    ));
    assert!(matches!(store.ensure(false), Ok(EnsureStep::Fetch(_))));

    let local = ModelStore::file("/tmp/custom.bin", "models");
    assert!(matches!(
        local.ensure(true),
        Ok(EnsureStep::Ready(path)) if path == "/tmp/custom.bin"
    ));
    assert!(matches!(
        local.ensure(false),
        Err(Error::ModelNotFound(path)) if path == "/tmp/custom.bin"
    ));
}

fn tiny_download() -> Download {
    ModelStore::pretrained(WhisperModel::Tiny, "models")
        .download()
        .unwrap()
}

#[test]
fn a_download_is_staged_and_then_published() {
    let mut download = tiny_download();
    assert!(matches!(download.first(), DownloadAction::CreateDir(dir) if dir == "models"));
    assert!(matches!(
        download.step(DownloadEvent::Done),
        DownloadAction::Request(url)
            if url == "https://huggingface.co/ggerganov/whisper.cpp/resolve/main/ggml-tiny.bin"
    ));
    assert!(matches!(
        download.step(DownloadEvent::Response { status: 200, total: Some(30) }),
        DownloadAction::CreateFile(path) if path == "models/ggml-tiny.bin.part"
    ));
    assert!(matches!(
        download.step(DownloadEvent::Done),
        DownloadAction::ReadChunk
    ));
    let mut reported = Vec::new();
    for len in [10u64, 20] {
        assert!(matches!(
            download.step(DownloadEvent::Chunk(len)),
            DownloadAction::Append(path) if path == "models/ggml-tiny.bin.part"
        ));
        match download.step(DownloadEvent::Done) {
            DownloadAction::Report(progress) => reported.push(progress),
            other => panic!("unexpected action {other:?}"),
        }
        assert!(matches!(
            download.step(DownloadEvent::Done),
            DownloadAction::ReadChunk
        ));
    }
    assert_eq!(
        reported,
        vec![
            Progress {
                written: 10,
                total: Some(30)
            },
            Progress {
                written: 30,
                total: Some(30)
            },
        ]
    );
    assert_eq!(
        download.progress(),
        Progress {
            written: 30,
            total: Some(30)
        }
    );
    assert!(matches!(
        download.step(DownloadEvent::EndOfBody),
        DownloadAction::Publish { from, to }
            if from == "models/ggml-tiny.bin.part" && to == "models/ggml-tiny.bin"
    ));
    assert!(matches!(
        download.step(DownloadEvent::Done),
        DownloadAction::Return(path) if path == "models/ggml-tiny.bin"
    ));
}

#[test]
fn statuses_outside_the_two_hundreds_are_refused() {
    for status in [100u16, 199, 300, 302, 404, 503, 999] {
        let mut download = tiny_download();
        download.step(DownloadEvent::Done);
        match download.step(DownloadEvent::Response {
            status,
            total: None,
        }) {
            DownloadAction::Fail(Error::UnexpectedStatus { url, status: got }) => {
                assert_eq!(got, status);
                assert_eq!(url, WhisperModel::Tiny.download_url());
            }
            other => panic!("unexpected action {other:?}"),
        }
    }
    for status in [200u16, 204, 299] {
        let mut download = tiny_download();
        download.step(DownloadEvent::Done);
        assert!(matches!(
            download.step(DownloadEvent::Response {
                status,
                total: None
            }),
            DownloadAction::CreateFile(_)
        ));
    }
}
