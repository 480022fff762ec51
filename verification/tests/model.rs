use whisper_stt::model::{normalize_name, tighten_name, MODEL_REPO_URL};
use whisper_stt::{ModelSource, WhisperModel};

#[test]
fn catalogue_round_trips_dtw_presets() {
    for model in WhisperModel::all() {
        assert_eq!(WhisperModel::from_dtw_preset(model.dtw_preset()), *model);
    }
    assert_eq!(WhisperModel::all().len(), 12);
}

#[test]
fn english_only_variants_are_not_multilingual() {
    for model in [
        WhisperModel::TinyEn,
        WhisperModel::BaseEn,
        WhisperModel::SmallEn,
        WhisperModel::MediumEn,
    ] {
        assert!(!model.is_multilingual());
        assert!(!model.supports_translation());
    }
    for model in [WhisperModel::Tiny, WhisperModel::LargeV3Turbo] {
        assert!(model.is_multilingual());
        assert!(model.supports_translation());
    }
}

#[test]
fn file_names_follow_repository_layout() {
    assert_eq!(WhisperModel::Tiny.file_name(), "ggml-tiny.bin");
    assert_eq!(WhisperModel::TinyEn.file_name(), "ggml-tiny.en.bin");
    assert_eq!(
        WhisperModel::LargeV3Turbo.file_name(),
        "ggml-large-v3-turbo.bin"
    );
    assert_eq!(
        WhisperModel::LargeV3Turbo.download_url(),
        format!("{}/ggml-large-v3-turbo.bin", MODEL_REPO_URL)
    );
}

#[test]
fn alias_lookup_is_tolerant() {
    for expected in WhisperModel::all() {
        for alias in expected.aliases() {
            assert_eq!(
                WhisperModel::from_name(alias),
                Some(*expected),
                "alias {alias} did not resolve to {}",
                expected.id()
            );
            assert_eq!(
                WhisperModel::from_name(&alias.to_uppercase()),
                Some(*expected)
            );
            assert_eq!(
                WhisperModel::from_name(&format!("ggml-{alias}.bin")),
                Some(*expected)
            );
        }
    }
}

#[test]
fn legacy_names_still_resolve() {
    assert_eq!(WhisperModel::from_name("Tiny"), Some(WhisperModel::Tiny));
    assert_eq!(
        WhisperModel::from_name("large"),
        Some(WhisperModel::LargeV3)
    );
    assert_eq!(
        WhisperModel::from_name("  medium.en  "),
        Some(WhisperModel::MediumEn)
    );
    assert_eq!(WhisperModel::from_name("does-not-exist"), None);
    assert_eq!(WhisperModel::from_name(""), None);
}

#[test]
fn model_source_paths() {
    let source = ModelSource::from(WhisperModel::Medium);
    assert_eq!(source.file_name(), "ggml-medium.bin");
    assert_eq!(source.path_in("models"), "models/ggml-medium.bin");

    let local = ModelSource::from(String::from("/tmp/custom-q5.bin"));
    assert_eq!(local.file_name(), "custom-q5.bin");
    assert_eq!(local.download_url(), None);
    assert_eq!(local.path_in("models"), "/tmp/custom-q5.bin");
}

#[test]
fn the_first_alias_is_the_id() {
    for model in WhisperModel::all() {
        assert_eq!(model.aliases()[0], model.id());
        assert_eq!(model.file_stem(), format!("ggml-{}", model.id()));
        assert_eq!(model.is_multilingual(), !model.id().ends_with(".en"));
    }
}

#[test]
fn aliases_belong_to_one_model() {
    for a in WhisperModel::all() {
        for b in WhisperModel::all() {
            if a != b {
                assert!(a.aliases().iter().all(|alias| !b.aliases().contains(alias)));
            }
        }
    }
}

#[test]
fn file_names_resolve_to_their_model() {
    for model in WhisperModel::all() {
        assert_eq!(WhisperModel::from_name(&model.file_name()), Some(*model));
        assert_eq!(WhisperModel::from_name(model.file_stem()), Some(*model));
    }
}

#[test]
fn names_tolerate_affixes_separators_and_padding() {
    for name in [
        "ggml-tiny.en.bin",
        "tiny_en",
        "tiny.en",
        "tiny en",
        "TINY-EN",
        "\t tiny.en.BIN \n",
        "GGML-tiny_english",
    ] {
        assert_eq!(
            WhisperModel::from_name(name),
            Some(WhisperModel::TinyEn),
            "{name:?}"
        );
    }
    assert_eq!(
        WhisperModel::from_name("large_v3 turbo"),
        Some(WhisperModel::LargeV3Turbo)
    );
}

#[test]
fn underscores_and_spaces_are_ignored() {
    for name in [
        "tiny_",
        "_tiny",
        "ti_ny",
        "T I N Y",
        "_ggml-tiny_.bin_",
        "ggml- tiny.bin",
        " ggml-ti_ny .b_in ",
    ] {
        assert_eq!(
            WhisperModel::from_name(name),
            Some(WhisperModel::Tiny),
            "{name:?}"
        );
    }
    for model in WhisperModel::all() {
        for alias in model.aliases() {
            let scattered: String = alias.chars().flat_map(|c| [' ', c, '_']).collect();
            assert_eq!(WhisperModel::from_name(&scattered), Some(*model));
            let scattered_file = format!("_ggml-{scattered}.bin _");
            assert_eq!(WhisperModel::from_name(&scattered_file), Some(*model));
            // Either one may also stand for the dash of an alias.
            assert_eq!(WhisperModel::from_name(&alias.replace('-', "_")), Some(*model));
            assert_eq!(WhisperModel::from_name(&alias.replace('-', " ")), Some(*model));
        }
    }
}

#[test]
fn both_forms_of_a_name_are_offered() {
    assert_eq!(normalize_name(" GGML-large_v3 turbo.bin"), "large-v3-turbo");
    assert_eq!(tighten_name(" GGML-large_v3 turbo.bin"), "largev3turbo");
}

#[test]
fn names_are_not_guessed() {
    for name in ["ggml-ggml-tiny", "ggml_tiny", "ti-ny", "_", "ggml-.bin", ".bin", "tiny.bin.bin", "   "] {
        assert_eq!(WhisperModel::from_name(name), None, "{name:?}");
    }
}

#[test]
fn sources_without_a_file_name_have_a_default() {
    let nameless = ModelSource::File("/models/..".to_string());
    assert_eq!(nameless.file_name(), "model.bin");
    assert_eq!(nameless.file_stem(), "model");
    let local = ModelSource::File("/tmp/custom-q5.tar.gz".to_string());
    assert_eq!(local.file_stem(), "custom-q5.tar");
    assert_eq!(ModelSource::from(WhisperModel::Tiny).file_stem(), "ggml-tiny");
    assert_eq!(
        ModelSource::from(WhisperModel::Tiny).download_url(),
        Some(WhisperModel::Tiny.download_url())
    );
}

#[test]
fn absolute_and_slashed_directories_are_joined_once() {
    let source = ModelSource::from(WhisperModel::Tiny);
    assert_eq!(source.path_in("/srv/"), "/srv/ggml-tiny.bin");
    assert_eq!(source.path_in(""), "ggml-tiny.bin");
}

#[test]
fn the_catalogue_lists_every_checkpoint() {
    let expected = [
        ("tiny", true, "ggml-tiny.bin"),
        ("tiny.en", false, "ggml-tiny.en.bin"),
        ("base", true, "ggml-base.bin"),
        ("base.en", false, "ggml-base.en.bin"),
        ("small", true, "ggml-small.bin"),
        ("small.en", false, "ggml-small.en.bin"),
        ("medium", true, "ggml-medium.bin"),
        ("medium.en", false, "ggml-medium.en.bin"),
        ("large-v3-turbo", true, "ggml-large-v3-turbo.bin"),
        ("large-v1", true, "ggml-large-v1.bin"),
        ("large-v2", true, "ggml-large-v2.bin"),
        ("large-v3", true, "ggml-large-v3.bin"),
    ];
    assert_eq!(WhisperModel::all().len(), expected.len());
    for (model, (id, multilingual, file)) in WhisperModel::all().iter().zip(expected) {
        assert_eq!(model.id(), id);
        assert_eq!(model.is_multilingual(), multilingual);
        assert_eq!(model.file_name(), file);
    }
}

#[test]
fn sources_are_compared_by_component() {
    let source = ModelSource::from(String::from("a/b"));
    for same in ["a//b", "a/./b", "a/b/", "a/b/."] {
        assert_eq!(source, ModelSource::from(String::from(same)), "{same:?}");
    }
    for other in ["/a/b", "./a/b", "a/../a/b", "a/c", "a", "b", ""] {
        assert_ne!(source, ModelSource::from(String::from(other)), "{other:?}");
    }
    assert_eq!(
        ModelSource::from(WhisperModel::Tiny),
        ModelSource::Pretrained(WhisperModel::Tiny)
    );
    assert_ne!(
        ModelSource::from(WhisperModel::Tiny),
        ModelSource::from(WhisperModel::Base)
    );
    assert_ne!(
        ModelSource::from(WhisperModel::Tiny),
        ModelSource::from(String::from("tiny"))
    );
}
