//! Catalogue of the Whisper checkpoints.
//!
//! This module is pure data: it never touches the network or the filesystem. It maps a
//! human-friendly model name (`"tiny"`, `"large-v3-turbo"`, `"medium.en"`, ...) to the ggml
//! checkpoint published in the whisper.cpp model repository and to the alignment preset that goes
//! with it.

use vstd::prelude::*;
use vstd::std_specs::cmp::PartialEqSpec;

use crate::path;
use crate::text;

verus! {

/// Base URL of the whisper.cpp model repository.
pub const MODEL_REPO_URL: &'static str = "https://huggingface.co/ggerganov/whisper.cpp/resolve/main";

/// Sample rate Whisper models expect, in Hz.
///
/// Every checkpoint is trained on 16 kHz mono audio, so anything else must be resampled to this
/// rate first. See [`crate::audio`].
pub const WHISPER_SAMPLE_RATE: u32 = 16_000;

/// Every Whisper checkpoint.
#[derive(Debug, Clone, Copy, PartialEq, Eq, Structural, Hash, PartialOrd, Ord)]
pub enum WhisperModel {
    /// Multilingual `tiny` (~75 MB).
    Tiny,
    /// English-only `tiny.en` (~75 MB).
    TinyEn,
    /// Multilingual `base` (~142 MB).
    Base,
    /// English-only `base.en` (~142 MB).
    BaseEn,
    /// Multilingual `small` (~466 MB).
    Small,
    /// English-only `small.en` (~466 MB).
    SmallEn,
    /// Multilingual `medium` (~1.5 GB).
    Medium,
    /// English-only `medium.en` (~1.5 GB).
    MediumEn,
    /// Multilingual `large-v1` (~2.9 GB).
    LargeV1,
    /// Multilingual `large-v2` (~2.9 GB).
    LargeV2,
    /// Multilingual `large-v3` (~2.9 GB). The default when asking for plain `"large"`.
    LargeV3,
    /// Multilingual `large-v3-turbo` (~1.6 GB). Distilled `large-v3`, much faster.
    LargeV3Turbo,
}

/// Flat list of every [`WhisperModel`], ordered from the smallest to the largest checkpoint.
pub const WHISPER_MODELS: [WhisperModel; 12] = [
    WhisperModel::Tiny,
    WhisperModel::TinyEn,
    WhisperModel::Base,
    WhisperModel::BaseEn,
    WhisperModel::Small,
    WhisperModel::SmallEn,
    WhisperModel::Medium,
    WhisperModel::MediumEn,
    WhisperModel::LargeV3Turbo,
    WhisperModel::LargeV1,
    WhisperModel::LargeV2,
    WhisperModel::LargeV3,
];

/// The alignment presets whisper.cpp ships for token-level timestamps, one per checkpoint.
#[derive(Debug, Clone, Copy, PartialEq, Eq, Structural)]
pub enum DtwModelPreset {
    TinyEn,
    Tiny,
    BaseEn,
    Base,
    SmallEn,
    Small,
    MediumEn,
    Medium,
    LargeV1,
    LargeV2,
    LargeV3,
    LargeV3Turbo,
}

impl WhisperModel {
    /// Position in the catalogue, smallest checkpoint first.
    pub open spec fn rank(self) -> int {
        match self {
            WhisperModel::Tiny => 0,
            WhisperModel::TinyEn => 1,
            WhisperModel::Base => 2,
            WhisperModel::BaseEn => 3,
            WhisperModel::Small => 4,
            WhisperModel::SmallEn => 5,
            WhisperModel::Medium => 6,
            WhisperModel::MediumEn => 7,
            WhisperModel::LargeV3Turbo => 8,
            WhisperModel::LargeV1 => 9,
            WhisperModel::LargeV2 => 10,
            WhisperModel::LargeV3 => 11,
        }
    }

    /// Approximate size of the checkpoint, in MB.
    pub open spec fn size(self) -> nat {
        match self {
            WhisperModel::Tiny | WhisperModel::TinyEn => 75,
            WhisperModel::Base | WhisperModel::BaseEn => 142,
            WhisperModel::Small | WhisperModel::SmallEn => 466,
            WhisperModel::Medium | WhisperModel::MediumEn => 1500,
            WhisperModel::LargeV3Turbo => 1600,
            WhisperModel::LargeV1 | WhisperModel::LargeV2 | WhisperModel::LargeV3 => 2900,
        }
    }

    /// Canonical id.
    pub open spec fn id_text(self) -> Seq<char> {
        match self {
            WhisperModel::Tiny => "tiny"@,
            WhisperModel::TinyEn => "tiny.en"@,
            WhisperModel::Base => "base"@,
            WhisperModel::BaseEn => "base.en"@,
            WhisperModel::Small => "small"@,
            WhisperModel::SmallEn => "small.en"@,
            WhisperModel::Medium => "medium"@,
            WhisperModel::MediumEn => "medium.en"@,
            WhisperModel::LargeV1 => "large-v1"@,
            WhisperModel::LargeV2 => "large-v2"@,
            WhisperModel::LargeV3 => "large-v3"@,
            WhisperModel::LargeV3Turbo => "large-v3-turbo"@,
        }
    }

    /// File stem of the ggml checkpoint: the id behind `ggml-`.
    pub open spec fn stem_text(self) -> Seq<char> {
        "ggml-"@ + self.id_text()
    }

    /// File name of the ggml checkpoint.
    pub open spec fn file_name_text(self) -> Seq<char> {
        self.stem_text() + ".bin"@
    }

    /// Where the ggml checkpoint can be downloaded.
    pub open spec fn url_text(self) -> Seq<char> {
        MODEL_REPO_URL@ + "/"@ + self.file_name_text()
    }

    /// The normalized names this model answers to.
    pub open spec fn alias_texts(self) -> Seq<Seq<char>> {
        match self {
            WhisperModel::Tiny => seq!["tiny"@, "tiny-multi"@, "whisper-tiny"@],
            WhisperModel::TinyEn => seq!["tiny.en"@, "tiny-en"@, "tinyen"@, "tiny-english"@],
            WhisperModel::Base => seq!["base"@, "base-multi"@, "whisper-base"@],
            WhisperModel::BaseEn => seq!["base.en"@, "base-en"@, "baseen"@, "base-english"@],
            WhisperModel::Small => seq!["small"@, "small-multi"@, "whisper-small"@],
            WhisperModel::SmallEn => seq!["small.en"@, "small-en"@, "smallen"@, "small-english"@],
            WhisperModel::Medium => seq!["medium"@, "medium-multi"@, "whisper-medium"@],
            WhisperModel::MediumEn => seq!["medium.en"@, "medium-en"@, "mediumen"@, "medium-english"@],
            WhisperModel::LargeV1 => seq!["large-v1"@, "largev1"@, "large1"@],
            WhisperModel::LargeV2 => seq!["large-v2"@, "largev2"@, "large2"@],
            WhisperModel::LargeV3 => seq!["large-v3"@, "largev3"@, "large3"@, "large"@],
            WhisperModel::LargeV3Turbo => seq!["large-v3-turbo"@, "largev3turbo"@, "large-turbo"@, "turbo"@],
        }
    }

    /// Whether this model answers to the normalized name `name`.
    pub open spec fn answers_to(self, name: Seq<char>) -> bool {
        self.alias_texts().contains(name)
    }

    /// Whether this is one of the `*.en` variants.
    pub open spec fn is_english_only(self) -> bool {
        self is TinyEn || self is BaseEn || self is SmallEn || self is MediumEn
    }

    /// The alignment preset of the same name.
    pub open spec fn preset(self) -> DtwModelPreset {
        match self {
            WhisperModel::Tiny => DtwModelPreset::Tiny,
            WhisperModel::TinyEn => DtwModelPreset::TinyEn,
            WhisperModel::Base => DtwModelPreset::Base,
            WhisperModel::BaseEn => DtwModelPreset::BaseEn,
            WhisperModel::Small => DtwModelPreset::Small,
            WhisperModel::SmallEn => DtwModelPreset::SmallEn,
            WhisperModel::Medium => DtwModelPreset::Medium,
            WhisperModel::MediumEn => DtwModelPreset::MediumEn,
            WhisperModel::LargeV1 => DtwModelPreset::LargeV1,
            WhisperModel::LargeV2 => DtwModelPreset::LargeV2,
            WhisperModel::LargeV3 => DtwModelPreset::LargeV3,
            WhisperModel::LargeV3Turbo => DtwModelPreset::LargeV3Turbo,
        }
    }
}

/// A user-supplied model name, trimmed and lower-cased.
pub open spec fn folded(name: Seq<char>) -> Seq<char> {
    text::ascii_lower(text::trimmed(name))
}

/// `name` without a `.bin` suffix and a `ggml-` prefix.
pub open spec fn without_affixes(name: Seq<char>) -> Seq<char> {
    text::without_prefix(text::without_suffix(name, ".bin"@), "ggml-"@)
}

/// A user-supplied model name in the form aliases are written in: trimmed, lower-cased, without a
/// `.bin` suffix and a `ggml-` prefix, and with dashes for underscores and spaces.
pub open spec fn normalized(name: Seq<char>) -> Seq<char> {
    text::dashed(without_affixes(folded(name)))
}

/// A user-supplied model name with all that is ignored taken out: trimmed, lower-cased, without
/// underscores and spaces, and without a `.bin` suffix and a `ggml-` prefix.
pub open spec fn tightened(name: Seq<char>) -> Seq<char> {
    without_affixes(text::squeezed(folded(name)))
}

/// The checkpoint that answers to a normalized name, if any.
pub open spec fn entry_for(normal: Seq<char>) -> Option<WhisperModel> {
    if exists|model: WhisperModel| #[trigger] model.answers_to(normal) {
        Some(choose|model: WhisperModel| #[trigger] model.answers_to(normal))
    } else {
        None
    }
}

/// The checkpoint a user-supplied model name stands for, if any: the one that answers to the name
/// with dashes for its underscores and spaces, or else the one that answers to it without them.
pub open spec fn resolved(name: Seq<char>) -> Option<WhisperModel> {
    match entry_for(normalized(name)) {
        Some(model) => Some(model),
        None => entry_for(tightened(name)),
    }
}

/// Trims and lower-cases a user-supplied model name.
fn fold_name(name: &str) -> (text: String)
    ensures
        text@ == folded(name@),
{
    text::to_ascii_lower(text::trim(name).as_str())
}

/// Takes a `.bin` suffix and a `ggml-` prefix off a name.
fn strip_affixes(name: &str) -> (text: String)
    ensures
        text@ == without_affixes(name@),
{
    let without_extension = text::strip_suffix_or_same(name, ".bin");
    text::strip_prefix_or_same(without_extension.as_str(), "ggml-")
}

/// Normalizes a user-supplied model name for alias matching.
pub fn normalize_name(name: &str) -> (text: String)
    ensures
        text@ == normalized(name@),
        text@ == text::dashed(
            text::without_prefix(
                text::without_suffix(text::ascii_lower(text::trimmed(name@)), ".bin"@),
                "ggml-"@,
            ),
        ),
{
    let lowered = fold_name(name);
    text::to_dashed(strip_affixes(lowered.as_str()).as_str())
}

/// Takes everything that is ignored out of a user-supplied model name.
pub fn tighten_name(name: &str) -> (text: String)
    ensures
        text@ == tightened(name@),
        text@ == text::without_prefix(
            text::without_suffix(
                text::squeezed(text::ascii_lower(text::trimmed(name@))),
                ".bin"@,
            ),
            "ggml-"@,
        ),
{
    let lowered = fold_name(name);
    strip_affixes(text::to_squeezed(lowered.as_str()).as_str())
}

impl WhisperModel {
    /// Every known checkpoint, smallest first.
    pub fn all() -> (models: &'static [WhisperModel])
        ensures
            models@ == WHISPER_MODELS@,
            models@.len() == 12,
            models@[0] is Tiny,
            models@[1] is TinyEn,
            models@[2] is Base,
            models@[3] is BaseEn,
            models@[4] is Small,
            models@[5] is SmallEn,
            models@[6] is Medium,
            models@[7] is MediumEn,
            models@[8] is LargeV3Turbo,
            models@[9] is LargeV1,
            models@[10] is LargeV2,
            models@[11] is LargeV3,
            forall|model: WhisperModel| #[trigger] models@[model.rank()] == model,
            forall|i: int, j: int|
                0 <= i < j < models@.len() ==> (#[trigger] models@[i]).size() <= (
                #[trigger] models@[j]).size(),
    {
        &WHISPER_MODELS
    }

    /// Canonical id of this model, e.g. `"large-v3-turbo"`.
    pub fn id(self) -> (id: &'static str)
        ensures
            id@ == self.id_text(),
            self is Tiny ==> id@ == "tiny"@,
            self is TinyEn ==> id@ == "tiny.en"@,
            self is Base ==> id@ == "base"@,
            self is BaseEn ==> id@ == "base.en"@,
            self is Small ==> id@ == "small"@,
            self is SmallEn ==> id@ == "small.en"@,
            self is Medium ==> id@ == "medium"@,
            self is MediumEn ==> id@ == "medium.en"@,
            self is LargeV1 ==> id@ == "large-v1"@,
            self is LargeV2 ==> id@ == "large-v2"@,
            self is LargeV3 ==> id@ == "large-v3"@,
            self is LargeV3Turbo ==> id@ == "large-v3-turbo"@,
    {
        match self {
            WhisperModel::Tiny => "tiny",
            WhisperModel::TinyEn => "tiny.en",
            WhisperModel::Base => "base",
            WhisperModel::BaseEn => "base.en",
            WhisperModel::Small => "small",
            WhisperModel::SmallEn => "small.en",
            WhisperModel::Medium => "medium",
            WhisperModel::MediumEn => "medium.en",
            WhisperModel::LargeV1 => "large-v1",
            WhisperModel::LargeV2 => "large-v2",
            WhisperModel::LargeV3 => "large-v3",
            WhisperModel::LargeV3Turbo => "large-v3-turbo",
        }
    }

    /// File stem of the ggml checkpoint, without extension, e.g. `"ggml-large-v3-turbo"`.
    pub fn file_stem(self) -> (stem: &'static str)
        ensures
            stem@ == self.stem_text(),
            stem@ == "ggml-"@ + self.id_text(),
    {
        proof {
            lemma_stems_follow_ids(self);
        }
        match self {
            WhisperModel::Tiny => "ggml-tiny",
            WhisperModel::TinyEn => "ggml-tiny.en",
            WhisperModel::Base => "ggml-base",
            WhisperModel::BaseEn => "ggml-base.en",
            WhisperModel::Small => "ggml-small",
            WhisperModel::SmallEn => "ggml-small.en",
            WhisperModel::Medium => "ggml-medium",
            WhisperModel::MediumEn => "ggml-medium.en",
            WhisperModel::LargeV1 => "ggml-large-v1",
            WhisperModel::LargeV2 => "ggml-large-v2",
            WhisperModel::LargeV3 => "ggml-large-v3",
            WhisperModel::LargeV3Turbo => "ggml-large-v3-turbo",
        }
    }

    /// File name of the ggml checkpoint in the whisper.cpp repository, e.g. `"ggml-tiny.bin"`.
    pub fn file_name(self) -> (name: String)
        ensures
            name@ == self.file_name_text(),
            name@ == "ggml-"@ + self.id_text() + ".bin"@,
    {
        text::concat2(self.file_stem(), ".bin")
    }

    /// Direct download URL of the ggml checkpoint.
    pub fn download_url(self) -> (url: String)
        ensures
            url@ == self.url_text(),
            url@ == MODEL_REPO_URL@ + "/"@ + self.file_name_text(),
    {
        text::concat3(MODEL_REPO_URL, "/", self.file_name().as_str())
    }

    /// Aliases accepted for this model. The first entry is always [`Self::id`].
    pub fn aliases(self) -> (names: &'static [&'static str])
        ensures
            names@.len() == self.alias_texts().len(),
            forall|i: int| 0 <= i < names@.len() ==> #[trigger] names@[i]@ == self.alias_texts()[i],
            names@.len() > 0,
            names@[0]@ == self.id_text(),
    {
        match self {
            WhisperModel::Tiny => &["tiny", "tiny-multi", "whisper-tiny"],
            WhisperModel::TinyEn => &["tiny.en", "tiny-en", "tinyen", "tiny-english"],
            WhisperModel::Base => &["base", "base-multi", "whisper-base"],
            WhisperModel::BaseEn => &["base.en", "base-en", "baseen", "base-english"],
            WhisperModel::Small => &["small", "small-multi", "whisper-small"],
            WhisperModel::SmallEn => &["small.en", "small-en", "smallen", "small-english"],
            WhisperModel::Medium => &["medium", "medium-multi", "whisper-medium"],
            WhisperModel::MediumEn => &["medium.en", "medium-en", "mediumen", "medium-english"],
            WhisperModel::LargeV1 => &["large-v1", "largev1", "large1"],
            WhisperModel::LargeV2 => &["large-v2", "largev2", "large2"],
            WhisperModel::LargeV3 => &["large-v3", "largev3", "large3", "large"],
            WhisperModel::LargeV3Turbo => &["large-v3-turbo", "largev3turbo", "large-turbo", "turbo"],
        }
    }

    /// `true` for multilingual checkpoints, `false` for the English-only `*.en` variants.
    pub fn is_multilingual(self) -> (yes: bool)
        ensures
            yes == !self.is_english_only(),
            yes == !(self is TinyEn || self is BaseEn || self is SmallEn || self is MediumEn),
    {
        !matches!(
            self,
            WhisperModel::TinyEn
                | WhisperModel::BaseEn
                | WhisperModel::SmallEn
                | WhisperModel::MediumEn
        )
    }

    /// Whether this checkpoint can translate speech into English.
    ///
    /// Translation is only available for multilingual models.
    pub fn supports_translation(self) -> (yes: bool)
        ensures
            yes == !self.is_english_only(),
            yes == !(self is TinyEn || self is BaseEn || self is SmallEn || self is MediumEn),
    {
        self.is_multilingual()
    }

    /// The alignment preset matching this checkpoint.
    pub fn dtw_preset(self) -> (preset: DtwModelPreset)
        ensures
            preset == self.preset(),
            self is Tiny <==> preset is Tiny,
            self is TinyEn <==> preset is TinyEn,
            self is Base <==> preset is Base,
            self is BaseEn <==> preset is BaseEn,
            self is Small <==> preset is Small,
            self is SmallEn <==> preset is SmallEn,
            self is Medium <==> preset is Medium,
            self is MediumEn <==> preset is MediumEn,
            self is LargeV1 <==> preset is LargeV1,
            self is LargeV2 <==> preset is LargeV2,
            self is LargeV3 <==> preset is LargeV3,
            self is LargeV3Turbo <==> preset is LargeV3Turbo,
    {
        match self {
            WhisperModel::Tiny => DtwModelPreset::Tiny,
            WhisperModel::TinyEn => DtwModelPreset::TinyEn,
            WhisperModel::Base => DtwModelPreset::Base,
            WhisperModel::BaseEn => DtwModelPreset::BaseEn,
            WhisperModel::Small => DtwModelPreset::Small,
            WhisperModel::SmallEn => DtwModelPreset::SmallEn,
            WhisperModel::Medium => DtwModelPreset::Medium,
            WhisperModel::MediumEn => DtwModelPreset::MediumEn,
            WhisperModel::LargeV1 => DtwModelPreset::LargeV1,
            WhisperModel::LargeV2 => DtwModelPreset::LargeV2,
            WhisperModel::LargeV3 => DtwModelPreset::LargeV3,
            WhisperModel::LargeV3Turbo => DtwModelPreset::LargeV3Turbo,
        }
    }

    /// The checkpoint an alignment preset refers to.
    ///
    /// The inverse of [`Self::dtw_preset`].
    pub fn from_dtw_preset(preset: DtwModelPreset) -> (model: Self)
        ensures
            model.preset() == preset,
            preset is Tiny <==> model is Tiny,
            preset is TinyEn <==> model is TinyEn,
            preset is Base <==> model is Base,
            preset is BaseEn <==> model is BaseEn,
            preset is Small <==> model is Small,
            preset is SmallEn <==> model is SmallEn,
            preset is Medium <==> model is Medium,
            preset is MediumEn <==> model is MediumEn,
            preset is LargeV1 <==> model is LargeV1,
            preset is LargeV2 <==> model is LargeV2,
            preset is LargeV3 <==> model is LargeV3,
            preset is LargeV3Turbo <==> model is LargeV3Turbo,
    {
        match preset {
            DtwModelPreset::Tiny => WhisperModel::Tiny,
            DtwModelPreset::TinyEn => WhisperModel::TinyEn,
            DtwModelPreset::Base => WhisperModel::Base,
            DtwModelPreset::BaseEn => WhisperModel::BaseEn,
            DtwModelPreset::Small => WhisperModel::Small,
            DtwModelPreset::SmallEn => WhisperModel::SmallEn,
            DtwModelPreset::Medium => WhisperModel::Medium,
            DtwModelPreset::MediumEn => WhisperModel::MediumEn,
            DtwModelPreset::LargeV1 => WhisperModel::LargeV1,
            DtwModelPreset::LargeV2 => WhisperModel::LargeV2,
            DtwModelPreset::LargeV3 => WhisperModel::LargeV3,
            DtwModelPreset::LargeV3Turbo => WhisperModel::LargeV3Turbo,
        }
    }

    /// Resolves a user-supplied model name to a checkpoint.
    ///
    /// Matching is case-insensitive and tolerant: a leading `ggml-`, a trailing `.bin`,
    /// underscores, and spaces are all ignored, so `"ggml-tiny.en.bin"`, `"tiny_en"`, and
    /// `"tiny.en"` all resolve to [`WhisperModel::TinyEn`]. An underscore or a space may also stand
    /// for the dash of an alias.
    ///
    /// Plain `"large"` maps to [`WhisperModel::LargeV3`].
    ///
    /// Returns `None` when nothing matches.
    pub fn from_name(name: &str) -> (model: Option<Self>)
        ensures
            model == resolved(name@),
            model matches Some(found) ==> found.answers_to(normalized(name@)) || found.answers_to(
                tightened(name@),
            ),
            model is None ==> forall|other: WhisperModel|
                !other.answers_to(normalized(name@)) && !other.answers_to(tightened(name@)),
    {
        match Self::with_alias(normalize_name(name).as_str()) {
            Some(model) => Some(model),
            None => Self::with_alias(tighten_name(name).as_str()),
        }
    }

    /// The checkpoint that has `normal` among its aliases.
    fn with_alias(normal: &str) -> (model: Option<Self>)
        ensures
            model == entry_for(normal@),
            model matches Some(found) ==> found.answers_to(normal@),
            model is None ==> forall|other: WhisperModel| !other.answers_to(normal@),
    {
        let models = WhisperModel::all();
        let mut i: usize = 0;
        while i < models.len()
            invariant
                i <= models@.len() == 12,
                models@ == WHISPER_MODELS@,
                forall|j: int| 0 <= j < i ==> !(#[trigger] models@[j]).answers_to(normal@),
            decreases models.len() - i,
        {
            let model = models[i];
            let names = model.aliases();
            let mut k: usize = 0;
            while k < names.len()
                invariant
                    k <= names@.len() == model.alias_texts().len(),
                    forall|j: int|
                        0 <= j < names@.len() ==> #[trigger] names@[j]@ == model.alias_texts()[j],
                    forall|j: int| 0 <= j < k ==> #[trigger] model.alias_texts()[j] != normal@,
                decreases names.len() - k,
            {
                if text::same_text(names[k], normal) {
                    proof {
                        assert(model.alias_texts()[k as int] == normal@);
                        assert(model.answers_to(normal@));
                        let chosen = choose|other: WhisperModel| #[trigger]
                            other.answers_to(normal@);
                        lemma_aliases_are_unambiguous(model, chosen, normal@);
                    }
                    return Some(model);
                }
                k = k + 1;
            }
            i = i + 1;
        }
        assert forall|other: WhisperModel| !other.answers_to(normal@) by {
            assert(models@[other.rank()] == other);
        }
        None
    }
}

/// Where a model comes from: one of the published checkpoints, or an arbitrary local ggml file.
///
/// The local variant covers quantized releases (`ggml-large-v3-turbo-q5_0.bin`), fine-tunes, or
/// models exported by other tools, anything that can be loaded but is not part of the catalogue.
///
/// Two local sources are equal if their paths are the same component by component, so `a//b` equals
/// `a/b`.
#[derive(Debug, Clone)]
pub enum ModelSource {
    /// One of the [`WhisperModel`] checkpoints, downloaded from the whisper.cpp repository.
    Pretrained(WhisperModel),
    /// The path of an already existing local file. Nothing is downloaded for this source.
    File(String),
}

/// The model of a [`ModelSource`].
pub enum SourceView {
    Pretrained(WhisperModel),
    File(Seq<char>),
}

impl View for ModelSource {
    type V = SourceView;

    open spec fn view(&self) -> SourceView {
        match self {
            ModelSource::Pretrained(model) => SourceView::Pretrained(*model),
            ModelSource::File(path) => SourceView::File(path@),
        }
    }
}

impl SourceView {
    /// The file stem: that of the checkpoint, or that of the local path.
    pub open spec fn stem_text(self) -> Seq<char> {
        match self {
            SourceView::Pretrained(model) => model.stem_text(),
            SourceView::File(path) => match path::file_name_of(path) {
                Some(name) => path::stem_of(name),
                None => "model"@,
            },
        }
    }

    /// The file name: that of the checkpoint, or that of the local path.
    pub open spec fn file_name_text(self) -> Seq<char> {
        match self {
            SourceView::Pretrained(model) => model.file_name_text(),
            SourceView::File(path) => match path::file_name_of(path) {
                Some(name) => name,
                None => "model.bin"@,
            },
        }
    }

    /// The path a source resolves to: a checkpoint lives in `dir`, a local file stays where it is.
    pub open spec fn path_in(self, dir: Seq<char>) -> Seq<char> {
        match self {
            SourceView::Pretrained(model) => path::joined(dir, model.file_name_text()),
            SourceView::File(path) => path,
        }
    }
}

impl ModelSource {
    /// File stem used to build the downloaded file name, without extension.
    pub fn file_stem(&self) -> (stem: String)
        ensures
            stem@ == self@.stem_text(),
            match self@ {
                SourceView::Pretrained(model) => stem@ == model.stem_text(),
                SourceView::File(path) => match path::file_name_of(path) {
                    Some(name) => stem@ == path::stem_of(name),
                    None => stem@ == "model"@,
                },
            },
    {
        match self {
            ModelSource::Pretrained(model) => model.file_stem().to_owned(),
            ModelSource::File(path) => match path::file_stem(path.as_str()) {
                Some(stem) => stem,
                None => "model".to_owned(),
            },
        }
    }

    /// File name (with extension) of this model inside the models directory.
    pub fn file_name(&self) -> (name: String)
        ensures
            name@ == self@.file_name_text(),
            match self@ {
                SourceView::Pretrained(model) => name@ == model.file_name_text(),
                SourceView::File(path) => match path::file_name_of(path) {
                    Some(file) => name@ == file,
                    None => name@ == "model.bin"@,
                },
            },
    {
        match self {
            ModelSource::Pretrained(model) => model.file_name(),
            ModelSource::File(path) => match path::file_name(path.as_str()) {
                Some(name) => name,
                None => "model.bin".to_owned(),
            },
        }
    }

    /// Download URL of this model, or `None` for [`ModelSource::File`].
    pub fn download_url(&self) -> (url: Option<String>)
        ensures
            match self@ {
                SourceView::Pretrained(model) => url matches Some(text) && text@
                    == model.url_text(),
                SourceView::File(_) => url is None,
            },
    {
        match self {
            ModelSource::Pretrained(model) => Some(model.download_url()),
            ModelSource::File(_) => None,
        }
    }

    /// Resolves this source inside `dir`.
    pub fn path_in(&self, dir: &str) -> (path: String)
        ensures
            path@ == self@.path_in(dir@),
            match self@ {
                SourceView::Pretrained(model) => path@ == path::joined(dir@, model.file_name_text()),
                SourceView::File(file) => path@ == file,
            },
    {
        match self {
            ModelSource::File(path) => path.clone(),
            ModelSource::Pretrained(_) => path::join(dir, self.file_name().as_str()),
        }
    }
}

impl PartialEq for ModelSource {
    fn eq(&self, other: &Self) -> (equal: bool) {
        match (self, other) {
            (ModelSource::Pretrained(a), ModelSource::Pretrained(b)) => *a == *b,
            (ModelSource::File(a), ModelSource::File(b)) => path::same(a.as_str(), b.as_str()),
            _ => false,
        }
    }
}

impl vstd::std_specs::cmp::PartialEqSpecImpl for ModelSource {
    open spec fn obeys_eq_spec() -> bool {
        true
    }

    open spec fn eq_spec(&self, other: &Self) -> bool {
        match (self, other) {
            (ModelSource::Pretrained(a), ModelSource::Pretrained(b)) => *a == *b,
            (ModelSource::File(a), ModelSource::File(b)) => path::is_same(a@, b@),
            _ => false,
        }
    }
}

impl Eq for ModelSource {

}

/// A source is seen as what it holds: the checkpoint, or the path as it is written.
pub proof fn law_sources_are_seen_as_they_are(model: WhisperModel, file: String)
    ensures
        ModelSource::Pretrained(model)@ == SourceView::Pretrained(model),
        ModelSource::File(file)@ == SourceView::File(file@),
        <ModelSource as vstd::std_specs::convert::FromSpec<WhisperModel>>::from_spec(model)
            == ModelSource::Pretrained(model),
        <ModelSource as vstd::std_specs::convert::FromSpec<String>>::from_spec(file)
            == ModelSource::File(file),
{
}

/// Equal sources are the same checkpoint, or the same path: with the same components, and both from
/// the root or neither.
pub proof fn law_equal_sources_name_the_same_model(a: ModelSource, b: ModelSource)
    ensures
        a.eq_spec(&b) == b.eq_spec(&a),
        a.eq_spec(&b) <==> match (a@, b@) {
            (SourceView::Pretrained(x), SourceView::Pretrained(y)) => x == y,
            (SourceView::File(x), SourceView::File(y)) => {
                &&& path::components(x) == path::components(y)
                &&& (x.len() > 0 && x[0] == '/') == (y.len() > 0 && y[0] == '/')
            },
            _ => false,
        },
{
}

impl From<WhisperModel> for ModelSource {
    fn from(model: WhisperModel) -> (source: Self) {
        ModelSource::Pretrained(model)
    }
}

impl vstd::std_specs::convert::FromSpecImpl<WhisperModel> for ModelSource {
    open spec fn obeys_from_spec() -> bool {
        true
    }

    open spec fn from_spec(model: WhisperModel) -> Self {
        ModelSource::Pretrained(model)
    }
}

impl From<String> for ModelSource {
    fn from(path: String) -> (source: Self) {
        ModelSource::File(path)
    }
}

impl vstd::std_specs::convert::FromSpecImpl<String> for ModelSource {
    open spec fn obeys_from_spec() -> bool {
        true
    }

    open spec fn from_spec(path: String) -> Self {
        ModelSource::File(path)
    }
}

/// The stems in the repository are the ids behind `ggml-`.
pub(crate) proof fn lemma_stems_follow_ids(model: WhisperModel)
    ensures
        model is Tiny ==> model.stem_text() == "ggml-tiny"@,
        model is TinyEn ==> model.stem_text() == "ggml-tiny.en"@,
        model is Base ==> model.stem_text() == "ggml-base"@,
        model is BaseEn ==> model.stem_text() == "ggml-base.en"@,
        model is Small ==> model.stem_text() == "ggml-small"@,
        model is SmallEn ==> model.stem_text() == "ggml-small.en"@,
        model is Medium ==> model.stem_text() == "ggml-medium"@,
        model is MediumEn ==> model.stem_text() == "ggml-medium.en"@,
        model is LargeV1 ==> model.stem_text() == "ggml-large-v1"@,
        model is LargeV2 ==> model.stem_text() == "ggml-large-v2"@,
        model is LargeV3 ==> model.stem_text() == "ggml-large-v3"@,
        model is LargeV3Turbo ==> model.stem_text() == "ggml-large-v3-turbo"@,
{
    reveal_strlit("ggml-");
    reveal_strlit("tiny");
    reveal_strlit("ggml-tiny");
    assert("ggml-"@ + "tiny"@ =~= "ggml-tiny"@);
    reveal_strlit("tiny.en");
    reveal_strlit("ggml-tiny.en");
    assert("ggml-"@ + "tiny.en"@ =~= "ggml-tiny.en"@);
    reveal_strlit("base");
    reveal_strlit("ggml-base");
    assert("ggml-"@ + "base"@ =~= "ggml-base"@);
    reveal_strlit("base.en");
    reveal_strlit("ggml-base.en");
    assert("ggml-"@ + "base.en"@ =~= "ggml-base.en"@);
    reveal_strlit("small");
    reveal_strlit("ggml-small");
    assert("ggml-"@ + "small"@ =~= "ggml-small"@);
    reveal_strlit("small.en");
    reveal_strlit("ggml-small.en");
    assert("ggml-"@ + "small.en"@ =~= "ggml-small.en"@);
    reveal_strlit("medium");
    reveal_strlit("ggml-medium");
    assert("ggml-"@ + "medium"@ =~= "ggml-medium"@);
    reveal_strlit("medium.en");
    reveal_strlit("ggml-medium.en");
    assert("ggml-"@ + "medium.en"@ =~= "ggml-medium.en"@);
    reveal_strlit("large-v1");
    reveal_strlit("ggml-large-v1");
    assert("ggml-"@ + "large-v1"@ =~= "ggml-large-v1"@);
    reveal_strlit("large-v2");
    reveal_strlit("ggml-large-v2");
    assert("ggml-"@ + "large-v2"@ =~= "ggml-large-v2"@);
    reveal_strlit("large-v3");
    reveal_strlit("ggml-large-v3");
    assert("ggml-"@ + "large-v3"@ =~= "ggml-large-v3"@);
    reveal_strlit("large-v3-turbo");
    reveal_strlit("ggml-large-v3-turbo");
    assert("ggml-"@ + "large-v3-turbo"@ =~= "ggml-large-v3-turbo"@);
}

/// No two models share an alias.
pub(crate) proof fn lemma_aliases_are_unambiguous(a: WhisperModel, b: WhisperModel, name: Seq<char>)
    requires
        a.answers_to(name),
        b.answers_to(name),
    ensures
        a == b,
{
    lemma_ends_tell_models_apart(a, b, name, name);
}

/// Aliases with the same first and last character belong to one model.
pub(crate) proof fn lemma_ends_tell_models_apart(
    a: WhisperModel,
    b: WhisperModel,
    name_a: Seq<char>,
    name_b: Seq<char>,
)
    requires
        a.answers_to(name_a),
        b.answers_to(name_b),
        name_a.first() == name_b.first(),
        name_a.last() == name_b.last(),
    ensures
        a == b,
{
    reveal_strlit("tiny");
    reveal_strlit("tiny-multi");
    reveal_strlit("whisper-tiny");
    reveal_strlit("tiny.en");
    reveal_strlit("tiny-en");
    reveal_strlit("tinyen");
    reveal_strlit("tiny-english");
    reveal_strlit("base");
    reveal_strlit("base-multi");
    reveal_strlit("whisper-base");
    reveal_strlit("base.en");
    reveal_strlit("base-en");
    reveal_strlit("baseen");
    reveal_strlit("base-english");
    reveal_strlit("small");
    reveal_strlit("small-multi");
    reveal_strlit("whisper-small");
    reveal_strlit("small.en");
    reveal_strlit("small-en");
    reveal_strlit("smallen");
    reveal_strlit("small-english");
    reveal_strlit("medium");
    reveal_strlit("medium-multi");
    reveal_strlit("whisper-medium");
    reveal_strlit("medium.en");
    reveal_strlit("medium-en");
    reveal_strlit("mediumen");
    reveal_strlit("medium-english");
    reveal_strlit("large-v1");
    reveal_strlit("largev1");
    reveal_strlit("large1");
    reveal_strlit("large-v2");
    reveal_strlit("largev2");
    reveal_strlit("large2");
    reveal_strlit("large-v3");
    reveal_strlit("largev3");
    reveal_strlit("large3");
    reveal_strlit("large");
    reveal_strlit("large-v3-turbo");
    reveal_strlit("largev3turbo");
    reveal_strlit("large-turbo");
    reveal_strlit("turbo");
    let i = choose|i: int| 0 <= i < a.alias_texts().len() && a.alias_texts()[i] == name_a;
    let j = choose|j: int| 0 <= j < b.alias_texts().len() && b.alias_texts()[j] == name_b;
    assert(a.alias_texts()[i].first() == b.alias_texts()[j].first());
    assert(a.alias_texts()[i].last() == b.alias_texts()[j].last());
}

} // verus!
