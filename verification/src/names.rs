//! What holds of model names: the catalogue is unambiguous, and resolving a name is as tolerant as
//! [`WhisperModel::from_name`] promises.

use vstd::prelude::*;

use crate::model;
use crate::model::{DtwModelPreset, WhisperModel};
use crate::model_handler;
use crate::path;
use crate::text;

verus! {

/// No two checkpoints share an alignment preset, and every preset belongs to one.
pub proof fn law_presets_match_models(preset: DtwModelPreset, a: WhisperModel, b: WhisperModel)
    ensures
        exists|model: WhisperModel| #[trigger] model.preset() == preset,
        a.preset() == b.preset() ==> a == b,
{
    let model = match preset {
        DtwModelPreset::Tiny => WhisperModel::Tiny,
        DtwModelPreset::TinyEn => WhisperModel::TinyEn,
        DtwModelPreset::Base => WhisperModel::Base,
        DtwModelPreset::BaseEn => WhisperModel::BaseEn,
        DtwModelPreset::Small => WhisperModel::Small,
        DtwModelPreset::SmallEn => WhisperModel::SmallEn,
        DtwModelPreset::Medium => WhisperModel::Medium,
        DtwModelPreset::MediumEn => WhisperModel::MediumEn,
        DtwModelPreset::LargeV1 => WhisperModel::LargeV1,
        DtwModelPreset::LargeV2 => WhisperModel::LargeV2,
        DtwModelPreset::LargeV3 => WhisperModel::LargeV3,
        DtwModelPreset::LargeV3Turbo => WhisperModel::LargeV3Turbo,
    };
    assert(model.preset() == preset);
}

/// No two checkpoints share an alias, so at most one of them can match a name.
pub proof fn law_aliases_are_unambiguous(a: WhisperModel, b: WhisperModel, name: Seq<char>)
    requires
        a.answers_to(name),
        b.answers_to(name),
    ensures
        a == b,
{
    model::lemma_aliases_are_unambiguous(a, b, name);
}

/// A name resolves to the checkpoint that has its normalized form among its aliases, or the name
/// with all that is ignored taken out. The two never speak for different checkpoints.
pub proof fn law_resolution_follows_aliases(model: WhisperModel, name: Seq<char>)
    ensures
        model.answers_to(model::normalized(name)) || model.answers_to(model::tightened(name))
            <==> model::resolved(name) == Some(model),
{
    let normal = model::normalized(name);
    let tight = model::tightened(name);
    if exists|other: WhisperModel| #[trigger] other.answers_to(normal) {
        let chosen = choose|other: WhisperModel| #[trigger] other.answers_to(normal);
        if model.answers_to(normal) {
            model::lemma_aliases_are_unambiguous(model, chosen, normal);
        }
        if model.answers_to(tight) {
            lemma_forms_agree(chosen, model, name);
        }
    } else if model.answers_to(tight) {
        let chosen = choose|other: WhisperModel| #[trigger] other.answers_to(tight);
        model::lemma_aliases_are_unambiguous(model, chosen, tight);
    }
}

/// Underscores and spaces are ignored: a name that is an alias of a checkpoint, or its file name,
/// once they are dropped resolves to that checkpoint.
pub proof fn law_underscores_and_spaces_are_ignored(
    model: WhisperModel,
    alias: Seq<char>,
    name: Seq<char>,
)
    requires
        model.answers_to(alias),
        text::squeezed(text::ascii_lower(name)) == alias || text::squeezed(text::ascii_lower(name))
            == "ggml-"@ + alias + ".bin"@,
    ensures
        model::resolved(name) == Some(model),
{
    reveal_strlit(".bin");
    reveal_strlit("ggml-");
    let i = choose|i: int| 0 <= i < model.alias_texts().len() && model.alias_texts()[i] == alias;
    lemma_aliases_are_alias_like(model, i);
    lemma_alias_like_is_normal(alias);
    let lowered = text::ascii_lower(name);
    assert forall|k: int| 0 <= k < text::squeezed(lowered).len() implies !text::is_white_space(
        #[trigger] text::squeezed(lowered)[k],
    ) by {
        if text::squeezed(lowered) == alias {
            assert(is_alias_char(alias[k]));
        } else if k < 5 {
            assert(text::squeezed(lowered)[k] == "ggml-"@[k]);
        } else if k < 5 + alias.len() {
            assert(is_alias_char(alias[k - 5]));
        } else {
            assert(text::squeezed(lowered)[k] == ".bin"@[k - 5 - alias.len()]);
        }
    }
    text::lemma_trimming_before_squeezing(lowered);
    text::lemma_trimming_ignores_case(name);
    law_resolution_follows_aliases(model, name);
}

/// A name whose affixes are taken off and whose underscores and spaces are dropped then is an alias
/// of a checkpoint resolves to that checkpoint.
pub proof fn law_names_resolve_without_separators(model: WhisperModel, name: Seq<char>)
    requires
        model.answers_to(text::squeezed(model::without_affixes(model::folded(name)))),
    ensures
        model::resolved(name) == Some(model),
{
    let tight = text::squeezed(model::without_affixes(model::folded(name)));
    let i = choose|i: int| 0 <= i < model.alias_texts().len() && model.alias_texts()[i] == tight;
    lemma_aliases_are_alias_like(model, i);
    lemma_prefix_and_squeezing(text::without_suffix(model::folded(name), ".bin"@));
    lemma_suffix_and_squeezing(model::folded(name));
    law_resolution_follows_aliases(model, name);
}

/// The characters aliases are made of.
spec fn is_alias_char(c: char) -> bool {
    'a' <= c <= 'z' || '0' <= c <= '9' || c == '-' || c == '.'
}

/// Whether `name` is written the way aliases are.
spec fn is_alias_like(name: Seq<char>) -> bool {
    &&& name.len() >= 2
    &&& name[0] != 'g' && name[0] != '-'
    &&& name[name.len() - 2] != 'i' && name[name.len() - 2] != '-'
    &&& name[name.len() - 1] != '-'
    &&& forall|i: int| 0 <= i < name.len() ==> is_alias_char(#[trigger] name[i])
}

/// Whether the letters of `alias` give `model` away: each of these letters, and of these pairs of
/// letters, occurs in the aliases of some models only.
spec fn speaks_for(alias: Seq<char>, model: WhisperModel) -> bool {
    &&& forall|k: int|
        0 <= k < alias.len() ==> {
            &&& (#[trigger] alias[k] == 'y' ==> model is Tiny || model is TinyEn)
            &&& (alias[k] == 'd' ==> model is Medium || model is MediumEn)
            &&& (alias[k] == 'o' ==> model is LargeV3Turbo)
            &&& (alias[k] == '1' ==> model is LargeV1)
            &&& (alias[k] == '2' ==> model is LargeV2)
            &&& (alias[k] == '3' ==> model is LargeV3 || model is LargeV3Turbo)
            &&& (alias[k] == 'w' ==> !model.is_english_only())
        }
    &&& forall|k: int|
        0 <= k < alias.len() - 1 ==> {
            &&& (#[trigger] alias[k] == 'b' && alias[k + 1] == 'a' ==> model is Base
                || model is BaseEn)
            &&& (alias[k] == 's' && alias[k + 1] == 'm' ==> model is Small || model is SmallEn)
            &&& (alias[k] == 'r' && alias[k + 1] == 'g' ==> model is LargeV1 || model is LargeV2
                || model is LargeV3 || model is LargeV3Turbo)
            &&& (alias[k] == 'e' && alias[k + 1] == 'n' ==> model.is_english_only())
            &&& (alias[k] == 'u' && alias[k + 1] == 'l' ==> !model.is_english_only())
        }
}

/// Aliases are written in one style.
#[verifier::rlimit(50)]
proof fn lemma_aliases_are_alias_like(model: WhisperModel, i: int)
    requires
        0 <= i < model.alias_texts().len(),
    ensures
        is_alias_like(model.alias_texts()[i]),
        speaks_for(model.alias_texts()[i], model),
{
    match model {
        WhisperModel::Tiny => {
            reveal_strlit("tiny");
            assert("tiny"@ =~= seq!['t', 'i', 'n', 'y']);
            assert(is_alias_like("tiny"@));
            assert(speaks_for("tiny"@, model));
            reveal_strlit("tiny-multi");
            assert("tiny-multi"@ =~= seq!['t', 'i', 'n', 'y', '-', 'm', 'u', 'l', 't', 'i']);
            assert(is_alias_like("tiny-multi"@));
            assert(speaks_for("tiny-multi"@, model));
            reveal_strlit("whisper-tiny");
            assert("whisper-tiny"@ =~= seq!['w', 'h', 'i', 's', 'p', 'e', 'r', '-', 't', 'i', 'n', 'y']);
            assert(is_alias_like("whisper-tiny"@));
            assert(speaks_for("whisper-tiny"@, model));
        },
        WhisperModel::TinyEn => {
            reveal_strlit("tiny.en");
            assert("tiny.en"@ =~= seq!['t', 'i', 'n', 'y', '.', 'e', 'n']);
            assert(is_alias_like("tiny.en"@));
            assert(speaks_for("tiny.en"@, model));
            reveal_strlit("tiny-en");
            assert("tiny-en"@ =~= seq!['t', 'i', 'n', 'y', '-', 'e', 'n']);
            assert(is_alias_like("tiny-en"@));
            assert(speaks_for("tiny-en"@, model));
            reveal_strlit("tinyen");
            assert("tinyen"@ =~= seq!['t', 'i', 'n', 'y', 'e', 'n']);
            assert(is_alias_like("tinyen"@));
            assert(speaks_for("tinyen"@, model));
            reveal_strlit("tiny-english");
            assert("tiny-english"@ =~= seq!['t', 'i', 'n', 'y', '-', 'e', 'n', 'g', 'l', 'i', 's', 'h']);
            assert(is_alias_like("tiny-english"@));
            assert(speaks_for("tiny-english"@, model));
        },
        WhisperModel::Base => {
            reveal_strlit("base");
            assert("base"@ =~= seq!['b', 'a', 's', 'e']);
            assert(is_alias_like("base"@));
            assert(speaks_for("base"@, model));
            reveal_strlit("base-multi");
            assert("base-multi"@ =~= seq!['b', 'a', 's', 'e', '-', 'm', 'u', 'l', 't', 'i']);
            assert(is_alias_like("base-multi"@));
            assert(speaks_for("base-multi"@, model));
            reveal_strlit("whisper-base");
            assert("whisper-base"@ =~= seq!['w', 'h', 'i', 's', 'p', 'e', 'r', '-', 'b', 'a', 's', 'e']);
            assert(is_alias_like("whisper-base"@));
            assert(speaks_for("whisper-base"@, model));
        },
        WhisperModel::BaseEn => {
            reveal_strlit("base.en");
            assert("base.en"@ =~= seq!['b', 'a', 's', 'e', '.', 'e', 'n']);
            assert(is_alias_like("base.en"@));
            assert(speaks_for("base.en"@, model));
            reveal_strlit("base-en");
            assert("base-en"@ =~= seq!['b', 'a', 's', 'e', '-', 'e', 'n']);
            assert(is_alias_like("base-en"@));
            assert(speaks_for("base-en"@, model));
            reveal_strlit("baseen");
            assert("baseen"@ =~= seq!['b', 'a', 's', 'e', 'e', 'n']);
            assert(is_alias_like("baseen"@));
            assert(speaks_for("baseen"@, model));
            reveal_strlit("base-english");
            assert("base-english"@ =~= seq!['b', 'a', 's', 'e', '-', 'e', 'n', 'g', 'l', 'i', 's', 'h']);
            assert(is_alias_like("base-english"@));
            assert(speaks_for("base-english"@, model));
        },
        WhisperModel::Small => {
            reveal_strlit("small");
            assert("small"@ =~= seq!['s', 'm', 'a', 'l', 'l']);
            assert(is_alias_like("small"@));
            assert(speaks_for("small"@, model));
            reveal_strlit("small-multi");
            assert("small-multi"@ =~= seq!['s', 'm', 'a', 'l', 'l', '-', 'm', 'u', 'l', 't', 'i']);
            assert(is_alias_like("small-multi"@));
            assert(speaks_for("small-multi"@, model));
            reveal_strlit("whisper-small");
            assert("whisper-small"@ =~= seq!['w', 'h', 'i', 's', 'p', 'e', 'r', '-', 's', 'm', 'a', 'l', 'l']);
            assert(is_alias_like("whisper-small"@));
            assert(speaks_for("whisper-small"@, model));
        },
        WhisperModel::SmallEn => {
            reveal_strlit("small.en");
            assert("small.en"@ =~= seq!['s', 'm', 'a', 'l', 'l', '.', 'e', 'n']);
            assert(is_alias_like("small.en"@));
            assert(speaks_for("small.en"@, model));
            reveal_strlit("small-en");
            assert("small-en"@ =~= seq!['s', 'm', 'a', 'l', 'l', '-', 'e', 'n']);
            assert(is_alias_like("small-en"@));
            assert(speaks_for("small-en"@, model));
            reveal_strlit("smallen");
            assert("smallen"@ =~= seq!['s', 'm', 'a', 'l', 'l', 'e', 'n']);
            assert(is_alias_like("smallen"@));
            assert(speaks_for("smallen"@, model));
            reveal_strlit("small-english");
            assert("small-english"@ =~= seq!['s', 'm', 'a', 'l', 'l', '-', 'e', 'n', 'g', 'l', 'i', 's', 'h']);
            assert(is_alias_like("small-english"@));
            assert(speaks_for("small-english"@, model));
        },
        WhisperModel::Medium => {
            reveal_strlit("medium");
            assert("medium"@ =~= seq!['m', 'e', 'd', 'i', 'u', 'm']);
            assert(is_alias_like("medium"@));
            assert(speaks_for("medium"@, model));
            reveal_strlit("medium-multi");
            assert("medium-multi"@ =~= seq!['m', 'e', 'd', 'i', 'u', 'm', '-', 'm', 'u', 'l', 't', 'i']);
            assert(is_alias_like("medium-multi"@));
            assert(speaks_for("medium-multi"@, model));
            reveal_strlit("whisper-medium");
            assert("whisper-medium"@ =~= seq!['w', 'h', 'i', 's', 'p', 'e', 'r', '-', 'm', 'e', 'd', 'i', 'u', 'm']);
            assert(is_alias_like("whisper-medium"@));
            assert(speaks_for("whisper-medium"@, model));
        },
        WhisperModel::MediumEn => {
            reveal_strlit("medium.en");
            assert("medium.en"@ =~= seq!['m', 'e', 'd', 'i', 'u', 'm', '.', 'e', 'n']);
            assert(is_alias_like("medium.en"@));
            assert(speaks_for("medium.en"@, model));
            reveal_strlit("medium-en");
            assert("medium-en"@ =~= seq!['m', 'e', 'd', 'i', 'u', 'm', '-', 'e', 'n']);
            assert(is_alias_like("medium-en"@));
            assert(speaks_for("medium-en"@, model));
            reveal_strlit("mediumen");
            assert("mediumen"@ =~= seq!['m', 'e', 'd', 'i', 'u', 'm', 'e', 'n']);
            assert(is_alias_like("mediumen"@));
            assert(speaks_for("mediumen"@, model));
            reveal_strlit("medium-english");
            assert("medium-english"@ =~= seq!['m', 'e', 'd', 'i', 'u', 'm', '-', 'e', 'n', 'g', 'l', 'i', 's', 'h']);
            assert(is_alias_like("medium-english"@));
            assert(speaks_for("medium-english"@, model));
        },
        WhisperModel::LargeV1 => {
            reveal_strlit("large-v1");
            assert("large-v1"@ =~= seq!['l', 'a', 'r', 'g', 'e', '-', 'v', '1']);
            assert(is_alias_like("large-v1"@));
            assert(speaks_for("large-v1"@, model));
            reveal_strlit("largev1");
            assert("largev1"@ =~= seq!['l', 'a', 'r', 'g', 'e', 'v', '1']);
            assert(is_alias_like("largev1"@));
            assert(speaks_for("largev1"@, model));
            reveal_strlit("large1");
            assert("large1"@ =~= seq!['l', 'a', 'r', 'g', 'e', '1']);
            assert(is_alias_like("large1"@));
            assert(speaks_for("large1"@, model));
        },
        WhisperModel::LargeV2 => {
            reveal_strlit("large-v2");
            assert("large-v2"@ =~= seq!['l', 'a', 'r', 'g', 'e', '-', 'v', '2']);
            assert(is_alias_like("large-v2"@));
            assert(speaks_for("large-v2"@, model));
            reveal_strlit("largev2");
            assert("largev2"@ =~= seq!['l', 'a', 'r', 'g', 'e', 'v', '2']);
            assert(is_alias_like("largev2"@));
            assert(speaks_for("largev2"@, model));
            reveal_strlit("large2");
            assert("large2"@ =~= seq!['l', 'a', 'r', 'g', 'e', '2']);
            assert(is_alias_like("large2"@));
            assert(speaks_for("large2"@, model));
        },
        WhisperModel::LargeV3 => {
            reveal_strlit("large-v3");
            assert("large-v3"@ =~= seq!['l', 'a', 'r', 'g', 'e', '-', 'v', '3']);
            assert(is_alias_like("large-v3"@));
            assert(speaks_for("large-v3"@, model));
            reveal_strlit("largev3");
            assert("largev3"@ =~= seq!['l', 'a', 'r', 'g', 'e', 'v', '3']);
            assert(is_alias_like("largev3"@));
            assert(speaks_for("largev3"@, model));
            reveal_strlit("large3");
            assert("large3"@ =~= seq!['l', 'a', 'r', 'g', 'e', '3']);
            assert(is_alias_like("large3"@));
            assert(speaks_for("large3"@, model));
            reveal_strlit("large");
            assert("large"@ =~= seq!['l', 'a', 'r', 'g', 'e']);
            assert(is_alias_like("large"@));
            assert(speaks_for("large"@, model));
        },
        WhisperModel::LargeV3Turbo => {
            reveal_strlit("large-v3-turbo");
            assert("large-v3-turbo"@ =~= seq!['l', 'a', 'r', 'g', 'e', '-', 'v', '3', '-', 't', 'u', 'r', 'b', 'o']);
            assert(is_alias_like("large-v3-turbo"@));
            assert(speaks_for("large-v3-turbo"@, model));
            reveal_strlit("largev3turbo");
            assert("largev3turbo"@ =~= seq!['l', 'a', 'r', 'g', 'e', 'v', '3', 't', 'u', 'r', 'b', 'o']);
            assert(is_alias_like("largev3turbo"@));
            assert(speaks_for("largev3turbo"@, model));
            reveal_strlit("large-turbo");
            assert("large-turbo"@ =~= seq!['l', 'a', 'r', 'g', 'e', '-', 't', 'u', 'r', 'b', 'o']);
            assert(is_alias_like("large-turbo"@));
            assert(speaks_for("large-turbo"@, model));
            reveal_strlit("turbo");
            assert("turbo"@ =~= seq!['t', 'u', 'r', 'b', 'o']);
            assert(is_alias_like("turbo"@));
            assert(speaks_for("turbo"@, model));
        },
    }
}

/// Ids have no separator in them.
pub(crate) proof fn lemma_ids_have_no_separator(model: WhisperModel)
    ensures
        forall|i: int| 0 <= i < model.id_text().len() ==> #[trigger] model.id_text()[i] != '/',
{
    lemma_aliases_are_alias_like(model, 0);
    assert(model.alias_texts()[0] == model.id_text());
}

/// What is written in the style of aliases, with or without the affixes of a file name, normalizes
/// to itself.
proof fn lemma_alias_like_is_normal(name: Seq<char>)
    requires
        is_alias_like(name),
    ensures
        model::normalized(name) == name,
        model::normalized("ggml-"@ + name + ".bin"@) == name,
        model::without_affixes(name) == name,
        model::without_affixes("ggml-"@ + name + ".bin"@) == name,
{
    reveal_strlit(".bin");
    reveal_strlit("ggml-");
    let file = "ggml-"@ + name + ".bin"@;
    text::lemma_trimmed_is_kept(name);
    text::lemma_trimmed_is_kept(file);
    assert(text::ascii_lower(name) =~= name);
    assert(text::ascii_lower(file) =~= file);
    assert(text::dashed(name) =~= name);
    assert(!".bin"@.is_suffix_of(name)) by {
        if ".bin"@.is_suffix_of(name) {
            assert(name.subrange(name.len() - 4, name.len() as int)[2] == ".bin"@[2]);
        }
    }
    assert(!"ggml-"@.is_prefix_of(name)) by {
        if "ggml-"@.is_prefix_of(name) {
            assert(name.subrange(0, 5)[0] == "ggml-"@[0]);
        }
    }
    assert(".bin"@.is_suffix_of(file)) by {
        assert(file.subrange(file.len() - 4, file.len() as int) =~= ".bin"@);
    }
    let stem = file.take(file.len() - 4);
    assert(stem =~= "ggml-"@ + name);
    assert("ggml-"@.is_prefix_of(stem)) by {
        assert(stem.subrange(0, 5) =~= "ggml-"@);
    }
    assert(stem.skip(5) =~= name);
}

/// Squeezing a text that begins and ends with other characters keeps its ends.
proof fn lemma_squeezing_keeps_ends(s: Seq<char>)
    requires
        s.len() >= 2,
        text::dashed_char(s[0]) != '-',
        text::dashed_char(s[s.len() - 2]) != '-',
        text::dashed_char(s[s.len() - 1]) != '-',
    ensures
        text::squeezed(s).len() >= 2,
        text::squeezed(s)[0] == s[0],
        text::squeezed(s)[text::squeezed(s).len() - 2] == s[s.len() - 2],
        text::squeezed(s)[text::squeezed(s).len() - 1] == s[s.len() - 1],
{
    let n = s.len() as int;
    assert(s.take(1) + s.skip(1) =~= s);
    text::lemma_squeezing_parts(s.take(1), s.skip(1));
    text::lemma_squeezed_is_kept(s.take(1));
    assert(s.take(n - 2) + s.skip(n - 2) =~= s);
    text::lemma_squeezing_parts(s.take(n - 2), s.skip(n - 2));
    text::lemma_squeezed_is_kept(s.skip(n - 2));
}

/// The affixes of a file name hold nothing to squeeze.
proof fn lemma_affixes_are_squeezed()
    ensures
        text::squeezed("ggml-"@) == "ggml-"@,
        text::squeezed(".bin"@) == ".bin"@,
{
    reveal_strlit(".bin");
    reveal_strlit("ggml-");
    text::lemma_squeezed_is_kept("ggml-"@);
    text::lemma_squeezed_is_kept(".bin"@);
}

/// Squeezing a text and taking its prefix off can be done in either order.
proof fn lemma_prefix_and_squeezing(stem: Seq<char>)
    requires
        text::squeezed(text::without_prefix(stem, "ggml-"@)).len() >= 2,
        text::squeezed(text::without_prefix(stem, "ggml-"@))[0] != 'g',
    ensures
        text::without_prefix(text::squeezed(stem), "ggml-"@) == text::squeezed(
            text::without_prefix(stem, "ggml-"@),
        ),
        text::squeezed(stem).len() >= 2,
        text::squeezed(stem)[text::squeezed(stem).len() - 2] == text::squeezed(
            text::without_prefix(stem, "ggml-"@),
        )[text::squeezed(text::without_prefix(stem, "ggml-"@)).len() - 2],
{
    reveal_strlit("ggml-");
    lemma_affixes_are_squeezed();
    let prefix = "ggml-"@;
    let tight = text::squeezed(stem);
    if prefix.is_prefix_of(stem) {
        assert(prefix + stem.skip(5) =~= stem);
        text::lemma_squeezing_parts(prefix, stem.skip(5));
        assert(tight.subrange(0, 5) =~= prefix);
        assert(tight.skip(5) =~= text::squeezed(stem.skip(5)));
    } else if prefix.is_prefix_of(tight) {
        assert(tight.subrange(0, 5)[0] == prefix[0]);
    }
}

/// Squeezing a text and taking its suffix off can be done in either order.
proof fn lemma_suffix_and_squeezing(name: Seq<char>)
    requires
        text::squeezed(text::without_suffix(name, ".bin"@)).len() >= 2,
        text::squeezed(text::without_suffix(name, ".bin"@))[text::squeezed(
            text::without_suffix(name, ".bin"@),
        ).len() - 2] != 'i',
    ensures
        text::without_suffix(text::squeezed(name), ".bin"@) == text::squeezed(
            text::without_suffix(name, ".bin"@),
        ),
{
    reveal_strlit(".bin");
    lemma_affixes_are_squeezed();
    let suffix = ".bin"@;
    let tight = text::squeezed(name);
    let k = tight.len() as int;
    if suffix.is_suffix_of(name) {
        let stem = name.take(name.len() - 4);
        assert(stem + suffix =~= name);
        text::lemma_squeezing_parts(stem, suffix);
        assert(tight.subrange(k - 4, k) =~= suffix);
        assert(tight.take(k - 4) =~= text::squeezed(stem));
    } else if suffix.is_suffix_of(tight) {
        assert(tight.subrange(k - 4, k)[2] == suffix[2]);
    }
}

/// The forms a name is looked up in do not contradict each other.
proof fn lemma_forms_agree(a: WhisperModel, b: WhisperModel, name: Seq<char>)
    requires
        a.answers_to(model::normalized(name)),
        b.answers_to(model::tightened(name)),
    ensures
        a == b,
{
    let normal = model::normalized(name);
    let i = choose|i: int| 0 <= i < a.alias_texts().len() && a.alias_texts()[i] == normal;
    lemma_aliases_are_alias_like(a, i);
    let bare = model::without_affixes(model::folded(name));
    let n = bare.len() as int;
    assert(normal[0] == text::dashed_char(bare[0]));
    assert(normal[n - 2] == text::dashed_char(bare[n - 2]));
    assert(normal[n - 1] == text::dashed_char(bare[n - 1]));
    lemma_squeezing_keeps_ends(bare);
    lemma_prefix_and_squeezing(text::without_suffix(model::folded(name), ".bin"@));
    lemma_suffix_and_squeezing(model::folded(name));
    model::lemma_ends_tell_models_apart(a, b, normal, model::tightened(name));
}

/// Every alias of a checkpoint resolves to it, bare or as the file name `ggml-<alias>.bin`.
pub proof fn law_every_alias_resolves(model: WhisperModel, i: int)
    requires
        0 <= i < model.alias_texts().len(),
    ensures
        model::resolved(model.alias_texts()[i]) == Some(model),
        model::resolved("ggml-"@ + model.alias_texts()[i] + ".bin"@) == Some(model),
{
    let alias = model.alias_texts()[i];
    lemma_aliases_are_alias_like(model, i);
    lemma_alias_like_is_normal(alias);
    assert(model.answers_to(alias));
    law_resolution_follows_aliases(model, alias);
    law_resolution_follows_aliases(model, "ggml-"@ + alias + ".bin"@);
}

/// The id and the file name of a checkpoint resolve to it.
pub proof fn law_ids_and_file_names_resolve(model: WhisperModel)
    ensures
        model::resolved(model.id_text()) == Some(model),
        model::resolved(model.file_name_text()) == Some(model),
{
    law_every_alias_resolves(model, 0);
    assert(model.alias_texts()[0] == model.id_text());
}

/// Names that differ in ASCII case alone resolve alike.
pub proof fn law_case_is_ignored(a: Seq<char>, b: Seq<char>)
    requires
        text::ascii_lower(a) == text::ascii_lower(b),
    ensures
        model::resolved(a) == model::resolved(b),
{
    text::lemma_trimming_ignores_case(a);
    text::lemma_trimming_ignores_case(b);
}

/// White space around a name does not matter.
pub proof fn law_padding_is_ignored(before: Seq<char>, name: Seq<char>, after: Seq<char>)
    requires
        forall|i: int| 0 <= i < before.len() ==> text::is_white_space(#[trigger] before[i]),
        forall|i: int| 0 <= i < after.len() ==> text::is_white_space(#[trigger] after[i]),
    ensures
        model::resolved(before + name + after) == model::resolved(name),
{
    text::lemma_trimming_removes_padding(before, name, after);
}

/// A `ggml-` in front of a name that has none comes off again.
proof fn lemma_prefix_comes_off(name: Seq<char>)
    requires
        !"ggml-"@.is_prefix_of(name),
    ensures
        model::without_affixes("ggml-"@ + name) == model::without_affixes(name),
{
    reveal_strlit(".bin");
    reveal_strlit("ggml-");
    let prefix = "ggml-"@;
    let suffix = ".bin"@;
    let whole = prefix + name;
    let stem = text::without_suffix(name, suffix);
    assert(text::without_suffix(whole, suffix) =~= prefix + stem) by {
        if suffix.is_suffix_of(name) {
            assert(whole.subrange(whole.len() - 4, whole.len() as int) =~= name.subrange(
                name.len() - 4,
                name.len() as int,
            ));
        } else if suffix.is_suffix_of(whole) {
            let tail = whole.subrange(whole.len() - 4, whole.len() as int);
            assert(tail[0] == suffix[0]);
            if name.len() < 4 {
                assert(tail[0] == prefix[whole.len() - 4]);
            } else {
                assert(tail =~= name.subrange(name.len() - 4, name.len() as int));
            }
        }
    }
    assert(prefix.is_prefix_of(prefix + stem)) by {
        assert((prefix + stem).subrange(0, 5) =~= prefix);
    }
    assert((prefix + stem).skip(5) =~= stem);
    assert(stem =~= name.take(stem.len() as int));
    lemma_prefix_of_start(stem, name);
}

/// A leading `ggml-` does not matter: a name that has none, underscores and spaces aside, resolves
/// like the name behind one.
pub proof fn law_prefix_is_ignored(name: Seq<char>)
    requires
        text::is_trimmed(name),
        !"ggml-"@.is_prefix_of(text::squeezed(text::ascii_lower(name))),
    ensures
        model::resolved("ggml-"@ + name) == model::resolved(name),
{
    reveal_strlit("ggml-");
    let prefix = "ggml-"@;
    let lowered = text::ascii_lower(name);
    text::lemma_trimmed_is_kept(name);
    text::lemma_trimmed_is_kept(prefix + name);
    assert(text::ascii_lower(prefix + name) =~= prefix + lowered);
    lemma_affixes_are_squeezed();
    assert(!prefix.is_prefix_of(lowered)) by {
        if prefix.is_prefix_of(lowered) {
            let rest = lowered.skip(5);
            assert(prefix + rest =~= lowered);
            text::lemma_squeezing_parts(prefix, rest);
            assert(text::squeezed(lowered).subrange(0, 5) =~= prefix);
        }
    }
    lemma_prefix_comes_off(lowered);
    text::lemma_squeezing_parts(prefix, lowered);
    lemma_prefix_comes_off(text::squeezed(lowered));
}

/// A `.bin` behind a name that has none comes off again.
proof fn lemma_suffix_comes_off(name: Seq<char>)
    requires
        !".bin"@.is_suffix_of(name),
    ensures
        model::without_affixes(name + ".bin"@) == model::without_affixes(name),
{
    reveal_strlit(".bin");
    let suffix = ".bin"@;
    let whole = name + suffix;
    assert(suffix.is_suffix_of(whole)) by {
        assert(whole.subrange(whole.len() - 4, whole.len() as int) =~= suffix);
    }
    assert(whole.take(whole.len() - 4) =~= name);
}

/// A trailing `.bin` does not matter: a name that has none, underscores and spaces aside, resolves
/// like the name in front of one.
pub proof fn law_suffix_is_ignored(name: Seq<char>)
    requires
        text::is_trimmed(name),
        !".bin"@.is_suffix_of(text::squeezed(text::ascii_lower(name))),
    ensures
        model::resolved(name + ".bin"@) == model::resolved(name),
{
    reveal_strlit(".bin");
    let suffix = ".bin"@;
    let lowered = text::ascii_lower(name);
    text::lemma_trimmed_is_kept(name);
    text::lemma_trimmed_is_kept(name + suffix);
    assert(text::ascii_lower(name + suffix) =~= lowered + suffix);
    lemma_affixes_are_squeezed();
    assert(!suffix.is_suffix_of(lowered)) by {
        if suffix.is_suffix_of(lowered) {
            let rest = lowered.take(lowered.len() - 4);
            assert(rest + suffix =~= lowered);
            text::lemma_squeezing_parts(rest, suffix);
            let tight = text::squeezed(lowered);
            assert(tight.subrange(tight.len() - 4, tight.len() as int) =~= suffix);
        }
    }
    lemma_suffix_comes_off(lowered);
    text::lemma_squeezing_parts(lowered, suffix);
    lemma_suffix_comes_off(text::squeezed(lowered));
}

/// Underscores, spaces and dashes inside a name are interchangeable, except in a `ggml-` prefix: a
/// name that matches an alias with dashes for its separators matches it with any other.
pub proof fn law_separators_are_interchangeable(a: Seq<char>, b: Seq<char>)
    requires
        text::is_trimmed(a),
        text::is_trimmed(b),
        text::dashed(a) == text::dashed(b),
        "ggml-"@.is_prefix_of(text::ascii_lower(a)) == "ggml-"@.is_prefix_of(text::ascii_lower(b)),
        model::entry_for(model::normalized(a)) is Some,
    ensures
        model::resolved(a) == model::resolved(b),
{
    reveal_strlit(".bin");
    reveal_strlit("ggml-");
    text::lemma_trimmed_is_kept(a);
    text::lemma_trimmed_is_kept(b);
    let la = text::ascii_lower(a);
    let lb = text::ascii_lower(b);
    assert(text::dashed(a).len() == a.len());
    assert(text::dashed(b).len() == b.len());
    assert forall|i: int| 0 <= i < a.len() implies #[trigger] text::dashed_char(la[i])
        == text::dashed_char(lb[i]) by {
        assert(text::dashed(a)[i] == text::dashed_char(a[i]));
        assert(text::dashed(b)[i] == text::dashed_char(b[i]));
        assert(text::dashed_char(a[i]) == text::dashed_char(b[i]));
        if a[i] != b[i] {
            assert(text::ascii_lower_char(a[i]) == a[i]);
            assert(text::ascii_lower_char(b[i]) == b[i]);
        }
    }
    lemma_suffixes_agree(la, lb);
    lemma_suffixes_agree(lb, la);
    let stem_a = text::without_suffix(la, ".bin"@);
    let stem_b = text::without_suffix(lb, ".bin"@);
    assert(stem_a =~= la.take(stem_a.len() as int));
    assert(stem_b =~= lb.take(stem_b.len() as int));
    lemma_prefixes_agree(stem_a, la);
    lemma_prefixes_agree(stem_b, lb);
    let bare_a = model::without_affixes(la);
    let bare_b = model::without_affixes(lb);
    let cut = stem_a.len() - bare_a.len();
    assert forall|i: int| 0 <= i < bare_a.len() implies text::dashed(bare_a)[i] == text::dashed(
        bare_b,
    )[i] by {
        assert(bare_a[i] == la[i + cut] && bare_b[i] == lb[i + cut]);
    }
    assert(text::dashed(bare_a) =~= text::dashed(bare_b));
}

/// Texts that differ in separators alone both end in `.bin` or neither does.
proof fn lemma_suffixes_agree(a: Seq<char>, b: Seq<char>)
    requires
        a.len() == b.len(),
        forall|i: int| 0 <= i < a.len() ==> #[trigger] text::dashed_char(a[i]) == text::dashed_char(
            b[i],
        ),
    ensures
        ".bin"@.is_suffix_of(a) ==> ".bin"@.is_suffix_of(b),
{
    reveal_strlit(".bin");
    let suffix = ".bin"@;
    if suffix.is_suffix_of(a) {
        let n = a.len() as int;
        assert forall|k: int| 0 <= k < 4 implies b.subrange(n - 4, n)[k] == #[trigger] suffix[k] by {
            assert(a.subrange(n - 4, n)[k] == suffix[k]);
            assert(text::dashed_char(a[n - 4 + k]) == text::dashed_char(b[n - 4 + k]));
            assert(suffix[0] == '.' && suffix[1] == 'b' && suffix[2] == 'i' && suffix[3] == 'n');
        }
        assert(b.subrange(n - 4, n) =~= suffix);
    }
}

/// What starts a text that does not start with `ggml-` does not start with it either.
proof fn lemma_prefix_of_start(start: Seq<char>, whole: Seq<char>)
    requires
        start.len() <= whole.len(),
        start == whole.take(start.len() as int),
        !"ggml-"@.is_prefix_of(whole),
    ensures
        !"ggml-"@.is_prefix_of(start),
{
    reveal_strlit("ggml-");
    if "ggml-"@.is_prefix_of(start) {
        assert(whole.subrange(0, 5) =~= start.subrange(0, 5));
    }
}

/// A text and what is left of it without a `.bin` suffix both start with `ggml-` or neither does.
proof fn lemma_prefixes_agree(stem: Seq<char>, whole: Seq<char>)
    requires
        stem == text::without_suffix(whole, ".bin"@),
    ensures
        "ggml-"@.is_prefix_of(stem) == "ggml-"@.is_prefix_of(whole),
{
    reveal_strlit(".bin");
    reveal_strlit("ggml-");
    assert(stem =~= whole.take(stem.len() as int));
    if !"ggml-"@.is_prefix_of(whole) {
        lemma_prefix_of_start(stem, whole);
    } else if stem.len() >= 5 {
        assert(stem.subrange(0, 5) =~= whole.subrange(0, 5));
    } else {
        let n = whole.len() as int;
        assert(whole.subrange(n - 4, n)[0] == '.');
        assert(whole.subrange(0, 5)[n - 4] == "ggml-"@[n - 4]);
    }
}

/// The English-only checkpoints are those whose id ends in `.en`.
pub proof fn law_english_only_ids(model: WhisperModel)
    ensures
        model.is_english_only() <==> ".en"@.is_suffix_of(model.id_text()),
{
    reveal_strlit(".en");
    reveal_strlit("tiny");
    reveal_strlit("tiny.en");
    reveal_strlit("base");
    reveal_strlit("base.en");
    reveal_strlit("small");
    reveal_strlit("small.en");
    reveal_strlit("medium");
    reveal_strlit("medium.en");
    reveal_strlit("large-v1");
    reveal_strlit("large-v2");
    reveal_strlit("large-v3");
    reveal_strlit("large-v3-turbo");
    let id = model.id_text();
    let n = id.len() as int;
    if model.is_english_only() {
        assert(id.subrange(n - 3, n) =~= ".en"@);
    } else if ".en"@.is_suffix_of(id) {
        assert(id.subrange(n - 3, n)[0] == ".en"@[0]);
        assert(id[n - 3] == '.');
    }
}

/// These are the names that resolve, and what they resolve to: `normal` is the name with dashes for
/// its underscores and spaces, `tight` the name without them, both trimmed, lower-cased and without
/// the affixes of a file name. No other name resolves.
#[verifier::rlimit(50)]
pub proof fn law_documented_names_resolve(name: Seq<char>, normal: Seq<char>, tight: Seq<char>)
    requires
        normal == model::normalized(name),
        tight == model::tightened(name),
    ensures
        (normal == "tiny"@ || normal == "tiny-multi"@ || normal == "whisper-tiny"@ || tight == "tiny"@ || tight == "tiny-multi"@ || tight == "whisper-tiny"@)
            <==> model::resolved(name) == Some(WhisperModel::Tiny),
        (normal == "tiny.en"@ || normal == "tiny-en"@ || normal == "tinyen"@ || normal == "tiny-english"@ || tight == "tiny.en"@ || tight == "tiny-en"@ || tight == "tinyen"@ || tight == "tiny-english"@)
            <==> model::resolved(name) == Some(WhisperModel::TinyEn),
        (normal == "base"@ || normal == "base-multi"@ || normal == "whisper-base"@ || tight == "base"@ || tight == "base-multi"@ || tight == "whisper-base"@)
            <==> model::resolved(name) == Some(WhisperModel::Base),
        (normal == "base.en"@ || normal == "base-en"@ || normal == "baseen"@ || normal == "base-english"@ || tight == "base.en"@ || tight == "base-en"@ || tight == "baseen"@ || tight == "base-english"@)
            <==> model::resolved(name) == Some(WhisperModel::BaseEn),
        (normal == "small"@ || normal == "small-multi"@ || normal == "whisper-small"@ || tight == "small"@ || tight == "small-multi"@ || tight == "whisper-small"@)
            <==> model::resolved(name) == Some(WhisperModel::Small),
        (normal == "small.en"@ || normal == "small-en"@ || normal == "smallen"@ || normal == "small-english"@ || tight == "small.en"@ || tight == "small-en"@ || tight == "smallen"@ || tight == "small-english"@)
            <==> model::resolved(name) == Some(WhisperModel::SmallEn),
        (normal == "medium"@ || normal == "medium-multi"@ || normal == "whisper-medium"@ || tight == "medium"@ || tight == "medium-multi"@ || tight == "whisper-medium"@)
            <==> model::resolved(name) == Some(WhisperModel::Medium),
        (normal == "medium.en"@ || normal == "medium-en"@ || normal == "mediumen"@ || normal == "medium-english"@ || tight == "medium.en"@ || tight == "medium-en"@ || tight == "mediumen"@ || tight == "medium-english"@)
            <==> model::resolved(name) == Some(WhisperModel::MediumEn),
        (normal == "large-v1"@ || normal == "largev1"@ || normal == "large1"@ || tight == "large-v1"@ || tight == "largev1"@ || tight == "large1"@)
            <==> model::resolved(name) == Some(WhisperModel::LargeV1),
        (normal == "large-v2"@ || normal == "largev2"@ || normal == "large2"@ || tight == "large-v2"@ || tight == "largev2"@ || tight == "large2"@)
            <==> model::resolved(name) == Some(WhisperModel::LargeV2),
        (normal == "large-v3"@ || normal == "largev3"@ || normal == "large3"@ || normal == "large"@ || tight == "large-v3"@ || tight == "largev3"@ || tight == "large3"@ || tight == "large"@)
            <==> model::resolved(name) == Some(WhisperModel::LargeV3),
        (normal == "large-v3-turbo"@ || normal == "largev3turbo"@ || normal == "large-turbo"@ || normal == "turbo"@ || tight == "large-v3-turbo"@ || tight == "largev3turbo"@ || tight == "large-turbo"@ || tight == "turbo"@)
            <==> model::resolved(name) == Some(WhisperModel::LargeV3Turbo),
{
    law_resolution_follows_aliases(WhisperModel::Tiny, name);
    lemma_aliases_of(WhisperModel::Tiny, normal);
    lemma_aliases_of(WhisperModel::Tiny, tight);
    law_resolution_follows_aliases(WhisperModel::TinyEn, name);
    lemma_aliases_of(WhisperModel::TinyEn, normal);
    lemma_aliases_of(WhisperModel::TinyEn, tight);
    law_resolution_follows_aliases(WhisperModel::Base, name);
    lemma_aliases_of(WhisperModel::Base, normal);
    lemma_aliases_of(WhisperModel::Base, tight);
    law_resolution_follows_aliases(WhisperModel::BaseEn, name);
    lemma_aliases_of(WhisperModel::BaseEn, normal);
    lemma_aliases_of(WhisperModel::BaseEn, tight);
    law_resolution_follows_aliases(WhisperModel::Small, name);
    lemma_aliases_of(WhisperModel::Small, normal);
    lemma_aliases_of(WhisperModel::Small, tight);
    law_resolution_follows_aliases(WhisperModel::SmallEn, name);
    lemma_aliases_of(WhisperModel::SmallEn, normal);
    lemma_aliases_of(WhisperModel::SmallEn, tight);
    law_resolution_follows_aliases(WhisperModel::Medium, name);
    lemma_aliases_of(WhisperModel::Medium, normal);
    lemma_aliases_of(WhisperModel::Medium, tight);
    law_resolution_follows_aliases(WhisperModel::MediumEn, name);
    lemma_aliases_of(WhisperModel::MediumEn, normal);
    lemma_aliases_of(WhisperModel::MediumEn, tight);
    law_resolution_follows_aliases(WhisperModel::LargeV1, name);
    lemma_aliases_of(WhisperModel::LargeV1, normal);
    lemma_aliases_of(WhisperModel::LargeV1, tight);
    law_resolution_follows_aliases(WhisperModel::LargeV2, name);
    lemma_aliases_of(WhisperModel::LargeV2, normal);
    lemma_aliases_of(WhisperModel::LargeV2, tight);
    law_resolution_follows_aliases(WhisperModel::LargeV3, name);
    lemma_aliases_of(WhisperModel::LargeV3, normal);
    lemma_aliases_of(WhisperModel::LargeV3, tight);
    law_resolution_follows_aliases(WhisperModel::LargeV3Turbo, name);
    lemma_aliases_of(WhisperModel::LargeV3Turbo, normal);
    lemma_aliases_of(WhisperModel::LargeV3Turbo, tight);
}

/// A name that is one of these once its letters are small and its underscores and spaces dropped
/// resolves to the checkpoint it stands next to.
#[verifier::rlimit(50)]
pub proof fn law_names_users_write_resolve(name: Seq<char>, bare: Seq<char>)
    requires
        bare == text::squeezed(text::ascii_lower(name)),
    ensures
        bare == "tiny"@ || bare == "tiny-multi"@ || bare == "whisper-tiny"@
            ==> model::resolved(name) == Some(WhisperModel::Tiny),
        bare == "tiny.en"@ || bare == "tiny-en"@ || bare == "tinyen"@ || bare == "tiny-english"@
            ==> model::resolved(name) == Some(WhisperModel::TinyEn),
        bare == "base"@ || bare == "base-multi"@ || bare == "whisper-base"@
            ==> model::resolved(name) == Some(WhisperModel::Base),
        bare == "base.en"@ || bare == "base-en"@ || bare == "baseen"@ || bare == "base-english"@
            ==> model::resolved(name) == Some(WhisperModel::BaseEn),
        bare == "small"@ || bare == "small-multi"@ || bare == "whisper-small"@
            ==> model::resolved(name) == Some(WhisperModel::Small),
        bare == "small.en"@ || bare == "small-en"@ || bare == "smallen"@ || bare == "small-english"@
            ==> model::resolved(name) == Some(WhisperModel::SmallEn),
        bare == "medium"@ || bare == "medium-multi"@ || bare == "whisper-medium"@
            ==> model::resolved(name) == Some(WhisperModel::Medium),
        bare == "medium.en"@ || bare == "medium-en"@ || bare == "mediumen"@ || bare == "medium-english"@
            ==> model::resolved(name) == Some(WhisperModel::MediumEn),
        bare == "large-v1"@ || bare == "largev1"@ || bare == "large1"@
            ==> model::resolved(name) == Some(WhisperModel::LargeV1),
        bare == "large-v2"@ || bare == "largev2"@ || bare == "large2"@
            ==> model::resolved(name) == Some(WhisperModel::LargeV2),
        bare == "large-v3"@ || bare == "largev3"@ || bare == "large3"@ || bare == "large"@
            ==> model::resolved(name) == Some(WhisperModel::LargeV3),
        bare == "large-v3-turbo"@ || bare == "largev3turbo"@ || bare == "large-turbo"@ || bare == "turbo"@
            ==> model::resolved(name) == Some(WhisperModel::LargeV3Turbo),
{
    lemma_aliases_of(WhisperModel::Tiny, bare);
    if WhisperModel::Tiny.answers_to(bare) {
        law_underscores_and_spaces_are_ignored(WhisperModel::Tiny, bare, name);
    }
    lemma_aliases_of(WhisperModel::TinyEn, bare);
    if WhisperModel::TinyEn.answers_to(bare) {
        law_underscores_and_spaces_are_ignored(WhisperModel::TinyEn, bare, name);
    }
    lemma_aliases_of(WhisperModel::Base, bare);
    if WhisperModel::Base.answers_to(bare) {
        law_underscores_and_spaces_are_ignored(WhisperModel::Base, bare, name);
    }
    lemma_aliases_of(WhisperModel::BaseEn, bare);
    if WhisperModel::BaseEn.answers_to(bare) {
        law_underscores_and_spaces_are_ignored(WhisperModel::BaseEn, bare, name);
    }
    lemma_aliases_of(WhisperModel::Small, bare);
    if WhisperModel::Small.answers_to(bare) {
        law_underscores_and_spaces_are_ignored(WhisperModel::Small, bare, name);
    }
    lemma_aliases_of(WhisperModel::SmallEn, bare);
    if WhisperModel::SmallEn.answers_to(bare) {
        law_underscores_and_spaces_are_ignored(WhisperModel::SmallEn, bare, name);
    }
    lemma_aliases_of(WhisperModel::Medium, bare);
    if WhisperModel::Medium.answers_to(bare) {
        law_underscores_and_spaces_are_ignored(WhisperModel::Medium, bare, name);
    }
    lemma_aliases_of(WhisperModel::MediumEn, bare);
    if WhisperModel::MediumEn.answers_to(bare) {
        law_underscores_and_spaces_are_ignored(WhisperModel::MediumEn, bare, name);
    }
    lemma_aliases_of(WhisperModel::LargeV1, bare);
    if WhisperModel::LargeV1.answers_to(bare) {
        law_underscores_and_spaces_are_ignored(WhisperModel::LargeV1, bare, name);
    }
    lemma_aliases_of(WhisperModel::LargeV2, bare);
    if WhisperModel::LargeV2.answers_to(bare) {
        law_underscores_and_spaces_are_ignored(WhisperModel::LargeV2, bare, name);
    }
    lemma_aliases_of(WhisperModel::LargeV3, bare);
    if WhisperModel::LargeV3.answers_to(bare) {
        law_underscores_and_spaces_are_ignored(WhisperModel::LargeV3, bare, name);
    }
    lemma_aliases_of(WhisperModel::LargeV3Turbo, bare);
    if WhisperModel::LargeV3Turbo.answers_to(bare) {
        law_underscores_and_spaces_are_ignored(WhisperModel::LargeV3Turbo, bare, name);
    }
}

/// The aliases of each model.
#[verifier::rlimit(50)]
proof fn lemma_aliases_of(model: WhisperModel, name: Seq<char>)
    ensures
        model is Tiny ==> (model.answers_to(name) <==> name == "tiny"@ || name == "tiny-multi"@ || name == "whisper-tiny"@),
        model is TinyEn ==> (model.answers_to(name) <==> name == "tiny.en"@ || name == "tiny-en"@ || name == "tinyen"@ || name == "tiny-english"@),
        model is Base ==> (model.answers_to(name) <==> name == "base"@ || name == "base-multi"@ || name == "whisper-base"@),
        model is BaseEn ==> (model.answers_to(name) <==> name == "base.en"@ || name == "base-en"@ || name == "baseen"@ || name == "base-english"@),
        model is Small ==> (model.answers_to(name) <==> name == "small"@ || name == "small-multi"@ || name == "whisper-small"@),
        model is SmallEn ==> (model.answers_to(name) <==> name == "small.en"@ || name == "small-en"@ || name == "smallen"@ || name == "small-english"@),
        model is Medium ==> (model.answers_to(name) <==> name == "medium"@ || name == "medium-multi"@ || name == "whisper-medium"@),
        model is MediumEn ==> (model.answers_to(name) <==> name == "medium.en"@ || name == "medium-en"@ || name == "mediumen"@ || name == "medium-english"@),
        model is LargeV1 ==> (model.answers_to(name) <==> name == "large-v1"@ || name == "largev1"@ || name == "large1"@),
        model is LargeV2 ==> (model.answers_to(name) <==> name == "large-v2"@ || name == "largev2"@ || name == "large2"@),
        model is LargeV3 ==> (model.answers_to(name) <==> name == "large-v3"@ || name == "largev3"@ || name == "large3"@ || name == "large"@),
        model is LargeV3Turbo ==> (model.answers_to(name) <==> name == "large-v3-turbo"@ || name == "largev3turbo"@ || name == "large-turbo"@ || name == "turbo"@),
{
    let aliases = model.alias_texts();
    if model.answers_to(name) {
        let i = choose|i: int| 0 <= i < aliases.len() && aliases[i] == name;
        assert(aliases[i] == name);
    }
    assert(aliases.len() > 0 && aliases[0] == name ==> aliases.contains(name));
    assert(aliases.len() > 1 && aliases[1] == name ==> aliases.contains(name));
    assert(aliases.len() > 2 && aliases[2] == name ==> aliases.contains(name));
    assert(aliases.len() > 3 && aliases[3] == name ==> aliases.contains(name));
}

/// Every checkpoint has an id of its own, the one it is published under.
pub proof fn law_ids_are_those_published(model: WhisperModel)
    ensures
        model is Tiny <==> model.id_text() == "tiny"@,
        model is TinyEn <==> model.id_text() == "tiny.en"@,
        model is Base <==> model.id_text() == "base"@,
        model is BaseEn <==> model.id_text() == "base.en"@,
        model is Small <==> model.id_text() == "small"@,
        model is SmallEn <==> model.id_text() == "small.en"@,
        model is Medium <==> model.id_text() == "medium"@,
        model is MediumEn <==> model.id_text() == "medium.en"@,
        model is LargeV1 <==> model.id_text() == "large-v1"@,
        model is LargeV2 <==> model.id_text() == "large-v2"@,
        model is LargeV3 <==> model.id_text() == "large-v3"@,
        model is LargeV3Turbo <==> model.id_text() == "large-v3-turbo"@,
{
    lemma_ids_are_distinct(model, WhisperModel::Tiny);
    lemma_ids_are_distinct(model, WhisperModel::TinyEn);
    lemma_ids_are_distinct(model, WhisperModel::Base);
    lemma_ids_are_distinct(model, WhisperModel::BaseEn);
    lemma_ids_are_distinct(model, WhisperModel::Small);
    lemma_ids_are_distinct(model, WhisperModel::SmallEn);
    lemma_ids_are_distinct(model, WhisperModel::Medium);
    lemma_ids_are_distinct(model, WhisperModel::MediumEn);
    lemma_ids_are_distinct(model, WhisperModel::LargeV1);
    lemma_ids_are_distinct(model, WhisperModel::LargeV2);
    lemma_ids_are_distinct(model, WhisperModel::LargeV3);
    lemma_ids_are_distinct(model, WhisperModel::LargeV3Turbo);
}

/// Checkpoints with the same id are the same.
proof fn lemma_ids_are_distinct(a: WhisperModel, b: WhisperModel)
    ensures
        a.id_text() == b.id_text() ==> a == b,
{
    assert(a.alias_texts()[0] == a.id_text());
    assert(b.alias_texts()[0] == b.id_text());
    if a.id_text() == b.id_text() {
        assert(a.answers_to(a.id_text()) && b.answers_to(a.id_text()));
        model::lemma_aliases_are_unambiguous(a, b, a.id_text());
    }
}

/// A checkpoint is downloaded from the repository under the name it is stored under: behind its last
/// slash, the URL is the file name, which is the id between `ggml-` and `.bin`.
pub proof fn law_urls_end_in_the_file_name(model: WhisperModel)
    ensures
        model.url_text() == "https://huggingface.co/ggerganov/whisper.cpp/resolve/main"@ + "/"@
            + model.file_name_text(),
        path::file_name_of(model.url_text()) == Some(model.file_name_text()),
        model.file_name_text() == "ggml-"@ + model.id_text() + ".bin"@,
        model.stem_text() == "ggml-"@ + model.id_text(),
{
    reveal_strlit("/");
    assert("/"@ =~= seq!['/']);
    reveal_strlit("https://huggingface.co/ggerganov/whisper.cpp/resolve/main");
    let repository = "https://huggingface.co/ggerganov/whisper.cpp/resolve/main"@;
    let name = model.file_name_text();
    crate::downloads::lemma_checkpoint_names_are_plain(model);
    path::law_joined_name_is_the_file_name(repository, name);
    assert(repository.last() == 'n');
    assert(path::joined(repository, name) =~= model.url_text());
}

/// No two checkpoints share an id, a file name or a URL.
pub proof fn law_checkpoints_are_told_apart(a: WhisperModel, b: WhisperModel)
    ensures
        a.id_text() == b.id_text() ==> a == b,
        a.file_name_text() == b.file_name_text() ==> a == b,
        a.url_text() == b.url_text() ==> a == b,
{
    lemma_ids_are_distinct(a, b);
    law_urls_end_in_the_file_name(a);
    law_urls_end_in_the_file_name(b);
    if a.file_name_text() == b.file_name_text() {
        let n = a.file_name_text().len() as int;
        reveal_strlit("ggml-");
        reveal_strlit(".bin");
        assert(a.file_name_text().subrange(5, n - 4) =~= a.id_text());
        assert(b.file_name_text().subrange(5, n - 4) =~= b.id_text());
    }
}

/// Presets go by the name of their checkpoint.
pub proof fn law_presets_are_named_like_their_model(model: WhisperModel)
    ensures
        model is Tiny <==> model.preset() is Tiny,
        model is TinyEn <==> model.preset() is TinyEn,
        model is Base <==> model.preset() is Base,
        model is BaseEn <==> model.preset() is BaseEn,
        model is Small <==> model.preset() is Small,
        model is SmallEn <==> model.preset() is SmallEn,
        model is Medium <==> model.preset() is Medium,
        model is MediumEn <==> model.preset() is MediumEn,
        model is LargeV1 <==> model.preset() is LargeV1,
        model is LargeV2 <==> model.preset() is LargeV2,
        model is LargeV3 <==> model.preset() is LargeV3,
        model is LargeV3Turbo <==> model.preset() is LargeV3Turbo,
{
}

/// Whether `word` occurs in `s`.
pub open spec fn holds_word(s: Seq<char>, word: Seq<char>) -> bool {
    exists|k: int| #[trigger] is_word_at(s, word, k)
}

/// Whether `word` occurs in `s` at `k`.
pub open spec fn is_word_at(s: Seq<char>, word: Seq<char>, k: int) -> bool {
    0 <= k && k + word.len() <= s.len() && s.subrange(k, k + word.len()) == word
}

/// A name means what it says: one that holds the word for a size, or the number of a version, or
/// says that it is English or multilingual, resolves to such a checkpoint or to nothing.
#[verifier::rlimit(50)]
pub proof fn law_names_mean_what_they_say(name: Seq<char>, model: WhisperModel, lowered: Seq<char>)
    requires
        lowered == text::ascii_lower(name),
        model::resolved(name) == Some(model),
    ensures
        holds_word(lowered, "tiny"@) ==> model is Tiny || model is TinyEn,
        holds_word(lowered, "base"@) ==> model is Base || model is BaseEn,
        holds_word(lowered, "small"@) ==> model is Small || model is SmallEn,
        holds_word(lowered, "medium"@) ==> model is Medium || model is MediumEn,
        holds_word(lowered, "large"@) ==> model is LargeV1 || model is LargeV2 || model is LargeV3
            || model is LargeV3Turbo,
        holds_word(lowered, "turbo"@) ==> model is LargeV3Turbo,
        holds_word(lowered, "1"@) ==> model is LargeV1,
        holds_word(lowered, "2"@) ==> model is LargeV2,
        holds_word(lowered, "3"@) ==> model is LargeV3 || model is LargeV3Turbo,
        holds_word(lowered, "en"@) ==> model is TinyEn || model is BaseEn || model is SmallEn
            || model is MediumEn,
        holds_word(lowered, "multi"@) || holds_word(lowered, "whisper"@) ==> !(model is TinyEn
            || model is BaseEn || model is SmallEn || model is MediumEn),
{
    assert(holds_word(lowered, "tiny"@) ==> model is Tiny || model is TinyEn) by {
        if holds_word(lowered, "tiny"@) {
            reveal_strlit("tiny");
            reveal_strlit(".bin");
            reveal_strlit("ggml-");
            let (alias, k) = lemma_word_of_an_alias(name, model, "tiny"@);
            assert(alias[k + 3] == "tiny"@[3]);
        }
    }
    assert(holds_word(lowered, "base"@) ==> model is Base || model is BaseEn) by {
        if holds_word(lowered, "base"@) {
            reveal_strlit("base");
            reveal_strlit(".bin");
            reveal_strlit("ggml-");
            let (alias, k) = lemma_word_of_an_alias(name, model, "base"@);
            assert(alias[k + 0] == "base"@[0]);
            assert(alias[k + 0 + 1] == "base"@[1]);
        }
    }
    assert(holds_word(lowered, "small"@) ==> model is Small || model is SmallEn) by {
        if holds_word(lowered, "small"@) {
            reveal_strlit("small");
            reveal_strlit(".bin");
            reveal_strlit("ggml-");
            let (alias, k) = lemma_word_of_an_alias(name, model, "small"@);
            assert(alias[k + 0] == "small"@[0]);
            assert(alias[k + 0 + 1] == "small"@[1]);
        }
    }
    assert(holds_word(lowered, "medium"@) ==> model is Medium || model is MediumEn) by {
        if holds_word(lowered, "medium"@) {
            reveal_strlit("medium");
            reveal_strlit(".bin");
            reveal_strlit("ggml-");
            let (alias, k) = lemma_word_of_an_alias(name, model, "medium"@);
            assert(alias[k + 2] == "medium"@[2]);
        }
    }
    assert(holds_word(lowered, "large"@) ==> model is LargeV1 || model is LargeV2 || model is LargeV3
        || model is LargeV3Turbo) by {
        if holds_word(lowered, "large"@) {
            reveal_strlit("large");
            reveal_strlit(".bin");
            reveal_strlit("ggml-");
            let (alias, k) = lemma_word_of_an_alias(name, model, "large"@);
            assert(alias[k + 2] == "large"@[2]);
            assert(alias[k + 2 + 1] == "large"@[3]);
        }
    }
    assert(holds_word(lowered, "turbo"@) ==> model is LargeV3Turbo) by {
        if holds_word(lowered, "turbo"@) {
            reveal_strlit("turbo");
            reveal_strlit(".bin");
            reveal_strlit("ggml-");
            let (alias, k) = lemma_word_of_an_alias(name, model, "turbo"@);
            assert(alias[k + 4] == "turbo"@[4]);
        }
    }
    assert(holds_word(lowered, "1"@) ==> model is LargeV1) by {
        if holds_word(lowered, "1"@) {
            reveal_strlit("1");
            reveal_strlit(".bin");
            reveal_strlit("ggml-");
            let (alias, k) = lemma_word_of_an_alias(name, model, "1"@);
            assert(alias[k + 0] == "1"@[0]);
        }
    }
    assert(holds_word(lowered, "2"@) ==> model is LargeV2) by {
        if holds_word(lowered, "2"@) {
            reveal_strlit("2");
            reveal_strlit(".bin");
            reveal_strlit("ggml-");
            let (alias, k) = lemma_word_of_an_alias(name, model, "2"@);
            assert(alias[k + 0] == "2"@[0]);
        }
    }
    assert(holds_word(lowered, "3"@) ==> model is LargeV3 || model is LargeV3Turbo) by {
        if holds_word(lowered, "3"@) {
            reveal_strlit("3");
            reveal_strlit(".bin");
            reveal_strlit("ggml-");
            let (alias, k) = lemma_word_of_an_alias(name, model, "3"@);
            assert(alias[k + 0] == "3"@[0]);
        }
    }
    assert(holds_word(lowered, "en"@) ==> model.is_english_only()) by {
        if holds_word(lowered, "en"@) {
            reveal_strlit("en");
            reveal_strlit(".bin");
            reveal_strlit("ggml-");
            let (alias, k) = lemma_word_of_an_alias(name, model, "en"@);
            assert(alias[k + 0] == "en"@[0]);
            assert(alias[k + 0 + 1] == "en"@[1]);
        }
    }
    assert(holds_word(lowered, "multi"@) ==> !model.is_english_only()) by {
        if holds_word(lowered, "multi"@) {
            reveal_strlit("multi");
            reveal_strlit(".bin");
            reveal_strlit("ggml-");
            let (alias, k) = lemma_word_of_an_alias(name, model, "multi"@);
            assert(alias[k + 1] == "multi"@[1]);
            assert(alias[k + 1 + 1] == "multi"@[2]);
        }
    }
    assert(holds_word(lowered, "whisper"@) ==> !model.is_english_only()) by {
        if holds_word(lowered, "whisper"@) {
            reveal_strlit("whisper");
            reveal_strlit(".bin");
            reveal_strlit("ggml-");
            let (alias, k) = lemma_word_of_an_alias(name, model, "whisper"@);
            assert(alias[k + 0] == "whisper"@[0]);
        }
    }
}

/// A sturdy word of a name that resolves is part of an alias of the checkpoint.
proof fn lemma_word_of_an_alias(name: Seq<char>, model: WhisperModel, word: Seq<char>) -> (found: (
    Seq<char>,
    int,
))
    requires
        model::resolved(name) == Some(model),
        holds_word(text::ascii_lower(name), word),
        is_sturdy(word),
    ensures
        speaks_for(found.0, model),
        0 <= found.1,
        found.1 + word.len() <= found.0.len(),
        forall|i: int| 0 <= i < word.len() ==> found.0[found.1 + i] == #[trigger] word[i],
{
    law_resolution_follows_aliases(model, name);
    let alias = if model.answers_to(model::normalized(name)) {
        model::normalized(name)
    } else {
        model::tightened(name)
    };
    let i = choose|i: int| 0 <= i < model.alias_texts().len() && model.alias_texts()[i] == alias;
    lemma_aliases_are_alias_like(model, i);
    (alias, lemma_word_survives(name, word, alias))
}

/// Whether `word` is out of the way of what normalizing changes: it has no white space and no
/// underscore in it, and cannot overlap with an affix.
spec fn is_sturdy(word: Seq<char>) -> bool {
    &&& word.len() > 0
    &&& forall|i: int| 0 <= i < word.len() ==> !text::is_white_space(#[trigger] word[i])
    &&& forall|i: int| 0 <= i < word.len() ==> #[trigger] word[i] != '_'
    &&& forall|j: int|
        0 <= j < 4 && #[trigger] ".bin"@[j] == word[word.len() - 1] ==> 0 < j && word.len() >= 2
            && ".bin"@[j - 1] != word[word.len() - 2]
    &&& forall|j: int|
        0 <= j < 5 && #[trigger] "ggml-"@[j] == word[0] ==> j < 4 && word.len() >= 2 && "ggml-"@[j
            + 1] != word[1]
}

/// A sturdy word of a name is still there in both forms the name is looked up in.
proof fn lemma_word_survives(name: Seq<char>, word: Seq<char>, form: Seq<char>) -> (k: int)
    requires
        holds_word(text::ascii_lower(name), word),
        is_sturdy(word),
        form == model::normalized(name) || form == model::tightened(name),
    ensures
        is_word_at(form, word, k),
        0 <= k,
        k + word.len() <= form.len(),
        forall|i: int| 0 <= i < word.len() ==> form[k + i] == #[trigger] word[i],
{
    let lowered = text::ascii_lower(name);
    text::lemma_trimming_ignores_case(name);
    let folded = model::folded(name);
    lemma_word_survives_trimming(lowered, word);
    let result = if form == model::normalized(name) {
        lemma_word_survives_stripping(folded, word);
        let bare = model::without_affixes(folded);
        let k = choose|k: int| #[trigger] is_word_at(bare, word, k);
        assert forall|i: int| 0 <= i < word.len() implies form.subrange(k, k + word.len())[i]
            == #[trigger] word[i] by {
            assert(bare.subrange(k, k + word.len())[i] == word[i]);
            assert(!text::is_white_space(word[i]) && word[i] != '_');
            assert(text::dashed(bare)[k + i] == text::dashed_char(bare[k + i]));
        }
        assert(form.subrange(k, k + word.len()) =~= word);
        k
    } else {
        let k = choose|k: int| #[trigger] is_word_at(folded, word, k);
        let before = folded.take(k);
        let after = folded.skip(k + word.len());
        assert(before + word + after =~= folded);
        text::lemma_squeezing_parts(before + word, after);
        text::lemma_squeezing_parts(before, word);
        assert forall|i: int| 0 <= i < word.len() implies #[trigger] word[i] != '_' && word[i]
            != ' ' by {
            assert(!text::is_white_space(word[i]));
        }
        text::lemma_squeezed_is_kept(word);
        let tight = text::squeezed(folded);
        let at = text::squeezed(before).len() as int;
        assert(tight.subrange(at, at + word.len()) =~= word);
        assert(is_word_at(tight, word, at));
        lemma_word_survives_stripping(tight, word);
        choose|k: int| #[trigger] is_word_at(form, word, k)
    };
    assert forall|i: int| 0 <= i < word.len() implies form[result + i] == #[trigger] word[i] by {
        assert(form.subrange(result, result + word.len())[i] == word[i]);
    }
    result
}

/// Trimming does not touch a word without white space.
proof fn lemma_word_survives_trimming(s: Seq<char>, word: Seq<char>)
    requires
        holds_word(s, word),
        is_sturdy(word),
    ensures
        holds_word(text::trimmed(s), word),
{
    text::law_trimming_takes_white_space_off_the_ends(s);
    let kept = text::trimmed(s);
    let (before, after) = choose|before: Seq<char>, after: Seq<char>|
        {
            &&& s == #[trigger] (before + kept + after)
            &&& forall|i: int| 0 <= i < before.len() ==> text::is_white_space(#[trigger] before[i])
            &&& forall|i: int| 0 <= i < after.len() ==> text::is_white_space(#[trigger] after[i])
        };
    let k = choose|k: int| #[trigger] is_word_at(s, word, k);
    let m = word.len() as int;
    let b = before.len() as int;
    assert(s.subrange(k, k + m)[0] == word[0]);
    assert(s.subrange(k, k + m)[m - 1] == word[m - 1]);
    if k < b {
        assert(s[k] == before[k]);
    }
    if k + m > b + kept.len() {
        assert(s[k + m - 1] == after[k + m - 1 - b - kept.len()]);
    }
    assert(kept.subrange(k - b, k - b + m) =~= s.subrange(k, k + m));
    assert(is_word_at(kept, word, k - b));
}

/// Taking affixes off does not touch a word that cannot overlap with them.
proof fn lemma_word_survives_stripping(s: Seq<char>, word: Seq<char>)
    requires
        holds_word(s, word),
        is_sturdy(word),
    ensures
        holds_word(model::without_affixes(s), word),
{
    reveal_strlit(".bin");
    reveal_strlit("ggml-");
    let prefix = "ggml-"@;
    let suffix = ".bin"@;
    let m = word.len() as int;
    let n = s.len() as int;
    let k = choose|k: int| #[trigger] is_word_at(s, word, k);
    assert(s.subrange(k, k + m)[m - 1] == word[m - 1]);
    let stem = text::without_suffix(s, suffix);
    if suffix.is_suffix_of(s) && k + m > n - 4 {
        let j = k + m - 1 - (n - 4);
        assert(s.subrange(n - 4, n)[j] == suffix[j]);
        assert(suffix[j] == word[m - 1]);
        assert(s.subrange(k, k + m)[m - 2] == word[m - 2]);
        assert(s.subrange(n - 4, n)[j - 1] == suffix[j - 1]);
    }
    assert(stem.subrange(k, k + m) =~= s.subrange(k, k + m));
    assert(is_word_at(stem, word, k));
    assert(stem.subrange(k, k + m)[0] == word[0]);
    if prefix.is_prefix_of(stem) {
        if k < 5 {
            assert(stem.subrange(0, 5)[k] == prefix[k]);
            assert(prefix[k] == word[0]);
            assert(stem.subrange(k, k + m)[1] == word[1]);
            assert(stem.subrange(0, 5)[k + 1] == prefix[k + 1]);
        }
        let bare = stem.skip(5);
        assert(bare.subrange(k - 5, k - 5 + m) =~= stem.subrange(k, k + m));
        assert(is_word_at(bare, word, k - 5));
    }
}

/// The sizes of [`model_handler`] name the same files as the catalogue.
pub proof fn law_sizes_agree_with_the_catalogue(size: Seq<char>)
    requires
        model_handler::size_stem(size) is Some,
    ensures
        model::resolved(size) matches Some(model) && model.stem_text() == model_handler::size_stem(
            size,
        )->0,
{
    law_every_alias_resolves(WhisperModel::Tiny, 0);
    law_every_alias_resolves(WhisperModel::Base, 0);
    law_every_alias_resolves(WhisperModel::Small, 0);
    law_every_alias_resolves(WhisperModel::Medium, 0);
    law_every_alias_resolves(WhisperModel::LargeV3, 3);
    model::lemma_stems_follow_ids(WhisperModel::Tiny);
    model::lemma_stems_follow_ids(WhisperModel::Base);
    model::lemma_stems_follow_ids(WhisperModel::Small);
    model::lemma_stems_follow_ids(WhisperModel::Medium);
    model::lemma_stems_follow_ids(WhisperModel::LargeV3);
}

} // verus!
