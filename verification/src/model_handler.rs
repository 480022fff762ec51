//! The handler for the five checkpoints that go by a bare size: `tiny`, `base`, `small`, `medium`
//! and `large`.

use vstd::prelude::*;

use crate::model::MODEL_REPO_URL;
use crate::text;

verus! {

/// A checkpoint in a models directory.
#[derive(Debug, Clone)]
pub struct ModelHandler {
    model_name: String,
    models_dir: String,
}

/// The model of a [`ModelHandler`].
pub struct HandlerView {
    /// File stem of the checkpoint.
    pub stem: Seq<char>,
    /// The models directory.
    pub dir: Seq<char>,
}

impl HandlerView {
    /// Where the checkpoint lives on disk.
    pub open spec fn path(self) -> Seq<char> {
        self.dir + "/"@ + self.stem + ".bin"@
    }

    /// Where the checkpoint can be downloaded.
    pub open spec fn url(self) -> Seq<char> {
        MODEL_REPO_URL@ + "/"@ + self.stem + ".bin"@
    }
}

impl View for ModelHandler {
    type V = HandlerView;

    closed spec fn view(&self) -> HandlerView {
        HandlerView { stem: self.model_name@, dir: self.models_dir@ }
    }
}

/// The file stem that goes with a size, written in lower case.
pub open spec fn size_stem(size: Seq<char>) -> Option<Seq<char>> {
    if size == "tiny"@ {
        Some("ggml-tiny"@)
    } else if size == "base"@ {
        Some("ggml-base"@)
    } else if size == "small"@ {
        Some("ggml-small"@)
    } else if size == "medium"@ {
        Some("ggml-medium"@)
    } else if size == "large"@ {
        Some("ggml-large-v3"@)
    } else {
        None
    }
}

/// The Unicode lower-case form of a text.
pub uninterp spec fn unicode_lower(s: Seq<char>) -> Seq<char>;

/// Calls `str::to_lowercase` of the standard library.
///
/// The result is the Unicode lower-case form of the text, named `unicode_lower`. Of a text that is
/// all ASCII, it is the text with its ASCII letters lower-cased; of any other text nothing more is
/// claimed.
#[verifier::external_body]
fn to_lowercase(s: &str) -> (lowered: String)
    ensures
        lowered@ == unicode_lower(s@),
        vstd::utf8::is_ascii_chars(s@) ==> lowered@ == text::ascii_lower(s@),
{
    s.to_lowercase()
}

/// What it takes to bring a missing checkpoint onto disk.
#[derive(Debug)]
pub struct Fetch {
    /// The directory to create if it is missing.
    pub dir: String,
    /// The URL to download from.
    pub url: String,
    /// The file to write.
    pub path: String,
}

impl ModelHandler {
    /// The file stem that goes with a size, written in lower case.
    pub fn stem_for(size: &str) -> (stem: Option<&'static str>)
        ensures
            stem is Some == size_stem(size@) is Some,
            stem matches Some(found) ==> found@ == size_stem(size@)->0,
            size@ == "tiny"@ ==> (stem matches Some(found) && found@ == "ggml-tiny"@),
            size@ == "base"@ ==> (stem matches Some(found) && found@ == "ggml-base"@),
            size@ == "small"@ ==> (stem matches Some(found) && found@ == "ggml-small"@),
            size@ == "medium"@ ==> (stem matches Some(found) && found@ == "ggml-medium"@),
            size@ == "large"@ ==> (stem matches Some(found) && found@ == "ggml-large-v3"@),
            stem is Some ==> size@ == "tiny"@ || size@ == "base"@ || size@ == "small"@ || size@ == "medium"@ || size@ == "large"@,
    {
        proof {
            law_the_sizes_have_their_stems(size@);
        }
        if text::same_text(size, "tiny") {
            Some("ggml-tiny")
        } else if text::same_text(size, "base") {
            Some("ggml-base")
        } else if text::same_text(size, "small") {
            Some("ggml-small")
        } else if text::same_text(size, "medium") {
            Some("ggml-medium")
        } else if text::same_text(size, "large") {
            Some("ggml-large-v3")
        } else {
            None
        }
    }

    /// The handler for the checkpoint called `model_name` in `models_dir`.
    ///
    /// # Errors
    ///
    /// Returns a message when the name is not one of the five sizes.
    pub fn resolve(model_name: &str, models_dir: &str) -> (handler: Result<ModelHandler, String>)
        ensures
            match size_stem(unicode_lower(text::trimmed(model_name@))) {
                Some(stem) => handler matches Ok(found) && found@ == (HandlerView {
                    stem,
                    dir: models_dir@,
                }),
                None => handler matches Err(message) && message@ == "Model 'ggml-"@ + model_name@
                    + "' not found"@,
            },
            handler matches Ok(found) ==> found@.dir == models_dir@,
            unicode_lower(text::trimmed(model_name@)) == "tiny"@ ==> (handler matches Ok(found)
                && found@.stem == "ggml-tiny"@),
            unicode_lower(text::trimmed(model_name@)) == "base"@ ==> (handler matches Ok(found)
                && found@.stem == "ggml-base"@),
            unicode_lower(text::trimmed(model_name@)) == "small"@ ==> (handler matches Ok(found)
                && found@.stem == "ggml-small"@),
            unicode_lower(text::trimmed(model_name@)) == "medium"@ ==> (handler matches Ok(found)
                && found@.stem == "ggml-medium"@),
            unicode_lower(text::trimmed(model_name@)) == "large"@ ==> (handler matches Ok(found)
                && found@.stem == "ggml-large-v3"@),
            handler is Ok ==> unicode_lower(text::trimmed(model_name@)) == "tiny"@ || unicode_lower(text::trimmed(model_name@)) == "base"@ || unicode_lower(text::trimmed(model_name@)) == "small"@ || unicode_lower(text::trimmed(model_name@)) == "medium"@ || unicode_lower(text::trimmed(model_name@)) == "large"@,
            vstd::utf8::is_ascii_chars(text::trimmed(model_name@)) ==> unicode_lower(
                text::trimmed(model_name@),
            ) == text::ascii_lower(text::trimmed(model_name@)),
    {
        proof {
            law_the_sizes_have_their_stems(unicode_lower(text::trimmed(model_name@)));
        }
        let trimmed = text::trim(model_name);
        let size = to_lowercase(trimmed.as_str());
        match Self::stem_for(size.as_str()) {
            Some(stem) => Ok(
                ModelHandler { model_name: stem.to_owned(), models_dir: models_dir.to_owned() },
            ),
            None => Err(text::concat3("Model 'ggml-", model_name, "' not found")),
        }
    }

    /// Path of the model file.
    pub fn get_model_dir(&self) -> (path: String)
        ensures
            path@ == self@.path(),
            path@ == self@.dir + "/"@ + self@.stem + ".bin"@,
    {
        let dir = text::concat2(self.models_dir.as_str(), "/");
        text::concat3(dir.as_str(), self.model_name.as_str(), ".bin")
    }

    /// Direct download URL of the checkpoint.
    pub fn download_url(&self) -> (url: String)
        ensures
            url@ == self@.url(),
            url@ == "https://huggingface.co/ggerganov/whisper.cpp/resolve/main"@ + "/"@ + self@.stem
                + ".bin"@,
    {
        let repo = text::concat2(MODEL_REPO_URL, "/");
        text::concat3(repo.as_str(), self.model_name.as_str(), ".bin")
    }

    /// What is left to do when the model file is `present` or not.
    pub fn prepare(&self, present: bool) -> (fetch: Option<Fetch>)
        ensures
            present ==> fetch is None,
            !present ==> (fetch matches Some(missing) && {
                &&& missing.dir@ == self@.dir
                &&& missing.url@ == self@.url()
                &&& missing.path@ == self@.path()
            }),
            fetch matches Some(missing) ==> {
                &&& missing.url@ == "https://huggingface.co/ggerganov/whisper.cpp/resolve/main"@
                    + "/"@ + self@.stem + ".bin"@
                &&& missing.path@ == self@.dir + "/"@ + self@.stem + ".bin"@
            },
    {
        if present {
            None
        } else {
            Some(
                Fetch {
                    dir: self.models_dir.clone(),
                    url: self.download_url(),
                    path: self.get_model_dir(),
                },
            )
        }
    }
}

/// The five sizes and no other text have a stem: `ggml-` and the size, and for `large` the third
/// version of it.
pub proof fn law_the_sizes_have_their_stems(size: Seq<char>)
    ensures
        size == "tiny"@ ==> size_stem(size) == Some("ggml-tiny"@),
        size == "base"@ ==> size_stem(size) == Some("ggml-base"@),
        size == "small"@ ==> size_stem(size) == Some("ggml-small"@),
        size == "medium"@ ==> size_stem(size) == Some("ggml-medium"@),
        size == "large"@ ==> size_stem(size) == Some("ggml-large-v3"@),
        size_stem(size) is Some ==> size == "tiny"@ || size == "base"@ || size == "small"@ || size == "medium"@ || size == "large"@,
{
    reveal_strlit("tiny");
    reveal_strlit("base");
    reveal_strlit("small");
    reveal_strlit("medium");
    reveal_strlit("large");
    assert("tiny"@[0] == 't' && "base"@[0] == 'b' && "small"@[0] == 's' && "medium"@[0] == 'm'
        && "large"@[0] == 'l');
}

/// A checkpoint is fetched under the name it is stored under, into its directory.
pub proof fn law_files_are_fetched_under_their_name(handler: HandlerView)
    ensures
        handler.path() == handler.dir + "/"@ + handler.stem + ".bin"@,
        handler.url() == "https://huggingface.co/ggerganov/whisper.cpp/resolve/main"@ + "/"@
            + handler.stem + ".bin"@,
{
}

} // verus!
