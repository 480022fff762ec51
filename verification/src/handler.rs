//! Wrapper around [`ModelStore`] for callers that have a model name rather than a
//! [`WhisperModel`].
//!
//! New code should reach for [`ModelStore`] directly: [`WhisperModel`] gives compile-time
//! guarantees that a string model name cannot.

use vstd::prelude::*;

use crate::error::{Error, Result};
use crate::model;
use crate::model::{ModelSource, SourceView, WhisperModel};
use crate::path;
use crate::store;
use crate::store::{ModelStore, StoreView};

verus! {

/// Thin shim around a [`ModelStore`] for a checkpoint of the catalogue.
#[derive(Debug, Clone)]
pub struct ModelHandler {
    store: ModelStore,
}

impl View for ModelHandler {
    type V = StoreView;

    closed spec fn view(&self) -> StoreView {
        self.store@
    }
}

impl ModelHandler {
    /// Handlers are always created from the catalogue.
    pub open spec fn wf(&self) -> bool {
        self@.source is Pretrained
    }

    /// Resolves a model name to a handler for a checkpoint in `models_dir`.
    ///
    /// The name is resolved with [`WhisperModel::from_name`], so all of `"tiny"`, `"Tiny"`,
    /// `"medium.en"`, `"large-v3-turbo"`, and `"large"` work. Whether the checkpoint is on disk is
    /// up to [`ModelStore::ensure`].
    ///
    /// # Errors
    ///
    /// Returns [`Error::UnknownModel`] for unresolvable names.
    pub fn resolve(model_name: &str, models_dir: &str) -> (handler: Result<ModelHandler>)
        ensures
            match model::resolved(model_name@) {
                Some(model) => handler matches Ok(found) && found.wf() && found@ == store::store_of(
                    SourceView::Pretrained(model),
                    models_dir@,
                ),
                None => handler matches Err(Error::UnknownModel(unknown)) && unknown@
                    == model_name@,
            },
            handler matches Ok(found) ==> found@.dir == models_dir@ && (found@.source matches
                SourceView::Pretrained(model) && model::resolved(model_name@) == Some(model)
                && found@.path == path::joined(models_dir@, model.file_name_text())),
    {
        match ModelStore::from_name(model_name, models_dir) {
            Ok(store) => Ok(ModelHandler { store }),
            Err(error) => Err(error),
        }
    }

    /// The underlying store.
    pub fn store(&self) -> (store: &ModelStore)
        ensures
            store@ == self@,
    {
        &self.store
    }

    /// The checkpoint this handler was created for.
    pub fn model(&self) -> (model: WhisperModel)
        requires
            self.wf(),
        ensures
            self@.source == SourceView::Pretrained(model),
    {
        match self.store.source() {
            ModelSource::Pretrained(model) => *model,
            ModelSource::File(_) => {
                assert(false);
                WhisperModel::Tiny
            },
        }
    }

    /// Path of the model file, as a `String`.
    pub fn get_model_dir(&self) -> (path: String)
        ensures
            path@ == self@.path,
    {
        self.store.path()
    }

    /// Path of the model file.
    pub fn path(&self) -> (path: String)
        ensures
            path@ == self@.path,
    {
        self.store.path()
    }

    /// Path of the model file, borrowed.
    pub fn as_ref(&self) -> (path: &str)
        ensures
            path@ == self@.path,
    {
        self.store.as_ref()
    }
}

} // verus!
