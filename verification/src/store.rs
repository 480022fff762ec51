//! Model storage: resolves where a ggml checkpoint lives and steers its download when needed.
//!
//! Nothing here touches the network or writes to disk. A [`Download`] says what to do next and is
//! told what came of it.

use vstd::prelude::*;

use crate::downloads;
use crate::error::{Error, Result};
use crate::model::{ModelSource, SourceView, WhisperModel};
use crate::model;
use crate::path;
use crate::text;

verus! {

/// How far a model download has got.
#[derive(Debug, Clone, Copy, PartialEq, Eq, Structural)]
pub struct Progress {
    /// Bytes written to the staging file so far.
    pub written: u64,
    /// Total size of the checkpoint, when the server told us.
    pub total: Option<u64>,
}

impl Progress {
    /// Fraction of the download that is done, as a numerator and a denominator, or `None` when the
    /// total size is unknown.
    pub fn fraction(self) -> (fraction: Option<(u64, u64)>)
        ensures
            fraction == match self.total {
                Some(total) => if total == 0 {
                    None
                } else if self.written <= total {
                    Some((self.written, total))
                } else {
                    Some((total, total))
                },
                None => None,
            },
            fraction matches Some((done, total)) ==> done <= total && total > 0,
    {
        match self.total {
            Some(total) => {
                if total == 0 {
                    None
                } else if self.written <= total {
                    Some((self.written, total))
                } else {
                    Some((total, total))
                }
            },
            None => None,
        }
    }
}

/// Manages the on-disk location of a Whisper model.
///
/// A store is cheap and does no I/O when constructed. [`ModelStore::ensure`] says how to get the
/// checkpoint onto disk, which takes a download on first use.
#[derive(Debug, Clone)]
pub struct ModelStore {
    source: ModelSource,
    dir: String,
    path: String,
}

/// The model of a [`ModelStore`].
pub struct StoreView {
    /// What the store was created for.
    pub source: SourceView,
    /// The models directory.
    pub dir: Seq<char>,
    /// The path the model resolves to.
    pub path: Seq<char>,
}

/// The store for `source` in `dir`.
pub open spec fn store_of(source: SourceView, dir: Seq<char>) -> StoreView {
    StoreView { source, dir, path: source.path_in(dir) }
}

impl View for ModelStore {
    type V = StoreView;

    closed spec fn view(&self) -> StoreView {
        StoreView { source: self.source@, dir: self.dir@, path: self.path@ }
    }
}

impl ModelStore {
    /// The path is the one the source resolves to in the models directory.
    pub open spec fn wf(&self) -> bool {
        self@ == store_of(self@.source, self@.dir)
    }

    /// Creates a store for any [`ModelSource`].
    pub fn new(source: ModelSource, dir: &str) -> (store: Self)
        ensures
            store.wf(),
            store@ == store_of(source@, dir@),
            store@.source == source@,
            store@.dir == dir@,
            match source@ {
                SourceView::Pretrained(model) => store@.path == path::joined(
                    dir@,
                    model.file_name_text(),
                ),
                SourceView::File(file) => store@.path == file,
            },
    {
        let path = source.path_in(dir);
        ModelStore { source, dir: dir.to_owned(), path }
    }

    /// Creates a store for one of the published checkpoints.
    pub fn pretrained(model: WhisperModel, dir: &str) -> (store: Self)
        ensures
            store.wf(),
            store@ == store_of(SourceView::Pretrained(model), dir@),
            store@.source == SourceView::Pretrained(model),
            store@.dir == dir@,
            store@.path == path::joined(dir@, model.file_name_text()),
    {
        Self::new(ModelSource::Pretrained(model), dir)
    }

    /// Creates a store around an existing local ggml file. Nothing is ever downloaded.
    pub fn file(path: &str, dir: &str) -> (store: Self)
        ensures
            store.wf(),
            store@ == store_of(SourceView::File(path@), dir@),
            store@.source == SourceView::File(path@),
            store@.dir == dir@,
            store@.path == path@,
    {
        Self::new(ModelSource::File(path.to_owned()), dir)
    }

    /// Resolves a model name (see [`WhisperModel::from_name`]) into a store.
    ///
    /// # Errors
    ///
    /// Returns [`Error::UnknownModel`] when the name does not match any checkpoint.
    pub fn from_name(name: &str, dir: &str) -> (store: Result<Self>)
        ensures
            match model::resolved(name@) {
                Some(model) => store matches Ok(found) && found.wf() && found@ == store_of(
                    SourceView::Pretrained(model),
                    dir@,
                ),
                None => store matches Err(Error::UnknownModel(unknown)) && unknown@ == name@,
            },
            store matches Ok(found) ==> found@.dir == dir@ && (found@.source matches
                SourceView::Pretrained(model) && model::resolved(name@) == Some(model) && found@.path
                == path::joined(dir@, model.file_name_text())),
    {
        match WhisperModel::from_name(name) {
            Some(model) => Ok(Self::pretrained(model, dir)),
            None => Err(Error::UnknownModel(name.to_owned())),
        }
    }

    /// Creates a store for a models directory that already contains the given file.
    ///
    /// Unlike [`Self::from_name`], this accepts quantized and fine-tuned checkpoints that are not
    /// part of the official catalogue, as long as the file exists on disk.
    pub fn from_file_in_dir(name: &str, dir: &str) -> (store: Self)
        ensures
            store.wf(),
            store@ == store_of(SourceView::File(path::joined(dir@, name@)), dir@),
            store@.source == SourceView::File(path::joined(dir@, name@)),
            store@.dir == dir@,
            store@.path == path::joined(dir@, name@),
    {
        Self::new(ModelSource::File(path::join(dir, name)), dir)
    }

    /// The source this store was created for.
    pub fn source(&self) -> (source: &ModelSource)
        ensures
            source@ == self@.source,
    {
        &self.source
    }

    /// The models directory backing this store.
    pub fn dir(&self) -> (dir: &str)
        ensures
            dir@ == self@.dir,
    {
        self.dir.as_str()
    }

    /// Full path this store resolves to.
    pub fn path(&self) -> (path: String)
        ensures
            path@ == self@.path,
    {
        self.path.clone()
    }

    /// Full path this store resolves to, borrowed.
    pub fn as_ref(&self) -> (path: &str)
        ensures
            path@ == self@.path,
    {
        self.path.as_str()
    }

    /// Whether the model file already exists on disk.
    ///
    /// The disk decides, so neither answer can be promised ahead of time: what holds is that it was
    /// asked for the path this store resolves to.
    pub fn exists_on_disk(&self) -> (present: bool)
        ensures
            disk_answers(self@.path, present),
    {
        is_file(self.path.as_str())
    }

    /// Starts the download of the model into the models directory.
    ///
    /// The response is streamed to disk rather than buffered, so a 2.9 GB checkpoint never has to
    /// fit in memory. It goes to a `.part` staging file alongside the destination, which takes the
    /// destination's place only on success, so an interrupted download never leaves a corrupt
    /// checkpoint behind.
    ///
    /// # Errors
    ///
    /// Returns [`Error::ModelNotFound`] for [`ModelSource::File`] sources.
    pub fn download(&self) -> (download: Result<Download>)
        ensures
            match self@.source {
                SourceView::Pretrained(model) => download matches Ok(started) && started@
                    == download_of(self@, model),
                SourceView::File(_) => download matches Err(Error::ModelNotFound(missing))
                    && missing@ == self@.path,
            },
            download matches Ok(started) ==> match self@.source {
                SourceView::Pretrained(model) => {
                    &&& started@.url == model.url_text()
                    &&& started@.dir == self@.dir
                    &&& started@.temporary == staging_path(self@.path)
                    &&& started@.destination == self@.path
                    &&& started@.written == 0
                    &&& started@.total is None
                    &&& started@.phase is Directory
                },
                SourceView::File(_) => false,
            },
    {
        match self.source.download_url() {
            Some(url) => Ok(
                Download {
                    url,
                    dir: self.dir.clone(),
                    temporary: temp_path_for(self.path.as_str()),
                    destination: self.path.clone(),
                    written: 0,
                    total: None,
                    phase: Phase::Directory,
                },
            ),
            None => Err(Error::ModelNotFound(self.path.clone())),
        }
    }

    /// How to come by the local path of the model: as it is when the file is `present`, and by a
    /// download otherwise.
    ///
    /// For [`ModelSource::File`] sources nothing is downloaded.
    ///
    /// # Errors
    ///
    /// Returns [`Error::ModelNotFound`] for a [`ModelSource::File`] source whose file is missing.
    pub fn ensure(&self, present: bool) -> (step: Result<EnsureStep>)
        ensures
            if present {
                step matches Ok(EnsureStep::Ready(path)) && path@ == self@.path
            } else {
                match self@.source {
                    SourceView::Pretrained(model) => step matches Ok(EnsureStep::Fetch(download))
                        && download@ == download_of(self@, model),
                    SourceView::File(_) => step matches Err(Error::ModelNotFound(missing))
                        && missing@ == self@.path,
                }
            },
            step matches Ok(EnsureStep::Fetch(started)) ==> !present && match self@.source {
                SourceView::Pretrained(model) => {
                    &&& started@.url == model.url_text()
                    &&& started@.dir == self@.dir
                    &&& started@.temporary == staging_path(self@.path)
                    &&& started@.destination == self@.path
                    &&& started@.written == 0
                    &&& started@.total is None
                    &&& started@.phase is Directory
                },
                SourceView::File(_) => false,
            },
    {
        if present {
            return Ok(EnsureStep::Ready(self.path()));
        }
        match self.download() {
            Ok(download) => Ok(EnsureStep::Fetch(download)),
            Err(error) => Err(error),
        }
    }
}

/// Asks `std::path::Path::is_file` whether `path` is a regular file.
///
/// The answer depends on the disk at the moment of the call, so nothing is claimed of it.
#[verifier::external_body]
fn is_file(path: &str) -> bool {
    std::path::Path::new(path).is_file()
}

/// Whether `present` is a possible answer of the disk, asked for a file at `path`. One and the same
/// path can get both answers, one now and the other later.
pub closed spec fn disk_answers(path: Seq<char>, present: bool) -> bool {
    exists|asked: &str| asked@ == path && #[trigger] call_ensures(is_file, (asked,), present)
}

/// An answer of the disk is one that `is_file` gave for that very path.
proof fn law_the_disk_is_asked_for_the_path(path: Seq<char>, present: bool)
    requires
        disk_answers(path, present),
    ensures
        exists|asked: &str| asked@ == path && #[trigger] call_ensures(is_file, (asked,), present),
{
}

/// How to come by a model file.
pub enum EnsureStep {
    /// The file is there, at this path.
    Ready(String),
    /// The file has to be downloaded first.
    Fetch(Download),
}

/// The staging path for `destination`: the same directory, the same file name behind which `.part`
/// is written.
pub open spec fn staging_path(destination: Seq<char>) -> Seq<char> {
    let name = match path::file_name_of(destination) {
        Some(name) => name,
        None => Seq::empty(),
    };
    path::renamed(destination, name + ".part"@)
}

/// Returns `<destination>.part`, used as the staging file for downloads.
pub fn temp_path_for(destination: &str) -> (staging: String)
    ensures
        staging@ == staging_path(destination@),
        staging@ != destination@,
        path::file_name_of(destination@) matches Some(name) ==> path::file_name_of(staging@) == Some(
            name + ".part"@,
        ) && path::parent_of(staging@) == path::parent_of(destination@),
{
    proof {
        downloads::law_staging_file_is_not_the_destination(destination@);
        if path::file_name_of(destination@) is Some {
            downloads::law_staging_file_is_next_to_the_destination(destination@);
        }
    }
    let name = match path::file_name(destination) {
        Some(name) => name,
        None => String::new(),
    };
    let part = text::concat2(name.as_str(), ".part");
    path::with_file_name(destination, part.as_str())
}

/// Asks `reqwest::StatusCode` whether `status` is a success: `from_u16` accepts the codes 100 to
/// 999, and of those `is_success` holds for 200 to 299.
#[verifier::external_body]
fn is_success(status: u16) -> (yes: bool)
    ensures
        yes == (200 <= status < 300),
{
    match reqwest::StatusCode::from_u16(status) {
        Ok(code) => code.is_success(),
        Err(_) => false,
    }
}

/// How far a download has got: what was asked for last.
#[derive(Debug, Clone, Copy, PartialEq, Eq, Structural)]
pub enum Phase {
    /// The models directory is being created.
    Directory,
    /// The checkpoint is being requested.
    Request,
    /// The staging file is being created.
    StagingFile,
    /// The next chunk of the body is being read.
    Chunk,
    /// A chunk of this many bytes is being appended to the staging file.
    Append(u64),
    /// Progress is being reported.
    Report,
    /// The staging file is being moved to the destination.
    Publish,
    /// The checkpoint is in place.
    Finished,
    /// The server refused with this status.
    Refused(u16),
}

/// What came of the last action of a [`Download`].
#[derive(Debug, Clone, Copy, PartialEq, Eq, Structural)]
pub enum DownloadEvent {
    /// It was carried out, and there is nothing to tell.
    Done,
    /// The server answered with this status, announcing a body of this many bytes.
    Response {
        /// HTTP status of the answer.
        status: u16,
        /// Length of the body, when the server told us.
        total: Option<u64>,
    },
    /// A chunk of this many bytes arrived.
    Chunk(u64),
    /// The body is complete.
    EndOfBody,
}

/// What a [`Download`] asks for next.
#[derive(Debug)]
pub enum DownloadAction {
    /// Create this directory if it is missing.
    CreateDir(String),
    /// Request this URL.
    Request(String),
    /// Create this file, empty.
    CreateFile(String),
    /// Read the next chunk of the body.
    ReadChunk,
    /// Append the chunk just read to this file.
    Append(String),
    /// Report this progress.
    Report(Progress),
    /// Complete the file `from` and move it to `to`.
    Publish {
        /// The staging file.
        from: String,
        /// The destination.
        to: String,
    },
    /// The checkpoint is at this path; there is nothing left to do.
    Return(String),
    /// Give up with this error.
    Fail(Error),
}

/// A download in progress, as a machine that turns what happened into what to do next.
pub struct Download {
    url: String,
    dir: String,
    temporary: String,
    destination: String,
    written: u64,
    total: Option<u64>,
    phase: Phase,
}

/// The model of a [`Download`].
pub struct DownloadView {
    /// Where the checkpoint comes from.
    pub url: Seq<char>,
    /// The models directory.
    pub dir: Seq<char>,
    /// The staging file.
    pub temporary: Seq<char>,
    /// Where the checkpoint goes.
    pub destination: Seq<char>,
    /// Bytes written to the staging file so far.
    pub written: nat,
    /// Length of the body, when the server told us.
    pub total: Option<u64>,
    /// What was asked for last.
    pub phase: Phase,
}

/// The model of a [`DownloadAction`].
pub enum ActionView {
    CreateDir(Seq<char>),
    Request(Seq<char>),
    CreateFile(Seq<char>),
    ReadChunk,
    Append(Seq<char>),
    Report(Progress),
    Publish { from: Seq<char>, to: Seq<char> },
    Return(Seq<char>),
    Refuse { url: Seq<char>, status: u16 },
    Other,
}

impl View for Download {
    type V = DownloadView;

    closed spec fn view(&self) -> DownloadView {
        DownloadView {
            url: self.url@,
            dir: self.dir@,
            temporary: self.temporary@,
            destination: self.destination@,
            written: self.written as nat,
            total: self.total,
            phase: self.phase,
        }
    }
}

impl View for DownloadAction {
    type V = ActionView;

    open spec fn view(&self) -> ActionView {
        match self {
            DownloadAction::CreateDir(dir) => ActionView::CreateDir(dir@),
            DownloadAction::Request(url) => ActionView::Request(url@),
            DownloadAction::CreateFile(path) => ActionView::CreateFile(path@),
            DownloadAction::ReadChunk => ActionView::ReadChunk,
            DownloadAction::Append(path) => ActionView::Append(path@),
            DownloadAction::Report(progress) => ActionView::Report(*progress),
            DownloadAction::Publish { from, to } => ActionView::Publish { from: from@, to: to@ },
            DownloadAction::Return(path) => ActionView::Return(path@),
            DownloadAction::Fail(Error::UnexpectedStatus { url, status }) => ActionView::Refuse {
                url: url@,
                status: *status,
            },
            DownloadAction::Fail(_) => ActionView::Other,
        }
    }
}

/// The download of `model` for `store`, before its first step.
pub open spec fn download_of(store: StoreView, model: WhisperModel) -> DownloadView {
    DownloadView {
        url: model.url_text(),
        dir: store.dir,
        temporary: staging_path(store.path),
        destination: store.path,
        written: 0,
        total: None,
        phase: Phase::Directory,
    }
}

impl DownloadView {
    /// Whether `event` can come of the last action.
    pub open spec fn expects(self, event: DownloadEvent) -> bool {
        match event {
            DownloadEvent::Done => {
                ||| self.phase is Directory
                ||| self.phase is StagingFile
                ||| self.phase is Append && self.written + self.phase->Append_0 <= u64::MAX
                ||| self.phase is Report
                ||| self.phase is Publish
            },
            DownloadEvent::Response { status, total } => self.phase is Request,
            DownloadEvent::Chunk(len) => self.phase is Chunk && self.written + len <= u64::MAX,
            DownloadEvent::EndOfBody => self.phase is Chunk,
        }
    }

    /// The download after `event`.
    pub open spec fn after(self, event: DownloadEvent) -> DownloadView {
        match event {
            DownloadEvent::Done => match self.phase {
                Phase::Directory => DownloadView { phase: Phase::Request, ..self },
                Phase::Append(len) => DownloadView {
                    written: self.written + len as nat,
                    phase: Phase::Report,
                    ..self
                },
                Phase::Publish => DownloadView { phase: Phase::Finished, ..self },
                _ => DownloadView { phase: Phase::Chunk, ..self },
            },
            DownloadEvent::Response { status, total } => if 200 <= status < 300 {
                DownloadView { total, phase: Phase::StagingFile, ..self }
            } else {
                DownloadView { phase: Phase::Refused(status), ..self }
            },
            DownloadEvent::Chunk(len) => DownloadView { phase: Phase::Append(len), ..self },
            DownloadEvent::EndOfBody => DownloadView { phase: Phase::Publish, ..self },
        }
    }

    /// What the download asks for in its current phase.
    pub open spec fn wants(self) -> ActionView {
        match self.phase {
            Phase::Directory => ActionView::CreateDir(self.dir),
            Phase::Request => ActionView::Request(self.url),
            Phase::StagingFile => ActionView::CreateFile(self.temporary),
            Phase::Chunk => ActionView::ReadChunk,
            Phase::Append(_) => ActionView::Append(self.temporary),
            Phase::Report => ActionView::Report(
                Progress { written: self.written as u64, total: self.total },
            ),
            Phase::Publish => ActionView::Publish { from: self.temporary, to: self.destination },
            Phase::Finished => ActionView::Return(self.destination),
            Phase::Refused(status) => ActionView::Refuse { url: self.url, status },
        }
    }
}

impl Download {
    /// How far this download has got.
    pub fn progress(&self) -> (progress: Progress)
        ensures
            progress.written == self@.written,
            progress.total == self@.total,
    {
        Progress { written: self.written, total: self.total }
    }

    /// What to do first.
    pub fn first(&self) -> (action: DownloadAction)
        requires
            self@.phase is Directory,
        ensures
            action@ == self@.wants(),
            action matches DownloadAction::CreateDir(dir) && dir@ == self@.dir,
    {
        DownloadAction::CreateDir(self.dir.clone())
    }

    /// Takes in what came of the last action and says what to do next.
    pub fn step(&mut self, event: DownloadEvent) -> (action: DownloadAction)
        requires
            old(self)@.expects(event),
        ensures
            final(self)@ == old(self)@.after(event),
            action@ == final(self)@.wants(),
            final(self)@.url == old(self)@.url,
            final(self)@.dir == old(self)@.dir,
            final(self)@.temporary == old(self)@.temporary,
            final(self)@.destination == old(self)@.destination,
            match (old(self)@.phase, event) {
                (Phase::Directory, _) => final(self)@.phase is Request,
                (Phase::Request, DownloadEvent::Response { status, total }) => if 200 <= status
                    < 300 {
                    final(self)@.phase is StagingFile && final(self)@.total == total
                } else {
                    final(self)@.phase == Phase::Refused(status)
                },
                (Phase::StagingFile, _) => final(self)@.phase is Chunk,
                (Phase::Chunk, DownloadEvent::Chunk(len)) => final(self)@.phase == Phase::Append(
                    len,
                ),
                (Phase::Chunk, _) => final(self)@.phase is Publish,
                (Phase::Append(len), _) => final(self)@.phase is Report && final(self)@.written
                    == old(self)@.written + len,
                (Phase::Report, _) => final(self)@.phase is Chunk,
                (Phase::Publish, _) => final(self)@.phase is Finished,
                _ => false,
            },
            !(old(self)@.phase is Append) ==> final(self)@.written == old(self)@.written,
            !(event is Response) ==> final(self)@.total == old(self)@.total,
            match final(self)@.phase {
                Phase::Directory => action matches DownloadAction::CreateDir(dir) && dir@ == final(self)@.dir,
                Phase::Request => action matches DownloadAction::Request(url) && url@ == final(self)@.url,
                Phase::StagingFile => action matches DownloadAction::CreateFile(file) && file@
                    == final(self)@.temporary,
                Phase::Chunk => action is ReadChunk,
                Phase::Append(_) => action matches DownloadAction::Append(file) && file@ == final(self)@.temporary,
                Phase::Report => action matches DownloadAction::Report(progress) && progress.written
                    == final(self)@.written && progress.total == final(self)@.total,
                Phase::Publish => action matches DownloadAction::Publish { from, to } && from@
                    == final(self)@.temporary && to@ == final(self)@.destination,
                Phase::Finished => action matches DownloadAction::Return(file) && file@ == final(self)@.destination,
                Phase::Refused(status) => action matches DownloadAction::Fail(
                    Error::UnexpectedStatus { url, status: reported },
                ) && url@ == final(self)@.url && reported == status,
            },
    {
        match event {
            DownloadEvent::Done => match self.phase {
                Phase::Directory => {
                    self.phase = Phase::Request;
                    DownloadAction::Request(self.url.clone())
                },
                Phase::Append(len) => {
                    self.written = self.written + len;
                    self.phase = Phase::Report;
                    DownloadAction::Report(Progress { written: self.written, total: self.total })
                },
                Phase::Publish => {
                    self.phase = Phase::Finished;
                    DownloadAction::Return(self.destination.clone())
                },
                _ => {
                    self.phase = Phase::Chunk;
                    DownloadAction::ReadChunk
                },
            },
            DownloadEvent::Response { status, total } => {
                if is_success(status) {
                    self.total = total;
                    self.phase = Phase::StagingFile;
                    DownloadAction::CreateFile(self.temporary.clone())
                } else {
                    self.phase = Phase::Refused(status);
                    DownloadAction::Fail(Error::UnexpectedStatus { url: self.url.clone(), status })
                }
            },
            DownloadEvent::Chunk(len) => {
                self.phase = Phase::Append(len);
                DownloadAction::Append(self.temporary.clone())
            },
            DownloadEvent::EndOfBody => {
                self.phase = Phase::Publish;
                DownloadAction::Publish {
                    from: self.temporary.clone(),
                    to: self.destination.clone(),
                }
            },
        }
    }
}

} // verus!
