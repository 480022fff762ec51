//! What holds of downloads: an interrupted one never leaves a corrupt checkpoint behind, a finished
//! one leaves exactly what was received, and progress counts what is on disk.
//!
//! The disk is modelled as a map from paths to contents, and a download as the sequence of what
//! came of its actions.

use vstd::prelude::*;

use crate::model::{SourceView, WhisperModel};
use crate::path;
use crate::store;
use crate::store::{ActionView, DownloadEvent, DownloadView, Phase, Progress, StoreView};

verus! {

/// The contents of the files on disk.
pub type Disk = Map<Seq<char>, Seq<u8>>;

/// What came of an action, with the bytes of a chunk in full.
pub enum Happening {
    Done,
    Response { status: u16, total: Option<u64> },
    Chunk(Seq<u8>),
    EndOfBody,
}

impl Happening {
    /// What the download is told.
    pub open spec fn event(self) -> DownloadEvent {
        match self {
            Happening::Done => DownloadEvent::Done,
            Happening::Response { status, total } => DownloadEvent::Response { status, total },
            Happening::Chunk(bytes) => DownloadEvent::Chunk(bytes.len() as u64),
            Happening::EndOfBody => DownloadEvent::EndOfBody,
        }
    }

    /// The bytes that arrived.
    pub open spec fn bytes(self) -> Seq<u8> {
        match self {
            Happening::Chunk(bytes) => bytes,
            _ => Seq::empty(),
        }
    }
}

/// The disk after an action was carried out; `chunk` is the chunk just read.
pub open spec fn carried_out(action: ActionView, chunk: Seq<u8>, disk: Disk) -> Disk {
    match action {
        ActionView::CreateFile(path) => disk.insert(path, Seq::empty()),
        ActionView::Append(path) => disk.insert(path, disk[path] + chunk),
        ActionView::Publish { from, to } => disk.remove(from).insert(to, disk[from]),
        _ => disk,
    }
}

/// The download after everything in `history` happened.
pub open spec fn download_after(start: DownloadView, history: Seq<Happening>) -> DownloadView
    decreases history.len(),
{
    if history.len() == 0 {
        start
    } else {
        download_after(start, history.drop_last()).after(history.last().event())
    }
}

/// The disk after everything in `history` happened and the actions that followed were carried out.
pub open spec fn disk_after(start: DownloadView, disk: Disk, history: Seq<Happening>) -> Disk
    decreases history.len(),
{
    if history.len() == 0 {
        disk
    } else {
        carried_out(
            download_after(start, history).wants(),
            history.last().bytes(),
            disk_after(start, disk, history.drop_last()),
        )
    }
}

/// Whether everything in `history` can happen, one after the other.
pub open spec fn can_happen(start: DownloadView, history: Seq<Happening>) -> bool
    decreases history.len(),
{
    history.len() == 0 || {
        &&& can_happen(start, history.drop_last())
        &&& history.last().bytes().len() <= u64::MAX
        &&& download_after(start, history.drop_last()).expects(history.last().event())
    }
}

/// Every byte that arrived, in order.
pub open spec fn received(history: Seq<Happening>) -> Seq<u8>
    decreases history.len(),
{
    if history.len() == 0 {
        Seq::empty()
    } else {
        received(history.drop_last()) + history.last().bytes()
    }
}

/// Whether the staging file was moved to the destination.
pub open spec fn is_published(download: DownloadView) -> bool {
    download.phase is Publish || download.phase is Finished
}

/// The staging file is never the destination.
pub proof fn law_staging_file_is_not_the_destination(destination: Seq<char>)
    ensures
        store::staging_path(destination) != destination,
{
    reveal_strlit(".part");
    path::law_file_names_are_plain(destination);
    let name = match path::file_name_of(destination) {
        Some(name) => name,
        None => Seq::empty(),
    };
    lemma_part_is_plain(name);
    path::law_renaming_stays_in_the_directory(destination, name + ".part"@);
}

/// The staging file lies next to its destination and is called like it, with `.part` behind.
pub proof fn law_staging_file_is_next_to_the_destination(destination: Seq<char>)
    requires
        path::file_name_of(destination) is Some,
    ensures
        path::parent_of(store::staging_path(destination)) == path::parent_of(destination),
        path::file_name_of(store::staging_path(destination)) == Some(
            path::file_name_of(destination)->0 + ".part"@,
        ),
{
    path::law_file_names_are_plain(destination);
    lemma_part_is_plain(path::file_name_of(destination)->0);
    path::law_renaming_stays_in_the_directory(
        destination,
        path::file_name_of(destination)->0 + ".part"@,
    );
}

/// A file name stays one with `.part` behind.
proof fn lemma_part_is_plain(name: Seq<char>)
    requires
        forall|i: int| 0 <= i < name.len() ==> #[trigger] name[i] != '/',
    ensures
        path::is_plain_name(name + ".part"@),
{
    reveal_strlit(".part");
    let part = name + ".part"@;
    assert(part.len() > 2);
    assert forall|i: int| 0 <= i < part.len() implies #[trigger] part[i] != '/' by {
        if i >= name.len() {
            assert(part[i] == ".part"@[i - name.len()]);
            assert(".part"@ =~= seq!['.', 'p', 'a', 'r', 't']);
        }
    }
}

/// What holds of a download and the disk after any history.
spec fn holds(start: DownloadView, disk: Disk, history: Seq<Happening>) -> bool {
    let now = download_after(start, history);
    let after = disk_after(start, disk, history);
    &&& now.url == start.url
    &&& now.temporary == start.temporary
    &&& now.destination == start.destination
    &&& match now.phase {
        Phase::Directory | Phase::Request | Phase::Refused(_) => {
            &&& after == disk
            &&& received(history) == Seq::<u8>::empty()
            &&& now.written == 0
        },
        Phase::StagingFile | Phase::Chunk | Phase::Report => {
            &&& after == disk.insert(start.temporary, received(history))
            &&& now.written == received(history).len()
        },
        Phase::Append(len) => {
            &&& after == disk.insert(start.temporary, received(history))
            &&& now.written + len == received(history).len()
        },
        Phase::Publish | Phase::Finished => {
            &&& after == disk.remove(start.temporary).insert(start.destination, received(history))
            &&& now.written == received(history).len()
        },
    }
}

proof fn lemma_history(start: DownloadView, disk: Disk, history: Seq<Happening>)
    requires
        start.phase is Directory,
        start.written == 0,
        can_happen(start, history),
    ensures
        holds(start, disk, history),
    decreases history.len(),
{
    if history.len() > 0 {
        let earlier = history.drop_last();
        lemma_history(start, disk, earlier);
        let before = download_after(start, earlier);
        let now = download_after(start, history);
        let old_disk = disk_after(start, disk, earlier);
        let bytes = history.last().bytes();
        assert(received(history) == received(earlier) + bytes);
        if !(history.last() is Chunk) {
            assert(received(history) =~= received(earlier));
        }
        assert(disk_after(start, disk, history) == carried_out(now.wants(), bytes, old_disk));
        match history.last() {
            Happening::Chunk(_) => {
                assert(old_disk[start.temporary] == received(earlier));
                assert(disk.insert(start.temporary, received(earlier)).insert(
                    start.temporary,
                    received(history),
                ) =~= disk.insert(start.temporary, received(history)));
            },
            Happening::EndOfBody => {
                assert(old_disk[start.temporary] == received(earlier));
                assert(old_disk.remove(start.temporary) =~= disk.remove(start.temporary));
            },
            Happening::Response { .. } => {},
            Happening::Done => {},
        }
    }
}

/// Until the checkpoint is complete, a download changes nothing on disk but its staging file: if
/// it stops at any point before that, the destination is as it was.
pub proof fn law_interrupted_download_leaves_the_destination_alone(
    store: StoreView,
    model: WhisperModel,
    disk: Disk,
    history: Seq<Happening>,
)
    requires
        can_happen(store::download_of(store, model), history),
        !is_published(download_after(store::download_of(store, model), history)),
    ensures
        disk_after(store::download_of(store, model), disk, history).remove(
            store::staging_path(store.path),
        ) == disk.remove(store::staging_path(store.path)),
        disk_after(store::download_of(store, model), disk, history).dom().contains(store.path)
            == disk.dom().contains(store.path),
        disk.dom().contains(store.path) ==> disk_after(
            store::download_of(store, model),
            disk,
            history,
        )[store.path] == disk[store.path],
{
    let start = store::download_of(store, model);
    lemma_history(start, disk, history);
    law_staging_file_is_not_the_destination(store.path);
    assert(disk_after(start, disk, history).remove(start.temporary) =~= disk.remove(
        start.temporary,
    ));
}

/// Once a download is complete, the destination holds every byte that was received, in order, the
/// staging file is gone, and nothing else on disk has changed.
pub proof fn law_finished_download_holds_what_was_received(
    store: StoreView,
    model: WhisperModel,
    disk: Disk,
    history: Seq<Happening>,
)
    requires
        can_happen(store::download_of(store, model), history),
        is_published(download_after(store::download_of(store, model), history)),
    ensures
        disk_after(store::download_of(store, model), disk, history) == disk.remove(
            store::staging_path(store.path),
        ).insert(store.path, received(history)),
{
    lemma_history(store::download_of(store, model), disk, history);
}

/// The progress a download reports counts the bytes that are in the staging file.
pub proof fn law_reported_progress_is_on_disk(
    store: StoreView,
    model: WhisperModel,
    disk: Disk,
    history: Seq<Happening>,
)
    requires
        can_happen(store::download_of(store, model), history),
        download_after(store::download_of(store, model), history).phase is Report,
    ensures
        ({
            let after = disk_after(store::download_of(store, model), disk, history);
            let staging = store::staging_path(store.path);
            &&& after.dom().contains(staging)
            &&& after[staging] == received(history)
            &&& download_after(store::download_of(store, model), history).written
                == after[staging].len()
        }),
{
    lemma_history(store::download_of(store, model), disk, history);
}

/// The chunks that arrived, in order.
pub open spec fn chunks(history: Seq<Happening>) -> Seq<Seq<u8>>
    decreases history.len(),
{
    if history.len() == 0 {
        Seq::empty()
    } else if history.last() is Chunk {
        chunks(history.drop_last()).push(history.last().bytes())
    } else {
        chunks(history.drop_last())
    }
}

/// The length of the body as the server's answer announced it; `None` before the answer.
pub open spec fn announced(history: Seq<Happening>) -> Option<u64>
    decreases history.len(),
{
    if history.len() == 0 {
        None
    } else {
        match history.last() {
            Happening::Response { status, total } => total,
            _ => announced(history.drop_last()),
        }
    }
}

/// Every progress that was reported, in order.
pub open spec fn reports(start: DownloadView, history: Seq<Happening>) -> Seq<Progress>
    decreases history.len(),
{
    if history.len() == 0 {
        Seq::empty()
    } else {
        let earlier = reports(start, history.drop_last());
        match download_after(start, history).wants() {
            ActionView::Report(progress) => earlier.push(progress),
            _ => earlier,
        }
    }
}

/// What the reports for `chunks` are: one for each, with the bytes up to and including it and the
/// announced total.
pub open spec fn are_reports_on(
    progress: Seq<Progress>,
    chunks: Seq<Seq<u8>>,
    total: Option<u64>,
) -> bool {
    &&& progress.len() == chunks.len()
    &&& forall|k: int|
        0 <= k < progress.len() ==> {
            &&& (#[trigger] progress[k]).written == chunks.take(k + 1).flatten().len()
            &&& progress[k].total == total
        }
}

/// Over a whole run every chunk is reported once, in order, as soon as it is written: the report
/// counts the bytes up to and including that chunk, next to the total the server announced. A chunk
/// that is still being written has no report yet.
pub proof fn law_every_chunk_is_reported_once(
    store: StoreView,
    model: WhisperModel,
    history: Seq<Happening>,
)
    requires
        can_happen(store::download_of(store, model), history),
    ensures
        are_reports_on(
            reports(store::download_of(store, model), history),
            if download_after(store::download_of(store, model), history).phase is Append {
                chunks(history).drop_last()
            } else {
                chunks(history)
            },
            announced(history),
        ),
{
    lemma_reports(store::download_of(store, model), history);
}

proof fn lemma_reports(start: DownloadView, history: Seq<Happening>)
    requires
        start.phase is Directory,
        start.written == 0,
        start.total is None,
        can_happen(start, history),
    ensures
        ({
            let now = download_after(start, history);
            let all = chunks(history);
            let written = if now.phase is Append {
                all.drop_last()
            } else {
                all
            };
            &&& are_reports_on(reports(start, history), written, announced(history))
            &&& now.written == written.flatten().len()
            &&& now.phase matches Phase::Append(len) ==> all.len() > 0 && len == all.last().len()
            &&& now.written <= u64::MAX
            &&& now.phase is Directory || now.phase is Request ==> all.len() == 0
                && announced(history) is None
            &&& now.phase is Refused ==> all.len() == 0
            &&& !(now.phase is Refused) ==> now.total == announced(history)
        }),
    decreases history.len(),
{
    if history.len() == 0 {
        assert(chunks(history).flatten().len() == 0) by {
            reveal_with_fuel(Seq::flatten, 1);
        }
    } else {
        let earlier = history.drop_last();
        lemma_reports(start, earlier);
        let before = download_after(start, earlier);
        let now = download_after(start, history);
        let all = chunks(earlier);
        match history.last() {
            Happening::Chunk(bytes) => {
                assert(all.push(bytes).drop_last() =~= all);
            },
            Happening::Done => {
                if before.phase is Append {
                    let old_reports = reports(start, earlier);
                    let old_chunks = all.drop_last();
                    assert(old_chunks.push(all.last()) =~= all);
                    old_chunks.lemma_flatten_push(all.last());
                    assert(reports(start, history) == old_reports.push(
                        Progress { written: now.written as u64, total: now.total },
                    ));
                    assert forall|k: int| 0 <= k < reports(start, history).len() implies {
                        &&& (#[trigger] reports(start, history)[k]).written == all.take(
                            k + 1,
                        ).flatten().len()
                        &&& reports(start, history)[k].total == announced(history)
                    } by {
                        if k < old_reports.len() {
                            assert(old_reports[k] == reports(start, history)[k]);
                            assert(all.take(k + 1) =~= old_chunks.take(k + 1));
                        } else {
                            assert(all.take(k + 1) =~= all);
                        }
                    }
                }
            },
            _ => {},
        }
    }
}

/// A download is refused by an answer outside the 2xx range and by nothing else; it then gives up
/// with the URL and the status of that answer, and the disk is as it was.
pub proof fn law_refused_download_changes_nothing(
    store: StoreView,
    model: WhisperModel,
    disk: Disk,
    history: Seq<Happening>,
)
    requires
        can_happen(store::download_of(store, model), history),
        download_after(store::download_of(store, model), history).phase is Refused,
    ensures
        disk_after(store::download_of(store, model), disk, history) == disk,
        history.last() matches Happening::Response { status, total } && !(200 <= status < 300)
            && download_after(store::download_of(store, model), history).wants() == (
        ActionView::Refuse { url: model.url_text(), status }),
{
    let start = store::download_of(store, model);
    lemma_history(start, disk, history);
    assert(history.len() > 0);
    lemma_history(start, disk, history.drop_last());
}

/// The happenings of a run in which nothing goes wrong: the server accepts with `status`, announces
/// `total`, and sends `chunks`.
pub open spec fn complete_run(status: u16, total: Option<u64>, chunks: Seq<Seq<u8>>) -> Seq<
    Happening,
> {
    accepted_run(status, total, chunks) + seq![Happening::EndOfBody, Happening::Done]
}

/// The part of a complete run up to where the last chunk has been reported.
pub open spec fn accepted_run(status: u16, total: Option<u64>, chunks: Seq<Seq<u8>>) -> Seq<
    Happening,
>
    decreases chunks.len(),
{
    if chunks.len() == 0 {
        seq![Happening::Done, Happening::Response { status, total }, Happening::Done]
    } else {
        accepted_run(status, total, chunks.drop_last()) + seq![
            Happening::Chunk(chunks.last()),
            Happening::Done,
            Happening::Done,
        ]
    }
}

/// A download that nothing goes wrong with runs to its end, however many chunks come and whatever
/// the server announced: the checkpoint is at its destination with all bytes of all chunks, in
/// order, the staging file is gone, and the path is returned.
pub proof fn law_complete_run_publishes_the_checkpoint(
    store: StoreView,
    model: WhisperModel,
    disk: Disk,
    status: u16,
    total: Option<u64>,
    chunks: Seq<Seq<u8>>,
)
    requires
        200 <= status < 300,
        chunks.flatten().len() <= u64::MAX,
    ensures
        ({
            let start = store::download_of(store, model);
            let run = complete_run(status, total, chunks);
            &&& can_happen(start, run)
            &&& download_after(start, run).wants() == ActionView::Return(store.path)
            &&& download_after(start, run).written == chunks.flatten().len()
            &&& disk_after(start, disk, run) == disk.remove(store::staging_path(store.path)).insert(
                store.path,
                chunks.flatten(),
            )
        }),
{
    let start = store::download_of(store, model);
    let accepted = accepted_run(status, total, chunks);
    lemma_accepted_run(start, status, total, chunks);
    let ended = accepted.push(Happening::EndOfBody);
    let run = ended.push(Happening::Done);
    assert(run =~= complete_run(status, total, chunks));
    lemma_one_more(start, accepted, Happening::EndOfBody);
    lemma_one_more(start, ended, Happening::Done);
    assert(received(run) =~= received(accepted));
    lemma_history(start, disk, run);
}

/// What a history extended by one happening comes to.
proof fn lemma_one_more(start: DownloadView, history: Seq<Happening>, next: Happening)
    ensures
        download_after(start, history.push(next)) == download_after(start, history).after(
            next.event(),
        ),
        can_happen(start, history.push(next)) <==> can_happen(start, history)
            && next.bytes().len() <= u64::MAX && download_after(start, history).expects(
            next.event(),
        ),
        received(history.push(next)) == received(history) + next.bytes(),
{
    assert(history.push(next).drop_last() =~= history);
}

proof fn lemma_accepted_run(
    start: DownloadView,
    status: u16,
    total: Option<u64>,
    chunks: Seq<Seq<u8>>,
)
    requires
        start.phase is Directory,
        start.written == 0,
        200 <= status < 300,
        chunks.flatten().len() <= u64::MAX,
    ensures
        ({
            let run = accepted_run(status, total, chunks);
            &&& can_happen(start, run)
            &&& download_after(start, run).phase is Chunk
            &&& download_after(start, run).written == chunks.flatten().len()
            &&& download_after(start, run).destination == start.destination
            &&& received(run) == chunks.flatten()
        }),
    decreases chunks.len(),
{
    let run = accepted_run(status, total, chunks);
    if chunks.len() == 0 {
        let none = Seq::<Happening>::empty();
        let one = none.push(Happening::Done);
        let two = one.push(Happening::Response { status, total });
        let three = two.push(Happening::Done);
        lemma_one_more(start, none, Happening::Done);
        lemma_one_more(start, one, Happening::Response { status, total });
        lemma_one_more(start, two, Happening::Done);
        assert(three =~= run);
        assert(received(run) =~= Seq::empty());
        assert(chunks.flatten() =~= Seq::empty());
    } else {
        let earlier = chunks.drop_last();
        let last = chunks.last();
        earlier.lemma_flatten_push(last);
        assert(earlier.push(last) =~= chunks);
        lemma_accepted_run(start, status, total, earlier);
        let before = accepted_run(status, total, earlier);
        let one = before.push(Happening::Chunk(last));
        let two = one.push(Happening::Done);
        let three = two.push(Happening::Done);
        lemma_one_more(start, before, Happening::Chunk(last));
        lemma_one_more(start, one, Happening::Done);
        lemma_one_more(start, two, Happening::Done);
        assert(three =~= run);
        assert(received(run) =~= chunks.flatten());
    }
}

/// The answer of the server decides: a status from 200 to 299 has the staging file created, with the
/// total the server announced, and any other ends the download with that status.
pub proof fn law_the_status_decides(download: DownloadView, status: u16, total: Option<u64>)
    requires
        download.phase is Request,
    ensures
        ({
            let event = DownloadEvent::Response { status, total };
            let after = download.after(event);
            &&& download.expects(event)
            &&& 200 <= status < 300 ==> after.wants() == ActionView::CreateFile(download.temporary)
                && after.total == total
            &&& !(200 <= status < 300) ==> after.wants() == (ActionView::Refuse {
                url: download.url,
                status,
            })
        }),
{
}

/// Whatever happens, a download acts for its own checkpoint alone. It creates the models directory,
/// requests the URL whose last part is the name the checkpoint is stored under, writes to the staging
/// file, and publishes that as the path of the store, which is what it returns.
pub proof fn law_actions_stay_with_the_checkpoint(
    model: WhisperModel,
    dir: Seq<char>,
    history: Seq<Happening>,
)
    ensures
        ({
            let store = store::store_of(SourceView::Pretrained(model), dir);
            match download_after(store::download_of(store, model), history).wants() {
                ActionView::CreateDir(created) => created == dir,
                ActionView::Request(url) => {
                    &&& path::file_name_of(url) == path::file_name_of(store.path)
                    &&& path::file_name_of(url) == Some(model.file_name_text())
                    &&& url == "https://huggingface.co/ggerganov/whisper.cpp/resolve/main"@ + "/"@
                        + model.file_name_text()
                },
                ActionView::CreateFile(file) => file == store::staging_path(store.path),
                ActionView::Append(file) => file == store::staging_path(store.path),
                ActionView::Publish { from, to } => from == store::staging_path(store.path) && to
                    == store.path,
                ActionView::Return(file) => file == store.path,
                ActionView::Refuse { url, status } => url == model.url_text(),
                ActionView::ReadChunk | ActionView::Report(_) => true,
                ActionView::Other => false,
            }
        }),
{
    let store = store::store_of(SourceView::Pretrained(model), dir);
    lemma_places_stay(store::download_of(store, model), history);
    crate::names::law_urls_end_in_the_file_name(model);
    law_stored_checkpoints_keep_their_name(SourceView::Pretrained(model), dir);
}

/// A download does not change where it reads from and writes to.
proof fn lemma_places_stay(start: DownloadView, history: Seq<Happening>)
    ensures
        download_after(start, history).url == start.url,
        download_after(start, history).dir == start.dir,
        download_after(start, history).temporary == start.temporary,
        download_after(start, history).destination == start.destination,
    decreases history.len(),
{
    if history.len() > 0 {
        lemma_places_stay(start, history.drop_last());
    }
}

/// A store keeps what it was made for and its directory. A checkpoint lies in the directory, one
/// separator below it, under its file name, and a local file where its own path says.
pub proof fn law_stores_lie_in_their_directory(model: WhisperModel, file: Seq<char>, dir: Seq<char>)
    ensures
        ({
            let store = store::store_of(SourceView::Pretrained(model), dir);
            &&& store.source == SourceView::Pretrained(model)
            &&& store.dir == dir
            &&& store.path == if dir.len() == 0 || dir[dir.len() - 1] == '/' {
                dir + model.file_name_text()
            } else {
                dir + "/"@ + model.file_name_text()
            }
        }),
        ({
            let store = store::store_of(SourceView::File(file), dir);
            &&& store.source == SourceView::File(file)
            &&& store.dir == dir
            &&& store.path == file
        }),
{
    reveal_strlit("/");
    assert("/"@ =~= seq!['/']);
    lemma_checkpoint_names_are_plain(model);
    assert(model.file_name_text()[0] != '/');
}

/// Two checkpoints never share a place in one directory.
pub proof fn law_checkpoints_do_not_share_a_path(a: WhisperModel, b: WhisperModel, dir: Seq<char>)
    ensures
        store::store_of(SourceView::Pretrained(a), dir).path == store::store_of(
            SourceView::Pretrained(b),
            dir,
        ).path ==> a == b,
{
    law_stored_checkpoints_keep_their_name(SourceView::Pretrained(a), dir);
    law_stored_checkpoints_keep_their_name(SourceView::Pretrained(b), dir);
    crate::names::law_checkpoints_are_told_apart(a, b);
}

/// A local source goes by the name its path ends in; one without a file name goes by `model.bin`.
pub proof fn law_local_sources_go_by_their_own_name(file: Seq<char>)
    ensures
        SourceView::File(file).file_name_text() == match path::file_name_of(file) {
            Some(name) => name,
            None => "model.bin"@,
        },
        SourceView::File(file).stem_text() == match path::file_name_of(file) {
            Some(name) => path::stem_of(name),
            None => "model"@,
        },
{
}

/// A checkpoint is stored under its own name, whatever the models directory, and a local file
/// stays where it is.
pub proof fn law_stored_checkpoints_keep_their_name(source: SourceView, dir: Seq<char>)
    ensures
        match source {
            SourceView::Pretrained(model) => path::file_name_of(source.path_in(dir)) == Some(
                model.file_name_text(),
            ),
            SourceView::File(path) => source.path_in(dir) == path,
        },
{
    if let SourceView::Pretrained(model) = source {
        lemma_checkpoint_names_are_plain(model);
        path::law_joined_name_is_the_file_name(dir, model.file_name_text());
    }
}

/// The file names of the catalogue are plain.
pub(crate) proof fn lemma_checkpoint_names_are_plain(model: WhisperModel)
    ensures
        path::is_plain_name(model.file_name_text()),
{
    reveal_strlit("ggml-");
    reveal_strlit(".bin");
    let name = model.file_name_text();
    let id = model.id_text();
    assert(name.len() > 2);
    crate::names::lemma_ids_have_no_separator(model);
    assert("ggml-"@ =~= seq!['g', 'g', 'm', 'l', '-']);
    assert(".bin"@ =~= seq!['.', 'b', 'i', 'n']);
    assert forall|i: int| 0 <= i < name.len() implies #[trigger] name[i] != '/' by {
        if i < 5 {
            assert(name[i] == "ggml-"@[i]);
        } else if i < 5 + id.len() {
            assert(name[i] == id[i - 5]);
        } else {
            assert(name[i] == ".bin"@[i - 5 - id.len()]);
        }
    }
}

} // verus!
