//! Commands to the downloader: which operations each takes, and the events that it ends in.
//!
//! A command is a sequence of downloader operations: `begin` gives the first, `resume` takes what
//! an operation gave and tells the next one or how the command ended.
use vstd::prelude::*;

use crate::downloader::{Answer, AnswerView, NextView, Op, OpResult, OpView};
use crate::effect::{self, Effect, EffectView};
use crate::event::{DownloadStatus, Event, EventView, OutcomeView};
use crate::feed_id::FeedId;
use crate::handler::{self, ResolvedFile, ResolvedFileView};
use crate::http_code;
use crate::single;
use crate::text;
use crate::tokenizer;
use crate::types::{
    AnimeIdentity, AnimeIdentityView, ApiResult, CompletedDownload, DownloadSnapshotView,
    EpisodeKey, EpisodeKeyView, EpisodeRecord, EpisodeRecordView, RecordStatus, TorrentFileView,
};

verus! {

/// How long is waited before a torrent is resumed, in milliseconds: a rename has to settle.
pub const SETTLE_MS: u64 = 500;

/// A completed download whose files are to be put into the library.
#[derive(Debug, PartialEq)]
pub struct Job {
    pub infohash: String,
    pub feed_id: FeedId,
    pub anime: AnimeIdentity,
    pub library_dir: String,
    pub download_dir: String,
    /// Episode number from the tracker (0 = not yet known).
    pub expected_episode: u32,
}

#[verifier::ext_equal]
pub struct JobView {
    pub infohash: Seq<char>,
    pub feed_id: FeedId,
    pub anime: AnimeIdentityView,
    pub library_dir: Seq<char>,
    pub download_dir: Seq<char>,
    pub expected_episode: u32,
}

impl View for Job {
    type V = JobView;

    open spec fn view(&self) -> JobView {
        JobView {
            infohash: self.infohash@,
            feed_id: self.feed_id,
            anime: self.anime@,
            library_dir: self.library_dir@,
            download_dir: self.download_dir@,
            expected_episode: self.expected_episode,
        }
    }
}

/// A command to the downloader.
#[allow(inconsistent_fields)]
#[derive(Debug, PartialEq)]
pub enum DlCommand {
    /// Add a magnet link or direct URI.
    AddUri { uri: String, dir: String, feed_id: FeedId },
    /// Add the bytes of a `.torrent` file.
    AddBytes { torrent_url: String, data: Vec<u8>, dir: String, feed_id: FeedId },
    PollCompleted,
    PollFailed,
    QueryAll,
    CheckConnection,
    /// Put the files of a completed download into the library: list, pause, move, rename.
    HandleCompleted(Job),
}

#[allow(inconsistent_fields)]
#[verifier::ext_equal]
pub enum DlCommandView {
    AddUri { uri: Seq<char>, dir: Seq<char>, feed_id: FeedId },
    AddBytes { torrent_url: Seq<char>, data: Seq<u8>, dir: Seq<char>, feed_id: FeedId },
    PollCompleted,
    PollFailed,
    QueryAll,
    CheckConnection,
    HandleCompleted(JobView),
}

impl View for DlCommand {
    type V = DlCommandView;

    open spec fn view(&self) -> DlCommandView {
        match self {
            DlCommand::AddUri { uri, dir, feed_id } => DlCommandView::AddUri {
                uri: uri@,
                dir: dir@,
                feed_id: *feed_id,
            },
            DlCommand::AddBytes { torrent_url, data, dir, feed_id } => DlCommandView::AddBytes {
                torrent_url: torrent_url@,
                data: data@,
                dir: dir@,
                feed_id: *feed_id,
            },
            DlCommand::PollCompleted => DlCommandView::PollCompleted,
            DlCommand::PollFailed => DlCommandView::PollFailed,
            DlCommand::QueryAll => DlCommandView::QueryAll,
            DlCommand::CheckConnection => DlCommandView::CheckConnection,
            DlCommand::HandleCompleted(job) => DlCommandView::HandleCompleted(job@),
        }
    }
}

/// Files on their way into the library.
#[derive(Debug, PartialEq)]
pub struct Moving {
    pub infohash: String,
    pub resolved: Vec<ResolvedFile>,
    pub season_dir: String,
}

#[verifier::ext_equal]
pub struct MovingView {
    pub infohash: Seq<char>,
    pub resolved: Seq<ResolvedFileView>,
    pub season_dir: Seq<char>,
}

impl View for Moving {
    type V = MovingView;

    open spec fn view(&self) -> MovingView {
        MovingView {
            infohash: self.infohash@,
            resolved: handler::resolved_views(self.resolved@),
            season_dir: self.season_dir@,
        }
    }
}

/// How far a command has come: the operation whose result is awaited.
#[allow(inconsistent_fields)]
#[derive(Debug, PartialEq)]
pub enum Stage {
    AddUri { uri: String, feed_id: FeedId },
    AddBytes { torrent_url: String, feed_id: FeedId },
    PollCompleted,
    PollFailed,
    QueryAll,
    CheckConnection,
    ListFiles(Job),
    Pause(Moving),
    Move(Moving),
    Rename { files: Moving, at: usize },
    Resume(Moving),
    Remove(Moving),
}

#[allow(inconsistent_fields)]
#[verifier::ext_equal]
pub enum StageView {
    AddUri { uri: Seq<char>, feed_id: FeedId },
    AddBytes { torrent_url: Seq<char>, feed_id: FeedId },
    PollCompleted,
    PollFailed,
    QueryAll,
    CheckConnection,
    ListFiles(JobView),
    Pause(MovingView),
    Move(MovingView),
    Rename { files: MovingView, at: int },
    Resume(MovingView),
    Remove(MovingView),
}

impl View for Stage {
    type V = StageView;

    open spec fn view(&self) -> StageView {
        match self {
            Stage::AddUri { uri, feed_id } => StageView::AddUri { uri: uri@, feed_id: *feed_id },
            Stage::AddBytes { torrent_url, feed_id } => StageView::AddBytes {
                torrent_url: torrent_url@,
                feed_id: *feed_id,
            },
            Stage::PollCompleted => StageView::PollCompleted,
            Stage::PollFailed => StageView::PollFailed,
            Stage::QueryAll => StageView::QueryAll,
            Stage::CheckConnection => StageView::CheckConnection,
            Stage::ListFiles(job) => StageView::ListFiles(job@),
            Stage::Pause(files) => StageView::Pause(files@),
            Stage::Move(files) => StageView::Move(files@),
            Stage::Rename { files, at } => StageView::Rename { files: files@, at: *at as int },
            Stage::Resume(files) => StageView::Resume(files@),
            Stage::Remove(files) => StageView::Remove(files@),
        }
    }
}

impl Stage {
    /// The file that is being renamed is one of the files.
    pub open spec fn valid(self) -> bool {
        self matches Stage::Rename { files, at } ==> at < files.resolved@.len()
    }
}

/// What a command does next, or how it ended.
#[derive(PartialEq)]
pub enum DlStep {
    /// Do an operation, after waiting.
    Do { wait_ms: u64, op: Op, stage: Stage },
    /// The command is over: events for the reducer, effects for the executor, and the answer to a
    /// connection check.
    Finished { events: Vec<Event>, effects: Vec<Effect>, reply: Option<ApiResult<()>> },
}

#[verifier::ext_equal]
pub enum DlStepView {
    Do { wait_ms: u64, op: OpView, stage: StageView },
    Finished { events: Seq<EventView>, effects: Seq<EffectView>, reply: Option<OutcomeView<()>> },
}

/// The views of events.
pub open spec fn event_views(events: Seq<Event>) -> Seq<EventView> {
    Seq::new(events.len(), |i: int| events[i]@)
}

/// The model of the answer to a connection check.
pub open spec fn check_outcome(reply: Option<ApiResult<()>>) -> Option<OutcomeView<()>> {
    match reply {
        Some(ApiResult::OK { value }) => Some(OutcomeView::Value(value)),
        Some(ApiResult::Error { code, message }) => Some(
            OutcomeView::Error { code, message: message@ },
        ),
        None => None,
    }
}

impl View for DlStep {
    type V = DlStepView;

    open spec fn view(&self) -> DlStepView {
        match self {
            DlStep::Do { wait_ms, op, stage } => DlStepView::Do {
                wait_ms: *wait_ms,
                op: op@,
                stage: stage@,
            },
            DlStep::Finished { events, effects, reply } => DlStepView::Finished {
                events: event_views(events@),
                effects: effect::effect_views(effects@),
                reply: check_outcome(*reply),
            },
        }
    }
}

// ── Model ──

/// A command that ended without anything to tell.
pub open spec fn nothing() -> DlStepView {
    DlStepView::Finished { events: seq![], effects: seq![], reply: None }
}

/// A command that ended in events.
pub open spec fn told(events: Seq<EventView>) -> DlStepView {
    DlStepView::Finished { events, effects: seq![], reply: None }
}

/// An operation without a wait.
pub open spec fn doing(op: OpView, stage: StageView) -> DlStepView {
    DlStepView::Do { wait_ms: 0, op, stage }
}

/// The first operation of a command.
pub open spec fn first_step(command: DlCommandView) -> DlStepView {
    match command {
        DlCommandView::AddUri { uri, dir, feed_id } => doing(
            OpView::AddUri { uri, dir },
            StageView::AddUri { uri, feed_id },
        ),
        DlCommandView::AddBytes { torrent_url, data, dir, feed_id } => doing(
            OpView::AddTorrentBytes { data, dir },
            StageView::AddBytes { torrent_url, feed_id },
        ),
        DlCommandView::PollCompleted => doing(OpView::PollCompleted, StageView::PollCompleted),
        DlCommandView::PollFailed => doing(OpView::PollFailed, StageView::PollFailed),
        DlCommandView::QueryAll => doing(OpView::QueryAll, StageView::QueryAll),
        DlCommandView::CheckConnection => doing(
            OpView::CheckConnection,
            StageView::CheckConnection,
        ),
        DlCommandView::HandleCompleted(job) => doing(
            OpView::ListFiles { infohash: job.infohash },
            StageView::ListFiles(job),
        ),
    }
}

/// Notifications about downloads, one for each.
pub open spec fn notifications(hashes: Seq<Seq<char>>, status: DownloadStatus) -> Seq<EventView> {
    Seq::new(
        hashes.len(),
        |i: int| EventView::DownloaderNotification { infohash: hashes[i], status },
    )
}

/// The record by which the files of a completed download are resolved.
pub open spec fn record_of(job: JobView) -> EpisodeRecordView {
    EpisodeRecordView {
        infohash: job.infohash,
        torrent_url: seq![],
        feed_id: job.feed_id,
        key: EpisodeKeyView { anime: job.anime, episode: job.expected_episode },
        status: RecordStatus::Downloading,
        library_path: None,
    }
}

/// The files of a completed download on their way into the library.
pub open spec fn moving_of(job: JobView, files: Seq<TorrentFileView>) -> MovingView {
    MovingView {
        infohash: job.infohash,
        resolved: handler::resolved(
            files,
            handler::file_episodes(files),
            record_of(job),
            job.download_dir,
            job.library_dir,
        ),
        season_dir: handler::season_dir(job.library_dir, job.anime),
    }
}

/// The files in the season directory, under their original names.
pub open spec fn moved(files: MovingView) -> MovingView {
    MovingView {
        resolved: Seq::new(
            files.resolved.len(),
            |i: int|
                ResolvedFileView {
                    actual: files.season_dir + "/"@ + files.resolved[i].original_name,
                    ..files.resolved[i]
                },
        ),
        ..files
    }
}

/// The files once one of them has its new name.
pub open spec fn renamed(files: MovingView, at: int) -> MovingView {
    MovingView {
        resolved: files.resolved.update(
            at,
            ResolvedFileView {
                actual: files.season_dir + "/"@ + files.resolved[at].target_name,
                ..files.resolved[at]
            },
        ),
        ..files
    }
}

/// A path without the ending that marks an unfinished file.
pub open spec fn finished_path(path: Seq<char>) -> Seq<char> {
    match text::without_suffix(path, ".part"@) {
        Some(p) => p,
        None => path,
    }
}

/// The next file is renamed; when all are, the torrent is resumed.
pub open spec fn rename_from(files: MovingView, at: int) -> DlStepView {
    if at < files.resolved.len() {
        doing(
            OpView::RenameFile {
                infohash: files.infohash,
                old_path: finished_path(files.resolved[at].original_path),
                new_name: files.resolved[at].target_name,
            },
            StageView::Rename { files, at },
        )
    } else {
        DlStepView::Do {
            wait_ms: SETTLE_MS,
            op: OpView::Resume { infohash: files.infohash },
            stage: StageView::Resume(files),
        }
    }
}

/// The downloader could not do it: the torrent is removed from it, its files are kept.
pub open spec fn give_up(files: MovingView) -> DlStepView {
    doing(
        OpView::Remove { infohash: files.infohash, delete_files: false },
        StageView::Remove(files),
    )
}

/// The events that files are in the library.
pub open spec fn arrivals(files: MovingView) -> Seq<EventView> {
    Seq::new(
        files.resolved.len(),
        |i: int|
            EventView::EpisodeMovedToLibrary {
                infohash: files.infohash,
                episode: files.resolved[i].key.episode,
                library_path: files.resolved[i].to,
            },
    )
}

/// What follows the result of an operation.
pub open spec fn next_step(stage: StageView, result: Result<AnswerView, Seq<char>>) -> DlStepView {
    match stage {
        StageView::AddUri { uri, feed_id } => match result {
            Ok(AnswerView::Infohash(infohash)) => told(
                seq![EventView::DownloadStarted { infohash, feed_id, torrent_url: uri }],
            ),
            _ => nothing(),
        },
        StageView::AddBytes { torrent_url, feed_id } => match result {
            Ok(AnswerView::Infohash(infohash)) => if infohash.len() > 0 {
                told(seq![EventView::DownloadStarted { infohash, feed_id, torrent_url }])
            } else {
                nothing()
            },
            _ => nothing(),
        },
        StageView::PollCompleted => match result {
            Ok(AnswerView::Tasks(hashes)) => told(
                notifications(hashes, DownloadStatus::Completed),
            ),
            _ => nothing(),
        },
        StageView::PollFailed => match result {
            Ok(AnswerView::Tasks(hashes)) => told(notifications(hashes, DownloadStatus::Failed)),
            _ => nothing(),
        },
        StageView::QueryAll => match result {
            Ok(AnswerView::Snapshots(snapshots)) => told(
                seq![EventView::DownloadsRefreshed { snapshots }],
            ),
            _ => nothing(),
        },
        StageView::CheckConnection => DlStepView::Finished {
            events: seq![],
            effects: seq![],
            reply: Some(
                if result is Ok {
                    OutcomeView::Value(())
                } else {
                    OutcomeView::Error { code: 503, message: "downloader unavailable"@ }
                },
            ),
        },
        StageView::ListFiles(job) => match result {
            Ok(AnswerView::Files(files)) => doing(
                OpView::Pause { infohash: job.infohash },
                StageView::Pause(moving_of(job, files)),
            ),
            _ => nothing(),
        },
        StageView::Pause(files) => if result is Ok {
            doing(
                OpView::MoveFiles { infohash: files.infohash, new_location: files.season_dir },
                StageView::Move(files),
            )
        } else {
            give_up(files)
        },
        StageView::Move(files) => if result == Ok::<AnswerView, Seq<char>>(
            AnswerView::Changed(OpResult::Done),
        ) {
            rename_from(moved(files), 0)
        } else {
            give_up(files)
        },
        StageView::Rename { files, at } => if result == Ok::<AnswerView, Seq<char>>(
            AnswerView::Changed(OpResult::Done),
        ) {
            rename_from(renamed(files, at), at + 1)
        } else {
            give_up(files)
        },
        StageView::Resume(files) => told(arrivals(files)),
        StageView::Remove(files) => DlStepView::Finished {
            events: seq![],
            effects: seq![
                EffectView::FilesystemFallback {
                    infohash: files.infohash,
                    resolved: files.resolved,
                    season_dir: files.season_dir,
                },
            ],
            reply: None,
        },
    }
}

// ── Execution ──

fn finish() -> (r: DlStep)
    ensures
        r@ == nothing(),
{
    let r = DlStep::Finished { events: Vec::new(), effects: Vec::new(), reply: None };
    assert(r@ =~= nothing());
    r
}

fn tell(events: Vec<Event>) -> (r: DlStep)
    ensures
        r@ == told(event_views(events@)),
{
    let ghost all = event_views(events@);
    let r = DlStep::Finished { events, effects: Vec::new(), reply: None };
    assert(r@ =~= told(all));
    r
}

fn tell_one(event: Event) -> (r: DlStep)
    ensures
        r@ == told(seq![event@]),
{
    let ghost e = event@;
    let events = vec![event];
    assert(event_views(events@) =~= seq![e]);
    tell(events)
}

fn operation(op: Op, stage: Stage) -> (r: DlStep)
    ensures
        r@ == doing(op@, stage@),
        r == (DlStep::Do { wait_ms: 0, op, stage }),
{
    DlStep::Do { wait_ms: 0, op, stage }
}

/// The first operation of a command.
pub fn begin(command: DlCommand) -> (r: DlStep)
    ensures
        r@ == first_step(command@),
        r matches DlStep::Do { wait_ms, op, stage } && stage.valid(),
{
    match command {
        DlCommand::AddUri { uri, dir, feed_id } => {
            let kept = uri.clone();
            operation(Op::AddUri { uri, dir }, Stage::AddUri { uri: kept, feed_id })
        },
        DlCommand::AddBytes { torrent_url, data, dir, feed_id } => operation(
            Op::AddTorrentBytes { data, dir },
            Stage::AddBytes { torrent_url, feed_id },
        ),
        DlCommand::PollCompleted => operation(Op::PollCompleted, Stage::PollCompleted),
        DlCommand::PollFailed => operation(Op::PollFailed, Stage::PollFailed),
        DlCommand::QueryAll => operation(Op::QueryAll, Stage::QueryAll),
        DlCommand::CheckConnection => operation(Op::CheckConnection, Stage::CheckConnection),
        DlCommand::HandleCompleted(job) => {
            let infohash = job.infohash.clone();
            operation(Op::ListFiles { infohash }, Stage::ListFiles(job))
        },
    }
}

/// The view of what an operation gave.
pub open spec fn result_view(result: Result<Answer, String>) -> Result<AnswerView, Seq<char>> {
    match result {
        Ok(answer) => Ok(answer@),
        Err(e) => Err(e@),
    }
}

fn notify_all(tasks: Vec<CompletedDownload>, status: DownloadStatus) -> (r: DlStep)
    ensures
        r@ == told(notifications(crate::downloader::task_views(tasks@), status)),
{
    let ghost hashes = crate::downloader::task_views(tasks@);
    let mut events: Vec<Event> = Vec::new();
    let mut i: usize = 0;
    while i < tasks.len()
        invariant
            i <= tasks@.len(),
            events@.len() == i,
            forall|j: int|
                0 <= j < i ==> (#[trigger] events@[j])@ == (EventView::DownloaderNotification {
                    infohash: tasks@[j].infohash@,
                    status,
                }),
        decreases tasks@.len() - i,
    {
        events.push(
            Event::DownloaderNotification { infohash: tasks[i].infohash.clone(), status },
        );
        i = i + 1;
    }
    assert(event_views(events@) =~= notifications(hashes, status));
    tell(events)
}

fn set_moved(files: Moving) -> (r: Moving)
    ensures
        r@ == moved(files@),
        r.resolved@.len() == files.resolved@.len(),
{
    let mut resolved: Vec<ResolvedFile> = Vec::new();
    let mut i: usize = 0;
    while i < files.resolved.len()
        invariant
            i <= files.resolved@.len(),
            resolved@.len() == i,
            forall|j: int|
                0 <= j < i ==> (#[trigger] resolved@[j])@ == moved(files@).resolved[j],
        decreases files.resolved@.len() - i,
    {
        let mut file = files.resolved[i].clone();
        file.actual = text::join3(&files.season_dir, "/", &file.original_name);
        resolved.push(file);
        i = i + 1;
    }
    assert(handler::resolved_views(resolved@) =~= moved(files@).resolved);
    Moving { infohash: files.infohash, resolved, season_dir: files.season_dir }
}

fn set_renamed(files: Moving, at: usize) -> (r: Moving)
    requires
        at < files.resolved@.len(),
    ensures
        r@ == renamed(files@, at as int),
        r.resolved@.len() == files.resolved@.len(),
{
    let ghost before = files@;
    let mut file = files.resolved[at].clone();
    file.actual = text::join3(&files.season_dir, "/", &file.target_name);
    let ghost entry = file@;
    let mut resolved = files.resolved;
    resolved.set(at, file);
    assert(handler::resolved_views(resolved@) =~= before.resolved.update(at as int, entry));
    Moving { infohash: files.infohash, resolved, season_dir: files.season_dir }
}

fn rename_next(files: Moving, at: usize) -> (r: DlStep)
    requires
        at <= files.resolved@.len(),
    ensures
        r@ == rename_from(files@, at as int),
        r matches DlStep::Do { wait_ms, op, stage } && stage.valid(),
{
    if at < files.resolved.len() {
        let file = &files.resolved[at];
        let old_path = match text::strip_suffix(&file.original_path, ".part") {
            Some(p) => p,
            None => file.original_path.clone(),
        };
        let new_name = file.target_name.clone();
        let infohash = files.infohash.clone();
        operation(
            Op::RenameFile { infohash, old_path, new_name },
            Stage::Rename { files, at },
        )
    } else {
        let infohash = files.infohash.clone();
        DlStep::Do {
            wait_ms: SETTLE_MS,
            op: Op::Resume { infohash },
            stage: Stage::Resume(files),
        }
    }
}

fn remove_torrent(files: Moving) -> (r: DlStep)
    ensures
        r@ == give_up(files@),
        r matches DlStep::Do { wait_ms, op, stage } && stage.valid(),
{
    let infohash = files.infohash.clone();
    operation(Op::Remove { infohash, delete_files: false }, Stage::Remove(files))
}

fn report_arrivals(files: Moving) -> (r: DlStep)
    ensures
        r@ == told(arrivals(files@)),
{
    let mut events: Vec<Event> = Vec::new();
    let mut i: usize = 0;
    while i < files.resolved.len()
        invariant
            i <= files.resolved@.len(),
            events@.len() == i,
            forall|j: int| 0 <= j < i ==> (#[trigger] events@[j])@ == arrivals(files@)[j],
        decreases files.resolved@.len() - i,
    {
        let file = &files.resolved[i];
        events.push(
            Event::EpisodeMovedToLibrary {
                infohash: files.infohash.clone(),
                episode: file.key.episode,
                library_path: file.to.clone(),
            },
        );
        i = i + 1;
    }
    assert(event_views(events@) =~= arrivals(files@));
    tell(events)
}

fn start_moving(job: Job, files: Vec<crate::types::TorrentFile>) -> (r: DlStep)
    ensures
        r@ == doing(
            OpView::Pause { infohash: job@.infohash },
            StageView::Pause(moving_of(job@, handler::file_views(files@))),
        ),
        r matches DlStep::Do { wait_ms, op, stage } && stage.valid(),
{
    let record = EpisodeRecord {
        infohash: job.infohash.clone(),
        torrent_url: String::new(),
        feed_id: job.feed_id,
        key: EpisodeKey { anime: job.anime.clone(), episode: job.expected_episode },
        status: RecordStatus::Downloading,
        library_path: None,
    };
    let resolved = handler::resolve_files(&files, &record, &job.download_dir, &job.library_dir);
    let season_dir = handler::make_season_dir(&job.library_dir, &job.anime);
    let infohash = job.infohash.clone();
    operation(
        Op::Pause { infohash },
        Stage::Pause(Moving { infohash: job.infohash, resolved, season_dir }),
    )
}

fn is_done(result: &Result<Answer, String>) -> (r: bool)
    ensures
        r == (result_view(*result) == Ok::<AnswerView, Seq<char>>(
            AnswerView::Changed(OpResult::Done),
        )),
{
    match result {
        Ok(Answer::Changed(OpResult::Done)) => true,
        _ => false,
    }
}

/// Takes what an operation gave and tells what the command does next.
pub fn resume(stage: Stage, result: Result<Answer, String>) -> (r: DlStep)
    requires
        stage.valid(),
    ensures
        r@ == next_step(stage@, result_view(result)),
        r matches DlStep::Do { wait_ms, op, stage } ==> stage.valid(),
{
    match stage {
        Stage::AddUri { uri, feed_id } => match result {
            Ok(Answer::Infohash(infohash)) => tell_one(
                Event::DownloadStarted { infohash, feed_id, torrent_url: uri },
            ),
            _ => finish(),
        },
        Stage::AddBytes { torrent_url, feed_id } => match result {
            Ok(Answer::Infohash(infohash)) => if infohash.as_str().is_empty() {
                finish()
            } else {
                tell_one(Event::DownloadStarted { infohash, feed_id, torrent_url })
            },
            _ => finish(),
        },
        Stage::PollCompleted => match result {
            Ok(Answer::Tasks(tasks)) => notify_all(tasks, DownloadStatus::Completed),
            _ => finish(),
        },
        Stage::PollFailed => match result {
            Ok(Answer::Tasks(tasks)) => notify_all(tasks, DownloadStatus::Failed),
            _ => finish(),
        },
        Stage::QueryAll => match result {
            Ok(Answer::Snapshots(snapshots)) => tell_one(
                Event::DownloadsRefreshed { snapshots },
            ),
            _ => finish(),
        },
        Stage::CheckConnection => {
            let reply = match result {
                Ok(answer) => ApiResult::OK { value: () },
                Err(e) => ApiResult::Error {
                    code: http_code::SERVICE_UNAVAILABLE,
                    message: "downloader unavailable".to_owned(),
                },
            };
            let r = DlStep::Finished {
                events: Vec::new(),
                effects: Vec::new(),
                reply: Some(reply),
            };
            assert(r@ =~= next_step(stage@, result_view(result)));
            r
        },
        Stage::ListFiles(job) => match result {
            Ok(Answer::Files(files)) => start_moving(job, files),
            _ => finish(),
        },
        Stage::Pause(files) => if result.is_ok() {
            let op = Op::MoveFiles {
                infohash: files.infohash.clone(),
                new_location: files.season_dir.clone(),
            };
            operation(op, Stage::Move(files))
        } else {
            remove_torrent(files)
        },
        Stage::Move(files) => if is_done(&result) {
            rename_next(set_moved(files), 0)
        } else {
            remove_torrent(files)
        },
        Stage::Rename { files, at } => if is_done(&result) {
            let after = set_renamed(files, at);
            let count: usize = after.resolved.len();
            assert(at < count);
            rename_next(after, at + 1)
        } else {
            remove_torrent(files)
        },
        Stage::Resume(files) => report_arrivals(files),
        Stage::Remove(files) => {
            let effects = vec![
                Effect::FilesystemFallback {
                    infohash: files.infohash,
                    resolved: files.resolved,
                    season_dir: files.season_dir,
                },
            ];
            let r = DlStep::Finished { events: Vec::new(), effects, reply: None };
            assert(r@ =~= next_step(stage@, result_view(result)));
            r
        },
    }
}

// ── Laws ──

/// How far a command is from its end, once its files are known.
pub open spec fn rank(stage: StageView) -> int {
    match stage {
        StageView::Pause(files) => files.resolved.len() as int + 4,
        StageView::Move(files) => files.resolved.len() as int + 3,
        StageView::Rename { files, at } => files.resolved.len() - at + 2,
        _ => 1,
    }
}

/// Every command comes to an end, whatever the operations give: once the files are known, each
/// operation brings it nearer.
pub proof fn law_commands_end(stage: StageView, result: Result<AnswerView, Seq<char>>)
    requires
        stage matches StageView::Rename { files, at } ==> 0 <= at < files.resolved.len(),
    ensures
        next_step(stage, result) matches DlStepView::Do { wait_ms, op, stage: next } ==> (
        stage is ListFiles || 0 < rank(next) < rank(stage)),
{
}

/// A download is handled in one way: either every file is reported as moved, or all files are
/// handed to the file system. Files are never handed over before the torrent was removed from
/// the downloader, and its data is never deleted.
pub proof fn law_files_arrive_or_are_handed_over(
    stage: StageView,
    result: Result<AnswerView, Seq<char>>,
)
    requires
        stage is Pause || stage is Move || stage is Rename || stage is Resume || stage is Remove,
    ensures
        match next_step(stage, result) {
            DlStepView::Finished { events, effects, reply } => (stage is Resume
                && effects.len() == 0 && events.len() == stage->Resume_0.resolved.len()) || (
            stage is Remove && events.len() == 0 && effects.len() == 1),
            DlStepView::Do { wait_ms, op, stage: next } => op matches OpView::Remove {
                infohash,
                delete_files,
            } ==> !delete_files && next is Remove,
        },
{
}

/// A query that failed tells nothing, so no record is judged by it.
pub proof fn law_failed_query_tells_nothing(result: Result<AnswerView, Seq<char>>)
    requires
        result is Err,
    ensures
        next_step(StageView::QueryAll, result) == nothing(),
        next_step(StageView::PollCompleted, result) == nothing(),
        next_step(StageView::PollFailed, result) == nothing(),
{
}

/// aria2 can neither move nor rename: whatever else happens, a download of it is removed from the
/// downloader, and its files are handed to the file system.
pub proof fn law_aria2_hands_files_over(
    d: crate::downloader::aria2::Aria2View,
    files: MovingView,
    infohash: String,
    new_location: String,
    removed: Result<AnswerView, Seq<char>>,
)
    ensures
        crate::downloader::aria2::first_step(d, Op::MoveFiles { infohash, new_location }) matches
            NextView::Done(result) && next_step(StageView::Move(files), result) == give_up(files),
        next_step(StageView::Remove(files), removed) matches DlStepView::Finished { effects, .. }
            && effects == seq![
            EffectView::FilesystemFallback {
                infohash: files.infohash,
                resolved: files.resolved,
                season_dir: files.season_dir,
            },
        ],
{
}

/// Two groups of files are the same but for where the files are now.
pub open spec fn same_files(a: MovingView, b: MovingView) -> bool {
    &&& a.infohash == b.infohash
    &&& a.season_dir == b.season_dir
    &&& a.resolved.len() == b.resolved.len()
    &&& forall|i: int|
        #![trigger b.resolved[i]]
        0 <= i < a.resolved.len() ==> b.resolved[i] == (ResolvedFileView {
            actual: b.resolved[i].actual,
            ..a.resolved[i]
        })
}

/// Every file goes to the season directory, under its new name.
pub open spec fn go_home(files: MovingView) -> bool {
    forall|i: int|
        #![trigger files.resolved[i]]
        0 <= i < files.resolved.len() ==> files.resolved[i].to == files.season_dir + "/"@
            + files.resolved[i].target_name
}

/// The files that a stage carries.
pub open spec fn files_of(stage: StageView) -> Option<MovingView> {
    match stage {
        StageView::Pause(files) => Some(files),
        StageView::Move(files) => Some(files),
        StageView::Rename { files, at } => Some(files),
        StageView::Resume(files) => Some(files),
        StageView::Remove(files) => Some(files),
        _ => None,
    }
}

/// The torrent that an operation is about.
pub open spec fn torrent_of(op: OpView) -> Option<Seq<char>> {
    match op {
        OpView::ListFiles { infohash } => Some(infohash),
        OpView::Pause { infohash } => Some(infohash),
        OpView::MoveFiles { infohash, new_location } => Some(infohash),
        OpView::RenameFile { infohash, old_path, new_name } => Some(infohash),
        OpView::Resume { infohash } => Some(infohash),
        OpView::Remove { infohash, delete_files } => Some(infohash),
        _ => None,
    }
}

proof fn lemma_go_home(
    files: Seq<TorrentFileView>,
    episodes: Seq<u32>,
    record: EpisodeRecordView,
    download_dir: Seq<char>,
    library_dir: Seq<char>,
    i: int,
)
    requires
        0 <= i < handler::resolved(files, episodes, record, download_dir, library_dir).len(),
    ensures
        ({
            let f = handler::resolved(files, episodes, record, download_dir, library_dir)[i];
            f.to == handler::season_dir(library_dir, record.key.anime) + "/"@ + f.target_name
        }),
    decreases files.len(),
{
    if files.len() > 0 {
        let n = files.len() - 1;
        let before = handler::resolved(files.take(n), episodes, record, download_dir, library_dir);
        if i < before.len() {
            lemma_go_home(files.take(n), episodes, record, download_dir, library_dir, i);
        }
    }
}

/// A completed download is handled under its own infohash: its files are listed, then it is
/// paused. Of the files, those whose names carry an episode number are put in the library, each at
/// the place of its episode of the job's anime, which lies in the season directory.
pub proof fn law_completed_download_is_resolved(
    job: JobView,
    files: Seq<TorrentFileView>,
    j: int,
)
    requires
        0 <= j < files.len(),
    ensures
        ({
            &&& first_step(DlCommandView::HandleCompleted(job)) matches DlStepView::Do {
                op: list,
                stage: listing,
                ..
            }
            &&& list == (OpView::ListFiles { infohash: job.infohash })
            &&& next_step(listing, Ok(AnswerView::Files(files))) matches DlStepView::Do {
                op: pause,
                stage: pausing,
                ..
            }
            &&& pause == (OpView::Pause { infohash: job.infohash })
            &&& files_of(pausing) matches Some(moving)
            &&& moving.infohash == job.infohash
            &&& go_home(moving)
            &&& exists|season: Seq<char>|
                #[trigger] handler::is_two_digits(season, job.anime.season as nat)
                    && moving.season_dir == job.library_dir + "/"@ + job.anime.name + "/S"@
                    + season
            &&& tokenizer::parsed_title(files[j].name).episode matches Some(number) ==> (
            single::decimal_whole(number) > 0 ==> exists|i: int, episode: u32|
                0 <= i < moving.resolved.len() && (episode == single::decimal_whole(number) || i
                    == 0 && episode == job.expected_episode && episode > 0)
                    && #[trigger] handler::is_resolved_from(
                    moving.resolved[i],
                    files[j],
                    record_of(job),
                    job.download_dir,
                    job.library_dir,
                    episode,
                ))
        }),
        record_of(job).feed_id == job.feed_id,
        record_of(job).key.anime == job.anime,
        record_of(job).key.episode == job.expected_episode,
{
    let m = moving_of(job, files);
    let episodes = handler::file_episodes(files);
    let record = record_of(job);
    assert forall|i: int|
        #![trigger m.resolved[i]]
        0 <= i < m.resolved.len() implies m.resolved[i].to == m.season_dir + "/"@
        + m.resolved[i].target_name by {
        lemma_go_home(files, episodes, record, job.download_dir, job.library_dir, i);
    }
    text::law_two_digits(job.anime.season as nat);
    assert(handler::is_two_digits(
        text::decimal2(job.anime.season as nat),
        job.anime.season as nat,
    ));
    handler::law_each_numbered_file_goes_home(
        files,
        episodes,
        record,
        job.download_dir,
        job.library_dir,
        j,
    );
    if let Some(number) = tokenizer::parsed_title(files[j].name).episode {
        if single::decimal_whole(number) > 0 {
            assert(episodes[j] == single::decimal_whole(number));
            let i = handler::numbered(episodes, j);
            let episode = if i == 0 && record.key.episode > 0 {
                record.key.episode
            } else {
                episodes[j]
            };
            assert(handler::is_resolved_from(
                m.resolved[i],
                files[j],
                record_of(job),
                job.download_dir,
                job.library_dir,
                episode,
            ));
        }
    }
}

/// From then on the files stay what they are, but for where they are now, and every operation is
/// about their torrent.
pub proof fn law_files_stay_what_they_are(
    stage: StageView,
    result: Result<AnswerView, Seq<char>>,
)
    requires
        files_of(stage) is Some,
        stage matches StageView::Rename { files, at } ==> 0 <= at < files.resolved.len(),
    ensures
        next_step(stage, result) matches DlStepView::Do { wait_ms, op, stage: next } ==> {
            &&& files_of(next) is Some
            &&& same_files(files_of(stage)->0, files_of(next)->0)
            &&& torrent_of(op) == Some(files_of(stage)->0.infohash)
            &&& go_home(files_of(stage)->0) ==> go_home(files_of(next)->0)
        },
{
    let a = files_of(stage)->0;
    if let DlStepView::Do { wait_ms, op, stage: next } = next_step(stage, result) {
        let b = files_of(next)->0;
        assert(same_files(a, b));
        if go_home(a) {
            assert forall|i: int|
                #![trigger b.resolved[i]]
                0 <= i < b.resolved.len() implies b.resolved[i].to == b.season_dir + "/"@
                + b.resolved[i].target_name by {
                assert(a.resolved[i].to == a.season_dir + "/"@ + a.resolved[i].target_name);
            }
        }
    }
}

/// `op` renames the file at `at`: from its path in the torrent, without the ending of an
/// unfinished file, to its new name.
pub open spec fn renames(op: OpView, files: MovingView, at: int) -> bool {
    &&& 0 <= at < files.resolved.len()
    &&& op is RenameFile
    &&& op->RenameFile_infohash == files.infohash
    &&& op->new_name == files.resolved[at].target_name
    &&& op->old_path == files.resolved[at].original_path || op->old_path + ".part"@
        == files.resolved[at].original_path
    &&& !".part"@.is_suffix_of(op->old_path) || op->old_path + ".part"@
        == files.resolved[at].original_path
}

proof fn lemma_renames(files: MovingView, at: int)
    requires
        0 <= at < files.resolved.len(),
    ensures
        rename_from(files, at) matches DlStepView::Do { op, .. } && renames(op, files, at),
{
    let path = files.resolved[at].original_path;
    let ending = ".part"@;
    if ending.is_suffix_of(path) {
        assert(path.take(path.len() - ending.len()) + ending =~= path);
    }
}

/// Where the downloader does what it is told, the files are moved to the season directory
/// together, then each is given its new name, one after another, then, after half a second, the torrent is
/// resumed. All files are reported then, each with its own episode, under the directory that it was moved to, a
/// slash and the name that it was given.
pub proof fn law_files_are_reported_where_they_were_put(
    files: MovingView,
    at: int,
    resumed: Result<AnswerView, Seq<char>>,
)
    requires
        go_home(files),
        0 <= at < files.resolved.len(),
    ensures
        ({
            &&& next_step(StageView::Pause(files), Ok(AnswerView::Changed(OpResult::Done))) matches DlStepView::Do {
                op,
                stage,
                ..
            }
            &&& op == (OpView::MoveFiles {
                infohash: files.infohash,
                new_location: files.season_dir,
            })
            &&& stage == StageView::Move(files)
        }),
        ({
            &&& next_step(StageView::Move(files), Ok(AnswerView::Changed(OpResult::Done))) matches DlStepView::Do {
                op,
                stage,
                ..
            }
            &&& renames(op, files, 0)
            &&& stage is Rename && stage->at == 0
            &&& forall|i: int|
                0 <= i < files.resolved.len() ==> (#[trigger] stage->Rename_files.resolved[i]).actual
                    == files.season_dir + "/"@ + files.resolved[i].original_name
        }),
        ({
            let done = next_step(
                StageView::Rename { files, at },
                Ok(AnswerView::Changed(OpResult::Done)),
            );
            &&& at + 1 < files.resolved.len() ==> (done matches DlStepView::Do { op, stage, .. }
                && renames(op, files, at + 1) && stage is Rename && stage->at == at + 1)
            &&& at + 1 == files.resolved.len() ==> (done matches DlStepView::Do {
                wait_ms,
                op,
                stage,
            } && wait_ms == 500 && op == (OpView::Resume { infohash: files.infohash })
                && stage is Resume)
            &&& done matches DlStepView::Do { stage, .. }
            &&& files_of(stage)->0.resolved[at].actual == files.resolved[at].to
            &&& forall|i: int|
                0 <= i < files.resolved.len() && i != at ==> (
                #[trigger] files_of(stage)->0.resolved[i]).actual == files.resolved[i].actual
        }),
        ({
            &&& next_step(StageView::Resume(files), resumed) matches DlStepView::Finished {
                events,
                effects,
                ..
            }
            &&& effects.len() == 0
            &&& events.len() == files.resolved.len()
            &&& events[at] == (EventView::EpisodeMovedToLibrary {
                infohash: files.infohash,
                episode: files.resolved[at].key.episode,
                library_path: files.season_dir + "/"@ + files.resolved[at].target_name,
            })
        }),
{
    let m = moved(files);
    lemma_renames(m, 0);
    assert(m.resolved[0] == (ResolvedFileView {
        actual: m.resolved[0].actual,
        ..files.resolved[0]
    }));
    let r = renamed(files, at);
    if at + 1 < files.resolved.len() {
        lemma_renames(r, at + 1);
        assert(r.resolved[at + 1] == files.resolved[at + 1]);
    }
    assert(r.resolved[at].actual == files.season_dir + "/"@ + files.resolved[at].target_name);
}

/// Where the downloader does not do what it is told, the torrent is removed from it and its data
/// is kept; then all files are handed to the file system as they are, with the season directory.
pub proof fn law_files_are_handed_over_as_they_are(
    stage: StageView,
    result: Result<AnswerView, Seq<char>>,
    removed: Result<AnswerView, Seq<char>>,
)
    requires
        stage is Pause && result is Err || (stage is Move || stage is Rename) && result != Ok::<
            AnswerView,
            Seq<char>,
        >(AnswerView::Changed(OpResult::Done)),
    ensures
        ({
            let files = files_of(stage)->0;
            &&& next_step(stage, result) matches DlStepView::Do { op, stage: next, .. }
            &&& op == (OpView::Remove { infohash: files.infohash, delete_files: false })
            &&& next_step(next, removed) matches DlStepView::Finished { events, effects, .. }
            &&& events.len() == 0
            &&& effects.len() == 1
            &&& effects[0] == (EffectView::FilesystemFallback {
                infohash: files.infohash,
                resolved: files.resolved,
                season_dir: files.season_dir,
            })
        }),
{
}

/// A torrent is added from the link or the bytes of its command, into the directory of the
/// command; a download that started is told with the infohash that the downloader gave, and with
/// the command's own feed and link.
pub proof fn law_started_download_is_told(
    uri: Seq<char>,
    data: Seq<u8>,
    dir: Seq<char>,
    feed_id: FeedId,
    infohash: Seq<char>,
)
    ensures
        ({
            &&& first_step(DlCommandView::AddUri { uri, dir, feed_id }) matches DlStepView::Do {
                op,
                stage,
                ..
            }
            &&& op == (OpView::AddUri { uri, dir })
            &&& next_step(stage, Ok(AnswerView::Infohash(infohash))) matches DlStepView::Finished {
                events,
                ..
            }
            &&& events == seq![
                EventView::DownloadStarted { infohash, feed_id, torrent_url: uri },
            ]
        }),
        ({
            &&& first_step(
                DlCommandView::AddBytes { torrent_url: uri, data, dir, feed_id },
            ) matches DlStepView::Do { op, stage, .. }
            &&& op == (OpView::AddTorrentBytes { data, dir })
            &&& next_step(stage, Ok(AnswerView::Infohash(infohash))) matches DlStepView::Finished {
                events,
                ..
            }
            &&& infohash.len() > 0 ==> events == seq![
                EventView::DownloadStarted { infohash, feed_id, torrent_url: uri },
            ]
            &&& infohash.len() == 0 ==> events.len() == 0
        }),
{
}

/// A poll tells of exactly the downloads that the downloader gave, in their order: as completed
/// where completed ones were asked for, as failed where failed ones were.
pub proof fn law_polled_downloads_are_told(hashes: Seq<Seq<char>>)
    ensures
        ({
            &&& first_step(DlCommandView::PollCompleted) matches DlStepView::Do { op, stage, .. }
            &&& op == OpView::PollCompleted
            &&& next_step(stage, Ok(AnswerView::Tasks(hashes))) matches DlStepView::Finished {
                events,
                ..
            }
            &&& events.len() == hashes.len()
            &&& forall|i: int|
                0 <= i < hashes.len() ==> #[trigger] events[i] == (
                EventView::DownloaderNotification {
                    infohash: hashes[i],
                    status: DownloadStatus::Completed,
                })
        }),
        ({
            &&& first_step(DlCommandView::PollFailed) matches DlStepView::Do { op, stage, .. }
            &&& op == OpView::PollFailed
            &&& next_step(stage, Ok(AnswerView::Tasks(hashes))) matches DlStepView::Finished {
                events,
                ..
            }
            &&& events.len() == hashes.len()
            &&& forall|i: int|
                0 <= i < hashes.len() ==> #[trigger] events[i] == (
                EventView::DownloaderNotification {
                    infohash: hashes[i],
                    status: DownloadStatus::Failed,
                })
        }),
{
}

/// An operation that failed starts nothing and moves nothing: a torrent that could not be added is
/// not told as started, and files that could not be listed are left alone.
pub proof fn law_failed_operations_start_nothing(
    uri: Seq<char>,
    feed_id: FeedId,
    job: JobView,
    error: Seq<char>,
)
    ensures
        ({
            let failed = Err::<AnswerView, Seq<char>>(error);
            let link = next_step(StageView::AddUri { uri, feed_id }, failed);
            let bytes = next_step(StageView::AddBytes { torrent_url: uri, feed_id }, failed);
            let listing = next_step(StageView::ListFiles(job), failed);
            &&& link is Finished && link->events.len() == 0 && link->effects.len() == 0
            &&& bytes is Finished && bytes->events.len() == 0 && bytes->effects.len() == 0
            &&& listing is Finished && listing->events.len() == 0 && listing->effects.len() == 0
        }),
{
}

/// A query tells the snapshots that the downloader gave, as they are; a check is answered with
/// success exactly if the downloader answered it, and with 503 otherwise.
pub proof fn law_queries_are_told(
    snapshots: Seq<DownloadSnapshotView>,
    result: Result<AnswerView, Seq<char>>,
)
    ensures
        ({
            &&& first_step(DlCommandView::QueryAll) matches DlStepView::Do { op, stage, .. }
            &&& op == OpView::QueryAll
            &&& next_step(stage, Ok(AnswerView::Snapshots(snapshots))) matches DlStepView::Finished {
                events,
                ..
            }
            &&& events == seq![EventView::DownloadsRefreshed { snapshots }]
        }),
        ({
            &&& first_step(DlCommandView::CheckConnection) matches DlStepView::Do { op, stage, .. }
            &&& op == OpView::CheckConnection
            &&& next_step(stage, result) matches DlStepView::Finished { reply, .. }
            &&& result is Ok ==> reply == Some(OutcomeView::Value(()))
            &&& result is Err ==> (reply matches Some(OutcomeView::Error { code, message }) && code
                == 503)
        }),
{
}

} // verus!
