//! The effect executor: which action an effect comes to, and how files are moved in the file
//! system where the downloader could not move them.
use vstd::prelude::*;

use crate::config;
use crate::dl_command::{DlCommand, DlCommandView, Job, JobView};
use crate::downloader;
use crate::effect::{Effect, EffectView};
use crate::event::{Event, EventView};
use crate::feed_id::FeedId;
use crate::fetch::{FetchJob, FetchJobView};
use crate::handler::{self, ResolvedFile, ResolvedFileView};
use crate::notify::{self, WebhookConfig, WebhookView};
use crate::text;
use crate::types::{Notification, NotificationView};

verus! {

// ── Effects ──

/// What an effect comes to.
#[derive(PartialEq)]
pub enum Action {
    /// Hand a job to the fetch pool; it is dropped if the queue is full.
    Fetch(FetchJob),
    /// Hand a command to the downloader thread; it is dropped if the queue is full.
    Command(DlCommand),
    /// Send an event to the reducer.
    Send(Event),
    /// Write a line to the log.
    Log(String),
    /// Move files in the file system.
    Files(Fallback),
    Nothing,
}

#[verifier::ext_equal]
pub enum ActionView {
    Fetch(FetchJobView),
    Command(DlCommandView),
    Send(EventView),
    Log(Seq<char>),
    Files(FallbackView),
    Nothing,
}

impl View for Action {
    type V = ActionView;

    open spec fn view(&self) -> ActionView {
        match self {
            Action::Fetch(job) => ActionView::Fetch(job@),
            Action::Command(command) => ActionView::Command(command@),
            Action::Send(event) => ActionView::Send(event@),
            Action::Log(line) => ActionView::Log(line@),
            Action::Files(fallback) => ActionView::Files(fallback@),
            Action::Nothing => ActionView::Nothing,
        }
    }
}

/// Whether a URI leads to a `.torrent` file.
pub open spec fn is_torrent_link(uri: Seq<char>) -> bool {
    ".torrent"@.is_suffix_of(uri) || text::contains(uri, ".torrent?"@)
}

/// The action of a notification: a webhook message, or a line in the log where there is no
/// webhook.
pub open spec fn notify_action(webhook: Option<WebhookView>, n: NotificationView) -> ActionView {
    match webhook {
        Some(cfg) => ActionView::Fetch(
            FetchJobView::Notify {
                url: cfg.url,
                body: notify::webhook_message(cfg, n).0,
                content_type: notify::webhook_message(cfg, n).1,
            },
        ),
        None => ActionView::Log(notify::log_line_of(n)),
    }
}

/// The action of an effect. A feed is not fetched without a download directory.
pub open spec fn action_of(effect: EffectView, webhook: Option<WebhookView>) -> ActionView {
    match effect {
        EffectView::FetchRss { url, feed_id, download_dir } => if download_dir.len() == 0 {
            ActionView::Nothing
        } else {
            ActionView::Fetch(FetchJobView::FetchRss { url, feed_id, download_dir })
        },
        EffectView::AddTorrent { torrent_url, save_path, feed_id } => if is_torrent_link(
            torrent_url,
        ) {
            ActionView::Fetch(
                FetchJobView::DownloadTorrent { uri: torrent_url, save_path, feed_id },
            )
        } else {
            ActionView::Command(
                DlCommandView::AddUri { uri: torrent_url, dir: save_path, feed_id },
            )
        },
        EffectView::AddTorrentBytes { data, save_path, feed_id, torrent_url } => {
            ActionView::Command(
                DlCommandView::AddBytes { torrent_url, data, dir: save_path, feed_id },
            )
        },
        EffectView::HandleCompleted {
            infohash,
            feed_id,
            anime,
            library_dir,
            download_dir,
            expected_episode,
        } => ActionView::Command(
            DlCommandView::HandleCompleted(
                JobView { infohash, feed_id, anime, library_dir, download_dir, expected_episode },
            ),
        ),
        EffectView::Notify(n) => notify_action(webhook, n),
        EffectView::QueryAllDownloads => ActionView::Command(DlCommandView::QueryAll),
        EffectView::PollCompleted => ActionView::Command(DlCommandView::PollCompleted),
        EffectView::PollFailed => ActionView::Command(DlCommandView::PollFailed),
        EffectView::CheckDownloader => ActionView::Command(DlCommandView::CheckConnection),
        EffectView::RssFetchComplete { feed_id, items, download_dir } => ActionView::Send(
            EventView::RssItemsFetched { feed_id, items, download_dir },
        ),
        EffectView::RssFetchFailed { feed_id, error } => ActionView::Send(
            EventView::RssFetchFailed { feed_id, error },
        ),
        EffectView::FilesystemFallback { infohash, resolved, season_dir } => ActionView::Files(
            FallbackView { infohash, files: resolved, season_dir },
        ),
    }
}

fn do_fetch_rss(url: String, feed_id: FeedId, download_dir: String) -> (r: Action)
    ensures
        r@ == action_of(
            EffectView::FetchRss { url: url@, feed_id, download_dir: download_dir@ },
            None,
        ),
{
    if download_dir.as_str().is_empty() {
        Action::Nothing
    } else {
        Action::Fetch(FetchJob::FetchRss { url, feed_id, download_dir })
    }
}

fn do_add_torrent(uri: String, dir: String, feed_id: FeedId) -> (r: Action)
    ensures
        r@ == action_of(
            EffectView::AddTorrent { torrent_url: uri@, save_path: dir@, feed_id },
            None,
        ),
{
    if text::ends_with(&uri, ".torrent") || text::has_text(&uri, ".torrent?") {
        Action::Fetch(FetchJob::DownloadTorrent { uri, save_path: dir, feed_id })
    } else {
        Action::Command(DlCommand::AddUri { uri, dir, feed_id })
    }
}

fn do_notify(notification: &Notification, webhook: &Option<WebhookConfig>) -> (r: Action)
    ensures
        r@ == notify_action(config::webhook_view(*webhook), notification@),
{
    match webhook {
        Some(cfg) => {
            let (body, content_type) = notify::compose(cfg, notification);
            Action::Fetch(FetchJob::Notify { url: cfg.url.clone(), body, content_type })
        },
        None => Action::Log(notify::log_line(notification)),
    }
}

/// The action of an effect.
pub fn execute(effect: Effect, webhook: &Option<WebhookConfig>) -> (r: Action)
    ensures
        r@ == action_of(effect@, config::webhook_view(*webhook)),
{
    match effect {
        Effect::FetchRss { url, feed_id, download_dir } => do_fetch_rss(
            url,
            feed_id,
            download_dir,
        ),
        Effect::AddTorrent { torrent_url, save_path, feed_id } => do_add_torrent(
            torrent_url,
            save_path,
            feed_id,
        ),
        Effect::HandleCompleted {
            infohash,
            feed_id,
            anime,
            library_dir,
            download_dir,
            expected_episode,
        } => Action::Command(
            DlCommand::HandleCompleted(
                Job { infohash, feed_id, anime, library_dir, download_dir, expected_episode },
            ),
        ),
        Effect::AddTorrentBytes { data, save_path, feed_id, torrent_url } => Action::Command(
            DlCommand::AddBytes { torrent_url, data, dir: save_path, feed_id },
        ),
        Effect::Notify(notification) => do_notify(&notification, webhook),
        Effect::QueryAllDownloads => Action::Command(DlCommand::QueryAll),
        Effect::CheckDownloader => Action::Command(DlCommand::CheckConnection),
        Effect::RssFetchComplete { feed_id, items, download_dir } => Action::Send(
            Event::RssItemsFetched { feed_id, items, download_dir },
        ),
        Effect::RssFetchFailed { feed_id, error } => Action::Send(
            Event::RssFetchFailed { feed_id, error },
        ),
        Effect::PollCompleted => Action::Command(DlCommand::PollCompleted),
        Effect::PollFailed => Action::Command(DlCommand::PollFailed),
        Effect::FilesystemFallback { infohash, resolved, season_dir } => Action::Files(
            Fallback { infohash, files: resolved, season_dir },
        ),
    }
}

// ── Moving files in the file system ──

/// Files that the downloader could not move. Each may be in the staging directory, or in the
/// season directory under its new or its old name.
#[derive(Debug, PartialEq)]
pub struct Fallback {
    pub infohash: String,
    pub files: Vec<ResolvedFile>,
    pub season_dir: String,
}

#[verifier::ext_equal]
pub struct FallbackView {
    pub infohash: Seq<char>,
    pub files: Seq<ResolvedFileView>,
    pub season_dir: Seq<char>,
}

impl View for Fallback {
    type V = FallbackView;

    open spec fn view(&self) -> FallbackView {
        FallbackView {
            infohash: self.infohash@,
            files: handler::resolved_views(self.files@),
            season_dir: self.season_dir@,
        }
    }
}

/// What is being done for a file.
#[derive(Debug, PartialEq)]
pub enum Phase {
    /// Looking whether it is in the library already.
    Arrived,
    /// Looking for it in one of three places.
    Place(u8),
    /// Making the directory that it goes to, having found it at `source`.
    MakeDir { source: String },
    /// Moving it.
    Move,
}

#[verifier::ext_equal]
pub enum PhaseView {
    Arrived,
    Place(u8),
    MakeDir { source: Seq<char> },
    Move,
}

impl View for Phase {
    type V = PhaseView;

    open spec fn view(&self) -> PhaseView {
        match self {
            Phase::Arrived => PhaseView::Arrived,
            Phase::Place(n) => PhaseView::Place(*n),
            Phase::MakeDir { source } => PhaseView::MakeDir { source: source@ },
            Phase::Move => PhaseView::Move,
        }
    }
}

/// A file-system call. Its outcome is whether the path exists, or whether the call worked.
#[derive(Debug, PartialEq)]
pub enum FsCall {
    Exists { path: String },
    EnsureDir { path: String },
    MoveFile { from: String, to: String },
}

#[verifier::ext_equal]
pub enum FsCallView {
    Exists { path: Seq<char> },
    EnsureDir { path: Seq<char> },
    MoveFile { from: Seq<char>, to: Seq<char> },
}

impl View for FsCall {
    type V = FsCallView;

    open spec fn view(&self) -> FsCallView {
        match self {
            FsCall::Exists { path } => FsCallView::Exists { path: path@ },
            FsCall::EnsureDir { path } => FsCallView::EnsureDir { path: path@ },
            FsCall::MoveFile { from, to } => FsCallView::MoveFile { from: from@, to: to@ },
        }
    }
}

/// The next file-system call, for the file at index `at`; `None` when all files are done.
#[derive(Debug, PartialEq)]
pub struct FsStep {
    pub call: FsCall,
    pub at: usize,
    pub phase: Phase,
}

#[verifier::ext_equal]
pub struct FsStepView {
    pub call: FsCallView,
    pub at: int,
    pub phase: PhaseView,
}

/// The view of an optional step.
pub open spec fn step_view(step: Option<FsStep>) -> Option<FsStepView> {
    match step {
        Some(s) => Some(FsStepView { call: s.call@, at: s.at as int, phase: s.phase@ }),
        None => None,
    }
}

/// The directory that a path is in.
pub open spec fn parent_of(path: Seq<char>) -> Seq<char> {
    match text::rfind(path, seq!['/']) {
        Some(i) => if downloader::without_slashes(path.take(i)).len() == 0 {
            seq!['/']
        } else {
            downloader::without_slashes(path.take(i))
        },
        None => seq![],
    }
}

/// The directory that a path is in.
pub fn parent(path: &str) -> (r: String)
    ensures
        r@ == parent_of(path@),
{
    let chars = text::chars_of(path);
    let mut slash: Vec<char> = Vec::new();
    slash.push('/');
    assert(slash@ =~= seq!['/']);
    match text::rfind_chars(&chars, &slash) {
        Some(i) => {
            let head = text::text_of(&chars, 0, i);
            assert(head@ =~= path@.take(i as int));
            let dir = downloader::trim_slashes(&head);
            if dir.as_str().is_empty() {
                proof {
                    reveal_strlit("/");
                    assert("/"@ =~= seq!['/']);
                }
                "/".to_owned()
            } else {
                dir
            }
        },
        None => String::new(),
    }
}

/// The places where a file is looked for.
pub open spec fn place(f: FallbackView, at: int, n: u8) -> Seq<char> {
    if n == 0 {
        f.files[at].actual
    } else if n == 1 {
        f.season_dir + "/"@ + f.files[at].target_name
    } else {
        f.season_dir + "/"@ + f.files[at].original_name
    }
}

/// The first step for the file at an index.
pub open spec fn step_for(f: FallbackView, at: int) -> Option<FsStepView> {
    if at < f.files.len() {
        Some(
            FsStepView {
                call: FsCallView::Exists { path: f.files[at].to },
                at,
                phase: PhaseView::Arrived,
            },
        )
    } else {
        None
    }
}

/// A file is looked for in one of its places.
pub open spec fn look_in(f: FallbackView, at: int, n: u8) -> Option<FsStepView> {
    Some(
        FsStepView {
            call: FsCallView::Exists { path: place(f, at, n) },
            at,
            phase: PhaseView::Place(n),
        },
    )
}

/// What follows the outcome of a call: a file that is in the library already, or nowhere, or that
/// cannot be moved, is passed over.
pub open spec fn step_after(f: FallbackView, at: int, phase: PhaseView, worked: bool) -> Option<
    FsStepView,
> {
    match phase {
        PhaseView::Arrived => if worked {
            step_for(f, at + 1)
        } else {
            look_in(f, at, 0)
        },
        PhaseView::Place(n) => if worked {
            Some(
                FsStepView {
                    call: FsCallView::EnsureDir { path: parent_of(f.files[at].to) },
                    at,
                    phase: PhaseView::MakeDir { source: place(f, at, n) },
                },
            )
        } else if n < 2 {
            look_in(f, at, (n + 1) as u8)
        } else {
            step_for(f, at + 1)
        },
        PhaseView::MakeDir { source } => if worked {
            Some(
                FsStepView {
                    call: FsCallView::MoveFile { from: source, to: f.files[at].to },
                    at,
                    phase: PhaseView::Move,
                },
            )
        } else {
            step_for(f, at + 1)
        },
        PhaseView::Move => step_for(f, at + 1),
    }
}

/// The event that a call leads to: a file that was moved is in the library.
pub open spec fn event_after(f: FallbackView, at: int, phase: PhaseView, worked: bool) -> Option<
    EventView,
> {
    if phase is Move && worked {
        Some(
            EventView::EpisodeMovedToLibrary {
                infohash: f.infohash,
                episode: f.files[at].key.episode,
                library_path: f.files[at].to,
            },
        )
    } else {
        None
    }
}

impl Fallback {
    fn step(&self, at: usize) -> (r: Option<FsStep>)
        requires
            at <= self.files@.len(),
        ensures
            step_view(r) == step_for(self@, at as int),
            r matches Some(s) ==> s.at < self.files@.len(),
    {
        if at < self.files.len() {
            let path = self.files[at].to.clone();
            Some(FsStep { call: FsCall::Exists { path }, at, phase: Phase::Arrived })
        } else {
            None
        }
    }

    fn place_of(&self, at: usize, n: u8) -> (r: String)
        requires
            at < self.files@.len(),
        ensures
            r@ == place(self@, at as int, n),
    {
        let file = &self.files[at];
        if n == 0 {
            file.actual.clone()
        } else if n == 1 {
            text::join3(&self.season_dir, "/", &file.target_name)
        } else {
            text::join3(&self.season_dir, "/", &file.original_name)
        }
    }

    fn look(&self, at: usize, n: u8) -> (r: Option<FsStep>)
        requires
            at < self.files@.len(),
        ensures
            step_view(r) == look_in(self@, at as int, n),
            r matches Some(s) ==> s.at < self.files@.len(),
    {
        let path = self.place_of(at, n);
        Some(FsStep { call: FsCall::Exists { path }, at, phase: Phase::Place(n) })
    }

    /// The first file-system call.
    pub fn begin(&self) -> (r: Option<FsStep>)
        ensures
            step_view(r) == step_for(self@, 0),
            r matches Some(s) ==> s.at < self.files@.len(),
    {
        self.step(0)
    }

    /// Takes the outcome of a call: the next one, and the event that a file was moved.
    pub fn resume(&self, at: usize, phase: Phase, worked: bool) -> (r: (
        Option<FsStep>,
        Option<Event>,
    ))
        requires
            at < self.files@.len(),
        ensures
            step_view(r.0) == step_after(self@, at as int, phase@, worked),
            (match r.1 {
                Some(e) => Some(e@),
                None => None,
            }) == event_after(self@, at as int, phase@, worked),
            r.0 matches Some(s) ==> s.at < self.files@.len(),
    {
        let count: usize = self.files.len();
        assert(at < count);
        let next: usize = at + 1;
        match phase {
            Phase::Arrived => if worked {
                (self.step(next), None)
            } else {
                (self.look(at, 0), None)
            },
            Phase::Place(n) => if worked {
                let call = FsCall::EnsureDir { path: parent(&self.files[at].to) };
                let source = self.place_of(at, n);
                (Some(FsStep { call, at, phase: Phase::MakeDir { source } }), None)
            } else if n < 2 {
                (self.look(at, n + 1), None)
            } else {
                (self.step(next), None)
            },
            Phase::MakeDir { source } => if worked {
                let to = self.files[at].to.clone();
                let call = FsCall::MoveFile { from: source, to };
                (Some(FsStep { call, at, phase: Phase::Move }), None)
            } else {
                (self.step(next), None)
            },
            Phase::Move => {
                let event = if worked {
                    Some(
                        Event::EpisodeMovedToLibrary {
                            infohash: self.infohash.clone(),
                            episode: self.files[at].key.episode,
                            library_path: self.files[at].to.clone(),
                        },
                    )
                } else {
                    None
                };
                (self.step(next), event)
            },
        }
    }
}

// ── Laws ──

/// How far the moving of files is from its end.
pub open spec fn distance(f: FallbackView, at: int, phase: PhaseView) -> int {
    (f.files.len() - at) * 8 + match phase {
        PhaseView::Arrived => 7int,
        PhaseView::Place(n) => if n < 3 {
            6 - n
        } else {
            3
        },
        PhaseView::MakeDir { source } => 2int,
        PhaseView::Move => 1int,
    }
}

/// The moving of files comes to an end, whatever the file system answers.
pub proof fn law_moving_ends(f: FallbackView, at: int, phase: PhaseView, worked: bool)
    requires
        0 <= at < f.files.len(),
    ensures
        step_after(f, at, phase, worked) matches Some(next) ==> at <= next.at < f.files.len() && 0
            < distance(f, next.at, next.phase) < distance(f, at, phase),
{
}

/// A file that is in the library already is neither moved nor reported again; a file is moved
/// only from a place where it was found, to its own place in the library.
pub proof fn law_files_are_moved_home(f: FallbackView, at: int, phase: PhaseView, worked: bool)
    requires
        0 <= at < f.files.len(),
    ensures
        phase is Arrived && worked ==> step_after(f, at, phase, worked) == step_for(f, at + 1)
            && event_after(f, at, phase, worked) is None,
        step_after(f, at, phase, worked) matches Some(next) ==> (
        next.call matches FsCallView::MoveFile { from, to } ==> to == f.files[at].to && phase == (
        PhaseView::MakeDir { source: from })),
        step_after(f, at, phase, worked) matches Some(next) ==> (
        next.phase matches PhaseView::MakeDir { source } ==> worked && phase is Place && source
            == place(f, at, phase->Place_0)),
{
}

proof fn lemma_parent(dir: Seq<char>, name: Seq<char>)
    requires
        !name.contains('/'),
    ensures
        dir.len() > 0 && dir.last() != '/' ==> parent_of(dir + "/"@ + name) == dir,
        dir.len() == 0 ==> parent_of(dir + "/"@ + name) == "/"@,
{
    reveal_strlit("/");
    assert("/"@ =~= seq!['/']);
    let path = dir + "/"@ + name;
    text::lemma_rfind_char(dir, '/', name);
    assert(path.take(dir.len() as int) =~= dir);
}

/// A file that was found is moved in two calls. The first makes the directory that the file's
/// destination is in: the destination is that directory, a slash and the file's name there. The
/// second, if the first worked, moves the file to its destination, which is reported with the
/// file's episode once the file is there, and not otherwise.
pub proof fn law_directory_is_made_before_the_move(
    f: FallbackView,
    at: int,
    n: u8,
    dir: Seq<char>,
    name: Seq<char>,
)
    requires
        0 <= at < f.files.len(),
        f.files[at].to == dir + "/"@ + name,
        !name.contains('/'),
        dir.len() > 0,
        dir.last() != '/',
    ensures
        ({
            &&& step_after(f, at, PhaseView::Place(n), true) matches Some(made)
            &&& made.call == (FsCallView::EnsureDir { path: dir })
            &&& made.at == at
            &&& event_after(f, at, made.phase, true) is None
            &&& step_after(f, at, made.phase, true) matches Some(moved)
            &&& moved.at == at
            &&& moved.call is MoveFile
            &&& moved.call->to == dir + "/"@ + name
            &&& event_after(f, at, moved.phase, true) == Some(
                EventView::EpisodeMovedToLibrary {
                    infohash: f.infohash,
                    episode: f.files[at].key.episode,
                    library_path: moved.call->to,
                },
            )
            &&& event_after(f, at, moved.phase, false) is None
        }),
{
    lemma_parent(dir, name);
}

/// No file is moved but right after its directory was made: a call that moves a file to a
/// destination follows a call, which worked, that made the directory in which the destination is.
pub proof fn law_no_move_without_its_directory(
    f: FallbackView,
    at: int,
    phase: PhaseView,
    worked: bool,
    dir: Seq<char>,
    name: Seq<char>,
)
    requires
        0 <= at < f.files.len(),
        f.files[at].to == dir + "/"@ + name,
        !name.contains('/'),
        dir.len() == 0 || dir.last() != '/',
    ensures
        step_after(f, at, phase, worked) matches Some(next) ==> {
            &&& next.phase is MakeDir ==> next.at == at && next.call == (FsCallView::EnsureDir {
                path: if dir.len() == 0 {
                    "/"@
                } else {
                    dir
                },
            })
            &&& next.call is MoveFile ==> worked && phase is MakeDir && next.at == at
                && next.call->to == dir + "/"@ + name
            &&& next.call is EnsureDir ==> next.phase is MakeDir
        },
{
    lemma_parent(dir, name);
}

/// A file is moved from the very path at which it was looked for and found.
pub proof fn law_file_is_moved_from_where_it_was_found(
    f: FallbackView,
    at: int,
    phase: PhaseView,
    worked: bool,
)
    requires
        0 <= at < f.files.len(),
    ensures
        step_after(f, at, phase, worked) matches Some(look) ==> (look.phase is Place ==> {
            &&& look.call is Exists
            &&& step_after(f, look.at, look.phase, true) matches Some(made)
            &&& step_after(f, look.at, made.phase, true) matches Some(moved)
            &&& moved.call == (FsCallView::MoveFile {
                from: look.call->Exists_path,
                to: f.files[at].to,
            })
        }),
{
}

/// A file that is not at its destination is looked for where it was left last, then in the season
/// directory under its new name, then there under its old name, in this order.
pub proof fn law_places_are_tried_in_order(f: FallbackView, at: int)
    requires
        0 <= at < f.files.len(),
    ensures
        ({
            &&& step_after(f, at, PhaseView::Arrived, false) matches Some(first)
            &&& first.at == at
            &&& first.call == (FsCallView::Exists { path: f.files[at].actual })
            &&& step_after(f, at, first.phase, false) matches Some(second)
            &&& second.at == at
            &&& second.call == (FsCallView::Exists {
                path: f.season_dir + "/"@ + f.files[at].target_name,
            })
            &&& step_after(f, at, second.phase, false) matches Some(third)
            &&& third.at == at
            &&& third.call == (FsCallView::Exists {
                path: f.season_dir + "/"@ + f.files[at].original_name,
            })
            &&& step_after(f, at, third.phase, false) matches Some(next) ==> next.at == at + 1
        }),
{
}

/// Every file gets its turn, in order. The first call asks whether the first file is at its
/// destination. What is done for a file ends when it is there already, is nowhere, cannot be given
/// its directory, or was moved or not; the next call asks the same of the next file, and there is
/// no next call only behind the last file.
pub proof fn law_every_file_gets_its_turn(
    f: FallbackView,
    at: int,
    n: u8,
    source: Seq<char>,
    worked: bool,
)
    requires
        0 <= at < f.files.len(),
        n >= 2,
    ensures
        step_for(f, 0) matches Some(first) && first.at == 0 && first.call == (FsCallView::Exists {
            path: f.files[0].to,
        }) && first.phase == PhaseView::Arrived,
        forall|phase: PhaseView, w: bool|
            (phase == PhaseView::Arrived && w || phase == PhaseView::Place(n) && !w || phase == (
            PhaseView::MakeDir { source }) && !w || phase == PhaseView::Move && w == worked) ==> (
            match #[trigger] step_after(f, at, phase, w) {
                Some(next) => at + 1 < f.files.len() && next.at == at + 1 && next.call == (
                FsCallView::Exists { path: f.files[at + 1].to }) && next.phase
                    == PhaseView::Arrived,
                None => at + 1 == f.files.len(),
            }),
{
}

/// An episode is reported only for a file that was moved, once.
pub proof fn law_only_moved_files_are_reported(
    f: FallbackView,
    at: int,
    phase: PhaseView,
    worked: bool,
)
    requires
        0 <= at < f.files.len(),
    ensures
        event_after(f, at, phase, worked) is Some <==> phase is Move && worked,
        event_after(f, at, phase, worked) matches Some(event) ==> event == (
        EventView::EpisodeMovedToLibrary {
            infohash: f.infohash,
            episode: f.files[at].key.episode,
            library_path: f.files[at].to,
        }),
{
}

/// A torrent whose link ends in `.torrent`, or goes on with a query behind it, is fetched first;
/// any other link goes to the downloader as it is. Either way the link, the directory and the feed
/// are those of the effect.
pub proof fn law_torrent_files_are_fetched_first(
    torrent_url: Seq<char>,
    save_path: Seq<char>,
    feed_id: FeedId,
    webhook: Option<WebhookView>,
    base: Seq<char>,
    query: Seq<char>,
)
    ensures
        ({
            let action = action_of(
                EffectView::AddTorrent { torrent_url, save_path, feed_id },
                webhook,
            );
            let fetched = ActionView::Fetch(
                FetchJobView::DownloadTorrent { uri: torrent_url, save_path, feed_id },
            );
            &&& torrent_url == base + ".torrent"@ ==> action == fetched
            &&& torrent_url == base + ".torrent?"@ + query ==> action == fetched
            &&& !text::contains(torrent_url, ".torrent"@) ==> action == ActionView::Command(
                DlCommandView::AddUri { uri: torrent_url, dir: save_path, feed_id },
            )
        }),
{
    let plain = ".torrent"@;
    let asked = ".torrent?"@;
    if torrent_url == base + plain {
        assert(plain.is_suffix_of(torrent_url));
    }
    if torrent_url == base + asked + query {
        let at = base.len() as int;
        assert(torrent_url.subrange(at, at + asked.len()) =~= asked);
        assert(text::occurs_at(torrent_url, asked, at));
    }
    if !text::contains(torrent_url, plain) {
        reveal_strlit(".torrent");
        reveal_strlit(".torrent?");
        assert(asked.take(8) =~= plain);
        if plain.is_suffix_of(torrent_url) {
            let at = torrent_url.len() - plain.len();
            assert(torrent_url.subrange(at, at + plain.len()) =~= plain);
            assert(text::occurs_at(torrent_url, plain, at));
        }
        if text::contains(torrent_url, asked) {
            let at = choose|i: int| text::occurs_at(torrent_url, asked, i);
            assert(torrent_url.subrange(at, at + 8) =~= torrent_url.subrange(at, at + 9).take(8));
            assert(text::occurs_at(torrent_url, plain, at));
        }
    }
}

/// What an effect says goes on unchanged: a completed download is handled under its own infohash,
/// feed, anime, directories and episode, the bytes of a torrent are added with their own link,
/// directory and feed, files that the downloader could not move are moved as they were resolved,
/// a feed is fetched from its own URL into its own directory, and each of the downloader's
/// questions is asked.
pub proof fn law_effects_are_handed_on(
    job: JobView,
    data: Seq<u8>,
    url: Seq<char>,
    dir: Seq<char>,
    feed_id: FeedId,
    files: FallbackView,
    error: Seq<char>,
    webhook: Option<WebhookView>,
)
    ensures
        action_of(
            EffectView::HandleCompleted {
                infohash: job.infohash,
                feed_id: job.feed_id,
                anime: job.anime,
                library_dir: job.library_dir,
                download_dir: job.download_dir,
                expected_episode: job.expected_episode,
            },
            webhook,
        ) == ActionView::Command(DlCommandView::HandleCompleted(job)),
        action_of(
            EffectView::AddTorrentBytes { data, save_path: dir, feed_id, torrent_url: url },
            webhook,
        ) == ActionView::Command(DlCommandView::AddBytes { torrent_url: url, data, dir, feed_id }),
        action_of(
            EffectView::FilesystemFallback {
                infohash: files.infohash,
                resolved: files.files,
                season_dir: files.season_dir,
            },
            webhook,
        ) == ActionView::Files(files),
        dir.len() > 0 ==> action_of(
            EffectView::FetchRss { url, feed_id, download_dir: dir },
            webhook,
        ) == ActionView::Fetch(FetchJobView::FetchRss { url, feed_id, download_dir: dir }),
        dir.len() == 0 ==> action_of(
            EffectView::FetchRss { url, feed_id, download_dir: dir },
            webhook,
        ) == ActionView::Nothing,
        action_of(EffectView::RssFetchFailed { feed_id, error }, webhook) == ActionView::Send(
            EventView::RssFetchFailed { feed_id, error },
        ),
        action_of(EffectView::PollCompleted, webhook) == ActionView::Command(
            DlCommandView::PollCompleted,
        ),
        action_of(EffectView::PollFailed, webhook) == ActionView::Command(
            DlCommandView::PollFailed,
        ),
        action_of(EffectView::QueryAllDownloads, webhook) == ActionView::Command(
            DlCommandView::QueryAll,
        ),
        action_of(EffectView::CheckDownloader, webhook) == ActionView::Command(
            DlCommandView::CheckConnection,
        ),
{
}

} // verus!
