use bangumi_rss::config::{Config, Downloader, Var};
use bangumi_rss::dl_command::{begin, resume, DlCommand, DlStep, Job};
use bangumi_rss::downloader::aria2::Aria2Downloader;
use bangumi_rss::downloader::mock::MockDownloader;
use bangumi_rss::downloader::qbittorrent::QbittorrentDownloader;
use bangumi_rss::downloader::transmission::TransmissionDownloader;
use bangumi_rss::downloader::{
    build_downloader, Answer, Backend, Call, HttpReply, Next, Op, OpResult, Payload,
    TorrentDownloader,
};
use bangumi_rss::effect::Effect;
use bangumi_rss::event::{DownloadStatus, Event};
use bangumi_rss::executor::{execute, parent, Action, Fallback, FsCall};
use bangumi_rss::feed_id::FeedId;
use bangumi_rss::fetch::FetchJob;
use bangumi_rss::files::{FileOps, MockFileSystem};
use bangumi_rss::json::{Json, Member};
use bangumi_rss::notify::resolve_webhook;
use bangumi_rss::types::{
    AnimeIdentity, ApiResult, CompletedDownload, DownloadState, FailedData, Notification, Number,
    Progress, TorrentFile,
};

/// Carries out an operation: every call is answered by `reply`, and the clock stands still but
/// for the time that is waited.
fn drive<D: TorrentDownloader>(
    d: &mut D,
    op: Op,
    mut reply: impl FnMut(&Call) -> HttpReply,
) -> (Result<Answer, String>, Vec<Call>) {
    let mut calls = Vec::new();
    let mut now: u64 = 1;
    assert!(d.is_ready());
    let mut next = d.start(op, 0xabcd);
    loop {
        match next {
            Next::Done(result) => return (result, calls),
            Next::Call { call, stage } => {
                assert!(d.is_open(&stage));
                now += call.wait_ms;
                let r = reply(&call);
                calls.push(call);
                next = d.advance(stage, r, now);
            }
        }
    }
}

fn mock_answer(_: &Call) -> HttpReply {
    panic!("the mock makes no calls")
}

/// Carries out a command with the mock downloader.
fn run(d: &mut MockDownloader, command: DlCommand) -> (Vec<Event>, Vec<Effect>, Option<ApiResult<()>>) {
    let mut step = begin(command);
    loop {
        match step {
            DlStep::Finished { events, effects, reply } => return (events, effects, reply),
            DlStep::Do { op, stage, .. } => {
                let (result, _) = drive(d, op, mock_answer);
                step = resume(stage, result);
            }
        }
    }
}

// ── Commands ──

#[test]
fn add_uri_produces_download_started() {
    let mut dl = MockDownloader::new();
    let feed_id = FeedId::generate();
    let (events, _, _) = run(
        &mut dl,
        DlCommand::AddUri {
            uri: "magnet:?xt=urn:btih:abc".to_string(),
            dir: "/dl".to_string(),
            feed_id,
        },
    );
    match &events[0] {
        Event::DownloadStarted { infohash, feed_id: f, .. } => {
            assert!(
                !infohash.is_empty(),
                "mock should generate non-empty infohash"
            );
            assert_eq!(*f, feed_id);
        }
        other => panic!("expected DownloadStarted, got {other:?}"),
    }
}

#[test]
fn poll_produces_notification() {
    let mut dl = MockDownloader::new();
    // Pre-populate the mock with a completed task so poll returns it.
    let op = Op::AddUri { uri: "magnet:?xt=urn:btih:xyz".to_string(), dir: "/dl".to_string() };
    let _ = drive(&mut dl, op, mock_answer);

    let (events, _, _) = run(&mut dl, DlCommand::PollCompleted);
    assert!(matches!(
        events[0],
        Event::DownloaderNotification { status: DownloadStatus::Completed, .. }
    ));
}

#[test]
fn query_all_produces_refreshed() {
    let mut dl = MockDownloader::new();
    let (events, _, _) = run(&mut dl, DlCommand::QueryAll);
    assert!(matches!(events[0], Event::DownloadsRefreshed { .. }));
}

#[test]
fn check_connection_returns_ok() {
    let mut dl = MockDownloader::new();
    let (_, _, result) = run(&mut dl, DlCommand::CheckConnection);
    assert!(matches!(result, Some(ApiResult::OK { .. })));
}

#[test]
fn failed_operations_tell_nothing() {
    for command in [DlCommand::PollCompleted, DlCommand::PollFailed, DlCommand::QueryAll] {
        match begin(command) {
            DlStep::Do { stage, .. } => match resume(stage, Err("down".to_string())) {
                DlStep::Finished { events, effects, reply } => {
                    assert!(events.is_empty());
                    assert!(effects.is_empty());
                    assert!(reply.is_none());
                }
                DlStep::Do { .. } => panic!("expected the end"),
            },
            DlStep::Finished { .. } => panic!("expected an operation"),
        }
    }
    match begin(DlCommand::CheckConnection) {
        DlStep::Do { stage, .. } => match resume(stage, Err("down".to_string())) {
            DlStep::Finished { reply, .. } => assert_eq!(
                reply,
                Some(ApiResult::Error { code: 503, message: "downloader unavailable".to_string() })
            ),
            DlStep::Do { .. } => panic!("expected the end"),
        },
        DlStep::Finished { .. } => panic!("expected an operation"),
    }
}

/// Moves files in a file system as the plan asks.
fn move_files(plan: &Fallback, fs: &mut MockFileSystem) -> Vec<Event> {
    let mut events = Vec::new();
    let mut next = plan.begin();
    while let Some(step) = next {
        let worked = match &step.call {
            FsCall::Exists { path } => fs.path_exists(path),
            FsCall::EnsureDir { path } => fs.ensure_dir(path).is_ok(),
            FsCall::MoveFile { from, to } => fs.move_file(from, to).is_ok(),
        };
        let (following, event) = plan.resume(step.at, step.phase, worked);
        events.extend(event);
        next = following;
    }
    events
}

#[test]
fn handle_completed_flow_with_mocks() {
    let mut downloader = MockDownloader::new();
    let mut fs = MockFileSystem::new(vec![]);
    let op = Op::AddUri { uri: "test.torrent".to_string(), dir: "/dl/test-feed".to_string() };
    let infohash = match drive(&mut downloader, op, mock_answer).0 {
        Ok(Answer::Infohash(h)) => h,
        other => panic!("expected an infohash, got {other:?}"),
    };

    let feed_id = FeedId::generate();
    let anime = AnimeIdentity { name: "Test Anime".to_string(), season: 2 };

    // The source file stands where the files of the torrent are expected:
    // {download_dir}/{feed_id}/{file.path}
    let src = format!(
        "/dl/{}/[MockSubs] test.torrent - 01 [1080p].mp4",
        feed_id.to_text()
    );
    fs.existing.push(src);

    // Poll → DownloaderNotification.
    let command = match execute(Effect::PollCompleted, &None) {
        Action::Command(c) => c,
        _ => panic!("expected a command"),
    };
    let (events, _, _) = run(&mut downloader, command);
    let got_notification = events.iter().any(|e| {
        matches!(e, Event::DownloaderNotification { infohash: h, .. } if *h == infohash)
    });
    assert!(got_notification, "should receive DownloaderNotification");

    // HandleCompleted → the files are handed to the file system.
    let effect = Effect::HandleCompleted {
        infohash: infohash.clone(),
        feed_id,
        anime,
        library_dir: "/lib".to_string(),
        download_dir: "/dl".to_string(),
        expected_episode: 0,
    };
    let command = match execute(effect, &None) {
        Action::Command(c) => c,
        _ => panic!("expected a command"),
    };
    let (_, mut effects, _) = run(&mut downloader, command);
    let plan = match execute(effects.remove(0), &None) {
        Action::Files(plan) => plan,
        _ => panic!("expected files"),
    };
    let events = move_files(&plan, &mut fs);
    let mut got_completed = false;
    for event in events {
        if let Event::EpisodeMovedToLibrary { episode, library_path, .. } = event {
            assert_eq!(episode, 1);
            assert!(library_path.contains("/lib/Test Anime/S02/"));
            got_completed = true;
        }
    }
    assert!(
        got_completed,
        "should receive EpisodeMovedToLibrary after handle"
    );
    // File moved to library via filesystem rename (breaks seeding).
    assert_eq!(fs.move_count(), 1, "should have called move_file once");
}

#[test]
fn missing_sources_are_passed_over() {
    let mut downloader = MockDownloader::new();
    let op = Op::AddUri { uri: "test.torrent".to_string(), dir: "/dl".to_string() };
    let infohash = match drive(&mut downloader, op, mock_answer).0 {
        Ok(Answer::Infohash(h)) => h,
        other => panic!("expected an infohash, got {other:?}"),
    };
    let job = Job {
        infohash,
        feed_id: FeedId { bits: 1 },
        anime: AnimeIdentity { name: "A".to_string(), season: 1 },
        library_dir: "/lib".to_string(),
        download_dir: "/dl".to_string(),
        expected_episode: 0,
    };
    let (events, mut effects, _) = run(&mut downloader, DlCommand::HandleCompleted(job));
    assert!(events.is_empty());
    let plan = match execute(effects.remove(0), &None) {
        Action::Files(plan) => plan,
        _ => panic!("expected files"),
    };
    let mut fs = MockFileSystem::new(vec![]);
    let events = move_files(&plan, &mut fs);
    assert!(events.is_empty());
    assert_eq!(fs.move_count(), 0);
}

#[test]
fn downloader_moves_and_renames_where_it_can() {
    let job = Job {
        infohash: "H".to_string(),
        feed_id: FeedId { bits: 1 },
        anime: AnimeIdentity { name: "A".to_string(), season: 1 },
        library_dir: "/lib".to_string(),
        download_dir: "/dl".to_string(),
        expected_episode: 0,
    };
    let mut step = begin(DlCommand::HandleCompleted(job));
    let mut ops = Vec::new();
    let events = loop {
        match step {
            DlStep::Finished { events, effects, .. } => {
                assert!(effects.is_empty());
                break events;
            }
            DlStep::Do { op, stage, wait_ms } => {
                let answer = match &op {
                    Op::ListFiles { .. } => Answer::Files(vec![TorrentFile {
                        path: "d/[G] A - 03 [1080p].mkv.part".to_string(),
                        name: "[G] A - 03 [1080p].mkv".to_string(),
                    }]),
                    Op::MoveFiles { .. } | Op::RenameFile { .. } => Answer::Changed(OpResult::Done),
                    _ => Answer::Done,
                };
                ops.push((op, wait_ms));
                step = resume(stage, Ok(answer));
            }
        }
    };
    let infohash = || "H".to_string();
    assert_eq!(
        ops,
        vec![
            (Op::ListFiles { infohash: infohash() }, 0),
            (Op::Pause { infohash: infohash() }, 0),
            (Op::MoveFiles { infohash: infohash(), new_location: "/lib/A/S01".to_string() }, 0),
            (
                Op::RenameFile {
                    infohash: infohash(),
                    old_path: "d/[G] A - 03 [1080p].mkv".to_string(),
                    new_name: "A S01E03.mkv".to_string(),
                },
                0
            ),
            (Op::Resume { infohash: infohash() }, 500),
        ]
    );
    assert_eq!(
        events,
        vec![Event::EpisodeMovedToLibrary {
            infohash: infohash(),
            episode: 3,
            library_path: "/lib/A/S01/A S01E03.mkv".to_string(),
        }]
    );
}

#[test]
fn effects_are_dispatched() {
    let failed = || {
        Effect::Notify(Notification::Failed(FailedData {
            title: "t".to_string(),
            message: "m".to_string(),
        }))
    };
    assert!(matches!(execute(failed(), &None), Action::Log(_)));
    let hook = resolve_webhook("http://h", None, None, None);
    match execute(failed(), &hook) {
        Action::Fetch(FetchJob::Notify { url, body, content_type }) => {
            assert_eq!(url, "http://h");
            assert!(body.contains("[失败] t: m"));
            assert_eq!(content_type, "application/json");
        }
        _ => panic!("expected a webhook message"),
    }
    let id = FeedId { bits: 3 };
    let add = |url: &str| Effect::AddTorrent {
        torrent_url: url.to_string(),
        save_path: "/s".to_string(),
        feed_id: id,
    };
    assert!(matches!(
        execute(add("magnet:?xt=x"), &None),
        Action::Command(DlCommand::AddUri { .. })
    ));
    assert!(matches!(
        execute(add("https://x/a.torrent"), &None),
        Action::Fetch(FetchJob::DownloadTorrent { .. })
    ));
    match execute(Effect::RssFetchFailed { feed_id: id, error: "e".to_string() }, &None) {
        Action::Send(Event::RssFetchFailed { feed_id, error }) => {
            assert_eq!(feed_id, id);
            assert_eq!(error, "e");
        }
        _ => panic!("expected an event"),
    }
    assert_eq!(parent("/a/b/c.mkv"), "/a/b");
}

// ── Clients ──

fn object(members: Vec<(&str, Json)>) -> Json {
    Json::object(members.into_iter().map(|(k, v)| Member::new(k, v)).collect())
}

fn answered(value: Json) -> HttpReply {
    HttpReply::Answered { status: 200, body: String::new(), value: Ok(value) }
}

fn result(value: Json) -> HttpReply {
    answered(object(vec![("result", value)]))
}

fn unreachable_host() -> HttpReply {
    HttpReply::Failed { status: None, session_id: None, error: "refused".to_string() }
}

fn method_of(call: &Call) -> String {
    match &call.body {
        Payload::Json(v) => v.text_at("method").unwrap_or("").to_string(),
        _ => String::new(),
    }
}

#[test]
fn with_gid_miss_returns_error() {
    let mut dl = Aria2Downloader::with_rpc_url(String::new(), String::new());
    let op = Op::Pause { infohash: "deadbeef".to_string() };
    let (result, _) = drive(&mut dl, op, |_| unreachable_host());
    assert!(result.is_err());
    assert_eq!(result.unwrap_err(), "task not found in aria2: deadbeef");
}

fn task(gid: &str, infohash: &str) -> Json {
    object(vec![("gid", Json::text(gid)), ("infoHash", Json::text(infohash))])
}

#[test]
fn aria2_finds_the_task_of_an_infohash() {
    let mut dl = Aria2Downloader::with_rpc_url("http://a/jsonrpc".to_string(), "s".to_string());
    let op = Op::Pause { infohash: "h2".to_string() };
    let (outcome, calls) = drive(&mut dl, op, |call| {
        if method_of(call) == "aria2.tellActive" {
            result(Json::list(vec![task("g1", "h1"), task("g2", "h2")]))
        } else {
            result(Json::text("ok"))
        }
    });
    assert_eq!(outcome, Ok(Answer::Done));
    let methods: Vec<String> = calls.iter().map(method_of).collect();
    assert_eq!(methods, vec!["aria2.tellActive", "aria2.forcePause"]);
    assert_eq!(calls[0].url, "http://a/jsonrpc");
    assert!(calls.iter().all(|c| c.post));
    match &calls[1].body {
        Payload::Json(v) => {
            let params = v.list_at("params").unwrap();
            assert_eq!(params[0], Json::text("token:s"));
            assert_eq!(params[1], Json::text("g2"));
        }
        _ => panic!("expected JSON"),
    }
}

#[test]
fn aria2_waits_for_the_infohash_of_a_magnet() {
    let mut dl = Aria2Downloader::with_rpc_url("u".to_string(), String::new());
    let mut asked = 0;
    let op = Op::AddUri { uri: "magnet:".to_string(), dir: "/d".to_string() };
    let (outcome, calls) = drive(&mut dl, op, |call| {
        if method_of(call) == "aria2.addUri" {
            return result(Json::text("gid"));
        }
        asked += 1;
        let hash = if asked < 3 { "" } else { "hash" };
        result(object(vec![("infoHash", Json::text(hash))]))
    });
    assert_eq!(outcome, Ok(Answer::Infohash("hash".to_string())));
    let waits: Vec<u64> = calls.iter().map(|c| c.wait_ms).collect();
    assert_eq!(waits, vec![0, 0, 1000, 1000]);

    let op = Op::AddUri { uri: "magnet:".to_string(), dir: "/d".to_string() };
    let (outcome, calls) = drive(&mut dl, op, |call| {
        if method_of(call) == "aria2.addUri" {
            result(Json::text("gid"))
        } else {
            unreachable_host()
        }
    });
    assert!(outcome.unwrap_err().contains("after 30 retries"));
    assert_eq!(calls.len(), 31);
}

#[test]
fn aria2_sends_torrent_files_in_base64() {
    let mut dl = Aria2Downloader::with_rpc_url("u".to_string(), String::new());
    let op = Op::AddTorrentBytes { data: b"d1:ae".to_vec(), dir: "/d".to_string() };
    let (outcome, calls) = drive(&mut dl, op, |call| {
        if method_of(call) == "aria2.addTorrent" {
            result(Json::text("gid"))
        } else {
            result(task("gid", "hash"))
        }
    });
    assert_eq!(outcome, Ok(Answer::Infohash("hash".to_string())));
    match &calls[0].body {
        Payload::Json(v) => {
            let params = v.list_at("params").unwrap();
            assert!(params.contains(&Json::text("ZDE6YWU=")));
        }
        _ => panic!("expected JSON"),
    }
}

#[test]
fn aria2_lists_tasks_with_their_states() {
    let mut dl = Aria2Downloader::with_rpc_url("u".to_string(), String::new());
    let entry = |hash: &str, status: &str, done: &str, total: &str| {
        object(vec![
            ("gid", Json::text("g")),
            ("infoHash", Json::text(hash)),
            ("status", Json::text(status)),
            ("completedLength", Json::text(done)),
            ("totalLength", Json::text(total)),
            ("downloadSpeed", Json::text("7")),
        ])
    };
    let (outcome, _) = drive(&mut dl, Op::QueryAll, |call| {
        if method_of(call) == "aria2.tellActive" {
            result(Json::list(vec![
                entry("a", "active", "1", "4"),
                entry("b", "active", "4", "4"),
                entry("", "active", "1", "4"),
            ]))
        } else {
            result(Json::list(vec![entry("c", "error", "0", "0"), entry("d", "odd", "0", "0")]))
        }
    });
    let snapshots = match outcome {
        Ok(Answer::Snapshots(s)) => s,
        other => panic!("expected snapshots, got {other:?}"),
    };
    let states: Vec<(&str, DownloadState)> =
        snapshots.iter().map(|s| (s.infohash.as_str(), s.state)).collect();
    assert_eq!(
        states,
        vec![
            ("a", DownloadState::Downloading),
            ("b", DownloadState::Seeding),
            ("c", DownloadState::Failed),
        ]
    );
    assert_eq!(snapshots[0].progress, Progress::Fraction { done: 1, total: 4 });
    assert_eq!(snapshots[0].speed, 7);
    assert_eq!(snapshots[0].name, "g");
    let (outcome, _) = drive(
        &mut dl,
        Op::MoveFiles { infohash: "h".to_string(), new_location: "/n".to_string() },
        |_| unreachable_host(),
    );
    assert_eq!(outcome, Ok(Answer::Changed(OpResult::Unsupported)));
    let (outcome, _) = drive(&mut dl, Op::CheckConnection, |_| unreachable_host());
    assert!(outcome.is_err());
}

#[test]
fn qbittorrent_watches_for_an_added_torrent() {
    let mut dl = QbittorrentDownloader::from_config(
        "http://q/".to_string(),
        "admin".to_string(),
        "pw".to_string(),
    );
    let torrent = |h: &str| object(vec![("hash", Json::text(h))]);
    let mut listed = 0;
    let op = Op::AddUri { uri: "magnet:".to_string(), dir: "/d".to_string() };
    let (outcome, calls) = drive(&mut dl, op, |call| {
        if call.post {
            return HttpReply::Answered {
                status: 200,
                body: "Ok.".to_string(),
                value: Err("no JSON".to_string()),
            };
        }
        listed += 1;
        if listed < 3 {
            answered(Json::list(vec![torrent("old")]))
        } else {
            answered(Json::list(vec![torrent("old"), torrent("new")]))
        }
    });
    assert_eq!(outcome, Ok(Answer::Infohash("new".to_string())));
    assert!(calls[0].url.starts_with("http://q/api/v2/torrents/add"));
    assert!(calls[0]
        .headers
        .iter()
        .any(|h| h.name == "Authorization" && h.value == "Basic YWRtaW46cHc="));
    match &calls[0].body {
        Payload::Text(t) => assert!(t.contains("urls=magnet%3A"), "{t}"),
        _ => panic!("expected a form"),
    }

    let op = Op::AddUri { uri: "magnet:".to_string(), dir: "/d".to_string() };
    let (outcome, _) = drive(&mut dl, op, |call| {
        if call.post {
            answered(Json::text("Ok."))
        } else {
            answered(Json::list(vec![torrent("old")]))
        }
    });
    assert_eq!(
        outcome,
        Err("qbittorrent: timed out waiting for torrent to appear in /d".to_string())
    );
    let (outcome, _) = drive(&mut dl, Op::QueryAll, |_| unreachable_host());
    assert_eq!(outcome, Err("qbittorrent: query_all failed".to_string()));
}

#[test]
fn qbittorrent_reads_progress_as_a_single() {
    let mut dl =
        QbittorrentDownloader::from_config("q".to_string(), String::new(), String::new());
    let torrent = |progress: f64| {
        object(vec![
            ("hash", Json::text("h")),
            ("state", Json::text("downloading")),
            ("progress", Json::Number(Number::Double(progress.to_bits()))),
        ])
    };
    for (progress, state) in [
        (0.5, DownloadState::Downloading),
        (1.0, DownloadState::Seeding),
        (0.99999999, DownloadState::Seeding),
        (0.9999999, DownloadState::Downloading),
    ] {
        assert_eq!(progress as f32 >= 1.0, state == DownloadState::Seeding);
        let (outcome, _) =
            drive(&mut dl, Op::QueryAll, |_| answered(Json::list(vec![torrent(progress)])));
        match outcome {
            Ok(Answer::Snapshots(s)) => assert_eq!(s[0].state, state, "{progress}"),
            other => panic!("expected snapshots, got {other:?}"),
        }
    }
}

#[test]
fn qbittorrent_uploads_torrent_files() {
    let mut dl =
        QbittorrentDownloader::from_config("q".to_string(), String::new(), String::new());
    let op = Op::AddTorrentBytes { data: b"d1:ae".to_vec(), dir: "/d".to_string() };
    let (_, calls) = drive(&mut dl, op, |_| unreachable_host());
    match &calls[0].body {
        Payload::Bytes(b) => {
            let text = String::from_utf8_lossy(b);
            assert!(text.contains("d1:ae"));
            assert!(text.contains("/d"));
        }
        other => panic!("expected bytes, got {other:?}"),
    }
    let op = Op::Remove { infohash: "h".to_string(), delete_files: false };
    let (outcome, calls) = drive(&mut dl, op, |_| answered(Json::text("")));
    assert_eq!(outcome, Ok(Answer::Done));
    match &calls[0].body {
        Payload::Text(t) => assert!(t.contains("deleteFiles=false"), "{t}"),
        other => panic!("expected a form, got {other:?}"),
    }
}

#[test]
fn transmission_takes_up_the_session() {
    let mut dl = TransmissionDownloader::with_rpc_url(
        "http://t/rpc".to_string(),
        String::new(),
        String::new(),
    );
    let demand = || HttpReply::Failed {
        status: Some(409),
        session_id: Some("sid".to_string()),
        error: "conflict".to_string(),
    };
    let mut first = true;
    let (outcome, calls) = drive(&mut dl, Op::PollCompleted, |_| {
        if first {
            first = false;
            demand()
        } else {
            result(object(vec![("torrents", Json::list(vec![]))]))
        }
    });
    assert_eq!(outcome, Ok(Answer::Tasks(vec![])));
    assert_eq!(calls.len(), 2);
    let session = |c: &Call| {
        c.headers
            .iter()
            .find(|h| h.name == "X-Transmission-Session-Id")
            .map(|h| h.value.clone())
    };
    assert_eq!(session(&calls[0]), None);
    assert_eq!(session(&calls[1]), Some("sid".to_string()));
    // The session is kept, and a request is sent at most twice.
    let (outcome, calls) = drive(&mut dl, Op::CheckConnection, |_| demand());
    assert!(outcome.is_err());
    assert_eq!(calls.len(), 2);
    assert_eq!(session(&calls[0]), Some("sid".to_string()));
}

#[test]
fn transmission_polls_completed_torrents() {
    let mut dl = TransmissionDownloader::with_rpc_url(
        "http://t/rpc/".to_string(),
        "u".to_string(),
        "p".to_string(),
    );
    let torrent = |hash: &str, done: f64| {
        object(vec![
            ("hash_string", Json::text(hash)),
            ("status", Json::integer(6)),
            ("percent_done", Json::Number(Number::Double(done.to_bits()))),
        ])
    };
    let (outcome, calls) = drive(&mut dl, Op::PollCompleted, |_| {
        result(object(vec![(
            "torrents",
            Json::list(vec![torrent("a", 1.0), torrent("b", 0.5)]),
        )]))
    });
    assert_eq!(
        outcome,
        Ok(Answer::Tasks(vec![CompletedDownload { infohash: "a".to_string() }]))
    );
    assert!(calls[0]
        .headers
        .iter()
        .any(|h| h.name == "Authorization" && h.value == "Basic dTpw"));
    let op = Op::ListFiles { infohash: "x".to_string() };
    let (outcome, _) =
        drive(&mut dl, op, |_| result(object(vec![("torrents", Json::list(vec![]))])));
    assert_eq!(outcome, Err("transmission: torrent not found: x".to_string()));
}

#[test]
fn mock_tasks_complete_once() {
    let mut dl = MockDownloader::new();
    let op = Op::AddUri { uri: "http://x/name.torrent".to_string(), dir: "/d".to_string() };
    let infohash = match drive(&mut dl, op, mock_answer).0 {
        Ok(Answer::Infohash(h)) => h,
        other => panic!("expected an infohash, got {other:?}"),
    };
    assert_eq!(infohash, "MOCK00000004");
    let polled = |dl: &mut MockDownloader| match drive(dl, Op::PollCompleted, mock_answer).0 {
        Ok(Answer::Tasks(t)) => t,
        other => panic!("expected tasks, got {other:?}"),
    };
    assert!(polled(&mut dl).iter().any(|t| t.infohash == "MOCK00000004"));
    assert!(!polled(&mut dl).iter().any(|t| t.infohash == "MOCK00000004"));
    let op = Op::ListFiles { infohash };
    match drive(&mut dl, op, mock_answer).0 {
        Ok(Answer::Files(f)) => assert_eq!(f[0].name, "[MockSubs] name.torrent - 01 [1080p].mp4"),
        other => panic!("expected files, got {other:?}"),
    }
    let first = drive(&mut dl, Op::QueryAll, mock_answer).0;
    let again = drive(&mut dl, Op::QueryAll, mock_answer).0;
    assert_eq!(first, again);
}

#[test]
fn mock_tasks_complete_in_order() {
    let mut dl = MockDownloader::new();
    let polled = |dl: &mut MockDownloader| match drive(dl, Op::PollCompleted, mock_answer).0 {
        Ok(Answer::Tasks(t)) => t.into_iter().map(|t| t.infohash).collect::<Vec<_>>(),
        other => panic!("expected tasks, got {other:?}"),
    };
    assert!(polled(&mut dl).is_empty());
    for i in 0..14 {
        let op = Op::AddUri { uri: format!("http://x/{i}"), dir: "/d".to_string() };
        drive(&mut dl, op, mock_answer).0.unwrap();
    }
    let hashes: Vec<String> = (4..18).map(|n| format!("MOCK{n:08X}")).collect();
    assert_eq!(polled(&mut dl), hashes);
    assert!(polled(&mut dl).is_empty());
}

#[test]
fn configuration_chooses_the_downloader() {
    let config = |vars: &[(&str, &str)]| {
        let list = vars
            .iter()
            .map(|(k, v)| Var { name: k.to_string(), value: v.to_string() })
            .collect();
        Config::init_from_vars(&list).unwrap()
    };
    assert!(matches!(build_downloader(&config(&[])), Backend::Aria2(_)));
    assert!(matches!(
        build_downloader(&config(&[("DOWNLOADER", "qbittorrent")])),
        Backend::Qbittorrent(_)
    ));
    assert!(matches!(
        build_downloader(&config(&[("MOCK_DOWNLOADER", "true")])),
        Backend::Mock(_)
    ));
    let mut c = config(&[]);
    c.downloader = Downloader::Transmission;
    assert!(matches!(build_downloader(&c), Backend::Transmission(_)));
}
