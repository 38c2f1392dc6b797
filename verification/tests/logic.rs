use bangumi_rss::effect::Effect;
use bangumi_rss::event::{DownloadStatus, Event, Reply};
use bangumi_rss::feed_id::FeedId;
use bangumi_rss::handle::file_to_stream;
use bangumi_rss::logic::{
    is_acceptable, reduce, reduce_confirm_feed, reduce_download_started,
    reduce_downloader_notification, reduce_downloads_refreshed, reduce_episode_completed, reduce_rss_fetch_failed,
    reduce_rss_items_fetched, reduce_rss_tick, reduce_rss_tick_all, reduce_user_confirm,
};
use bangumi_rss::state::AppState;
use bangumi_rss::tables::Feed;
use bangumi_rss::types::{
    AnimeIdentity, ApiResult, DownloadSnapshot, DownloadState, EpisodeKey, EpisodeRecord,
    FeedFilter, Notification, Number, Progress, RecordStatus, RssItem,
};

/// The double 1.0.
const ONE: Progress = Progress::Reported(Number::Double(0x3ff0_0000_0000_0000));

fn empty_state() -> AppState {
    AppState::default()
}

fn feed(id: FeedId, season: u8) -> Feed {
    Feed {
        id,
        url: "https://example.com/rss".to_string(),
        anime: AnimeIdentity { name: "星海物语".to_string(), season },
        confirmed: true,
        bangumi_info: None,
        filter: FeedFilter::default(),
    }
}

fn record(id: FeedId, season: u8, episode: u32, status: RecordStatus) -> EpisodeRecord {
    EpisodeRecord {
        infohash: "DEADBEEF".to_string(),
        torrent_url: String::new(),
        feed_id: id,
        key: EpisodeKey {
            anime: AnimeIdentity { name: "星海物语".to_string(), season },
            episode,
        },
        status,
        library_path: None,
    }
}

#[test]
fn rss_tick_unknown_feed_returns_empty() {
    let state = empty_state();
    let effects = reduce_rss_tick(&state, FeedId::generate());
    assert!(effects.is_empty());
}

#[test]
fn rss_tick_all_empty_state_returns_empty() {
    let state = empty_state();
    let effects = reduce_rss_tick_all(&state);
    assert!(effects.is_empty());
}

#[test]
fn download_failed_returns_empty_effects_and_cleans_state() {
    let state = empty_state();
    let (new_state, effects) =
        reduce_downloader_notification(&state, "abc".to_string(), DownloadStatus::Failed);
    assert_eq!(effects.len(), 1);
    assert!(matches!(effects[0], Effect::Notify(_)));
    assert_eq!(new_state, state);
}

#[test]
fn download_completed_unknown_gid_returns_empty() {
    let state = empty_state();
    let (_new_state, effects) =
        reduce_downloader_notification(&state, "unknown".to_string(), DownloadStatus::Completed);
    assert!(effects.is_empty());
}

#[test]
fn confirm_feed_produces_new_state() {
    let state = empty_state();
    let (new_state, _effects, resp) = reduce_confirm_feed(
        &state,
        "https://example.com/rss".to_string(),
        "星海物语".to_string(),
        2,
        None,
        FeedFilter::default(),
    );

    assert_eq!(new_state.feeds.len(), 1);
    let feed = new_state.feeds.value_at(0);
    assert_eq!(feed.anime.name, "星海物语");
    assert_eq!(feed.anime.season, 2);
    assert!(feed.confirmed);
    assert!(matches!(resp, ApiResult::OK { .. }));
}

#[test]
fn download_started_tracks_in_tracker() {
    let mut state = empty_state();
    let feed_id = FeedId::generate();
    state.feeds.insert(feed_id, feed(feed_id, 1));

    let (new_state, effects) =
        reduce_download_started(&state, "DEADBEEF".to_string(), feed_id, String::new());
    assert!(effects.is_empty());
    assert!(new_state.tracker.contains_key("DEADBEEF"));
    let record = new_state.tracker.get("DEADBEEF").unwrap();
    assert_eq!(record.key.anime.name, "星海物语");
    assert_eq!(record.status, RecordStatus::Downloading);
}

#[test]
fn download_started_inserts_seen_url() {
    let mut state = empty_state();
    let feed_id = FeedId::generate();
    state.feeds.insert(feed_id, feed(feed_id, 1));

    let url = "https://example.com/download/anime.torrent";
    let (new_state, effects) =
        reduce_download_started(&state, "DEADBEEF".to_string(), feed_id, url.to_string());
    assert!(effects.is_empty());
    assert!(
        new_state.seen_urls.contains(url),
        "seen_urls should contain the torrent URL"
    );
    let record = new_state.tracker.get("DEADBEEF").unwrap();
    assert_eq!(record.torrent_url, url);
}

#[test]
fn download_started_dedup_skips_duplicate() {
    let mut state = empty_state();
    let feed_id = FeedId::generate();
    state.feeds.insert(feed_id, feed(feed_id, 1));

    // First download.
    let (state2, _) =
        reduce_download_started(&state, "DEADBEEF".to_string(), feed_id, String::new());
    assert_eq!(state2.tracker.len(), 1);

    // Duplicate — should be skipped.
    let (state3, effects) =
        reduce_download_started(&state2, "DEADBEEF".to_string(), feed_id, String::new());
    assert!(effects.is_empty());
    assert_eq!(state3.tracker.len(), 1);
    assert_eq!(state3, state2);
}

#[test]
fn episode_resolved_updates_tracker() {
    let mut state = empty_state();
    let feed_id = FeedId::generate();
    state
        .tracker
        .insert("DEADBEEF".to_string(), record(feed_id, 1, 0, RecordStatus::Downloading));

    let (new_state, effects) = reduce_episode_completed(
        &state,
        "DEADBEEF",
        1,
        "/anime/星海物语/S01/星海物语 S01E01.mkv".to_string(),
    );

    assert_eq!(effects.len(), 1);
    let r = new_state.tracker.get("DEADBEEF").unwrap();
    assert_eq!(r.key.episode, 1);
    assert_eq!(r.status, RecordStatus::InLibrary);
    assert_eq!(
        r.library_path.as_deref(),
        Some("/anime/星海物语/S01/星海物语 S01E01.mkv")
    );
}

#[test]
fn downloads_refreshed_uses_tracker() {
    let mut state = empty_state();
    let feed_id = FeedId::generate();
    state
        .tracker
        .insert("DEADBEEF".to_string(), record(feed_id, 2, 38, RecordStatus::InLibrary));

    let snapshots = vec![DownloadSnapshot {
        infohash: "DEADBEEF".to_string(),
        state: DownloadState::Completed,
        progress: ONE,
        speed: 0,
        size: 500_000_000,
        name: "test".to_string(),
    }];

    let (new_state, _effects) = reduce_downloads_refreshed(&state, snapshots);
    assert_eq!(new_state.cached_downloads.len(), 1);
    let info = &new_state.cached_downloads[0];
    assert_eq!(info.feed_name, "星海物语");
    assert_eq!(info.season, 2);
    assert_eq!(info.progress, ONE);
}

#[test]
fn confirm_feed_then_rss_tick_includes_it() {
    let state = empty_state();
    let (state2, _, _) = reduce_confirm_feed(
        &state,
        "https://example.com/rss".to_string(),
        "星海物语".to_string(),
        1,
        None,
        FeedFilter::default(),
    );

    // New feed should be included in RSS tick.
    let effects = reduce_rss_tick_all(&state2);
    assert_eq!(effects.len(), 1);
}

#[test]
fn rss_fetch_failed_returns_unchanged_state() {
    let state = empty_state();
    let (new_state, effects) =
        reduce_rss_fetch_failed(&state, FeedId::generate(), "connection timeout".to_string());
    assert_eq!(effects.len(), 1);
    assert!(matches!(effects[0], Effect::Notify(_)));
    assert_eq!(new_state, state);
}

fn item(title: &str, url: &str, is_batch: bool) -> RssItem {
    RssItem { title: title.to_string(), torrent_url: url.to_string(), is_batch }
}

#[test]
fn fetched_items_are_submitted_once() {
    let mut state = empty_state();
    let id = FeedId { bits: 0x11111111_1111_1111_1111_111111111111 };
    let mut f = feed(id, 1);
    f.filter = FeedFilter {
        includes: vec![],
        exclude: vec!["720p".to_string()],
        regex: Some("1080".to_string()),
    };
    state.feeds.insert(id, f);
    state.seen_urls.insert("seen");
    let items = vec![
        item("A 1080P", "new", false),
        item("A 1080P", "seen", false),
        item("A 1080P", "", false),
        item("A 1080P 01-12", "batch", true),
        item("A 720P 1080P", "small", false),
        item("A 480P", "smaller", false),
    ];
    let (next, effects) = reduce_rss_items_fetched(&state, id, items, "/dl");
    assert_eq!(next, state);
    assert_eq!(effects.len(), 1);
    assert!(
        effects[0]
            == Effect::AddTorrent {
                torrent_url: "new".to_string(),
                save_path: "/dl/11111111-1111-1111-1111-111111111111".to_string(),
                feed_id: id,
            }
    );

    // Once the download has started, its URL is not submitted again.
    let (started, _) =
        reduce_download_started(&state, "H".to_string(), id, "new".to_string());
    let (_, effects) =
        reduce_rss_items_fetched(&started, id, vec![item("A 1080P", "new", false)], "/dl");
    assert!(effects.is_empty());
}

#[test]
fn failed_download_is_reported_and_forgotten() {
    let mut state = empty_state();
    let id = FeedId::generate();
    state
        .tracker
        .insert("DEADBEEF".to_string(), record(id, 1, 0, RecordStatus::Downloading));
    let (next, effects) =
        reduce_downloader_notification(&state, "DEADBEEF".to_string(), DownloadStatus::Failed);
    assert_eq!(next.tracker.len(), 0);
    match &effects[0] {
        Effect::Notify(Notification::Failed(f)) => {
            assert_eq!(f.title, "星海物语");
            assert_eq!(f.message, "下载失败: 种子已失效或下载器不可用");
        }
        _ => panic!("expected a failure"),
    }
    // The title of a download that is not tracked shows the beginning of its infohash.
    let (_, effects) = reduce_downloader_notification(
        &empty_state(),
        "0123456789abcdef0123".to_string(),
        DownloadStatus::Failed,
    );
    match &effects[0] {
        Effect::Notify(Notification::Failed(f)) => {
            assert_eq!(f.title, "unknown (0123456789abcdef)")
        }
        _ => panic!("expected a failure"),
    }
}

#[test]
fn completed_download_is_handled_once() {
    let mut state = empty_state();
    let id = FeedId::generate();
    state.download_dir = "/dl".to_string();
    state.library_dir = "/lib".to_string();
    state
        .tracker
        .insert("DEADBEEF".to_string(), record(id, 2, 7, RecordStatus::Downloading));
    let (_, effects) =
        reduce_downloader_notification(&state, "DEADBEEF".to_string(), DownloadStatus::Completed);
    assert!(
        effects[0]
            == Effect::HandleCompleted {
                infohash: "DEADBEEF".to_string(),
                feed_id: id,
                anime: AnimeIdentity { name: "星海物语".to_string(), season: 2 },
                library_dir: "/lib".to_string(),
                download_dir: "/dl".to_string(),
                expected_episode: 7,
            }
    );
    let arrived = state.with_episode_resolved("DEADBEEF", 7, "/lib/x".to_string());
    let arrived = arrived.with_download_in_library("DEADBEEF");
    let (_, effects) =
        reduce_downloader_notification(&arrived, "DEADBEEF".to_string(), DownloadStatus::Completed);
    assert!(effects.is_empty());
    let failed = arrived.with_download_failed("DEADBEEF");
    let (_, effects) =
        reduce_downloader_notification(&failed, "DEADBEEF".to_string(), DownloadStatus::Completed);
    assert!(effects.is_empty());
}

#[test]
fn vanished_download_can_be_downloaded_again() {
    let mut state = empty_state();
    let id = FeedId::generate();
    let mut r = record(id, 1, 0, RecordStatus::Downloading);
    r.torrent_url = "u".to_string();
    state.seen_urls.insert("u");
    state.seen_urls.insert("v");
    state.tracker.insert("DEADBEEF".to_string(), r);
    let mut done = record(id, 1, 1, RecordStatus::InLibrary);
    done.infohash = "OTHER".to_string();
    state.tracker.insert("OTHER".to_string(), done);
    let (next, effects) = reduce_downloads_refreshed(&state, vec![]);
    assert!(effects.is_empty());
    assert!(!next.tracker.contains_key("DEADBEEF"));
    assert!(next.tracker.contains_key("OTHER"));
    assert!(!next.seen_urls.contains("u"));
    assert!(next.seen_urls.contains("v"));
}

#[test]
fn updating_a_feed_keeps_an_omitted_filter() {
    let mut state = empty_state();
    let id = FeedId::generate();
    let mut f = feed(id, 1);
    f.filter.exclude.push("720p".to_string());
    state.feeds.insert(id, f);
    let (next, _, resp) = reduce_user_confirm(&state, id, "新名".to_string(), 3, None, None);
    assert_eq!(resp, ApiResult::OK { value: "updated".to_string() });
    let f = next.feeds.get(&id).unwrap();
    assert_eq!(f.anime.name, "新名");
    assert_eq!(f.anime.season, 3);
    assert_eq!(f.filter.exclude, vec!["720p".to_string()]);

    let broken = FeedFilter { includes: vec![], exclude: vec![], regex: Some("(".to_string()) };
    let (next, _, resp) =
        reduce_user_confirm(&state, id, "x".to_string(), 1, None, Some(broken));
    assert!(matches!(resp, ApiResult::Error { code: 400, .. }));
    assert_eq!(next, state);

    let other = FeedId { bits: 5 };
    let (next, _, resp) = reduce_user_confirm(&state, other, "x".to_string(), 1, None, None);
    assert_eq!(
        resp,
        ApiResult::Error {
            code: 404,
            message: "feed 00000000-0000-0000-0000-000000000005 not found".to_string(),
        }
    );
    assert_eq!(next, state);
}

#[test]
fn refused_feeds_are_not_added() {
    let state = empty_state();
    let step = reduce(
        &state,
        Event::ConfirmFeed {
            url: "https://example.com/rss".to_string(),
            name: "  ".to_string(),
            season: 1,
            bangumi_info: None,
            filter: FeedFilter::default(),
        },
    );
    assert_eq!(step.state, state);
    assert!(matches!(
        step.reply,
        Some(Reply::Text(ApiResult::Error { code: 400, ref message })) if message == "name cannot be empty"
    ));
    let step = reduce(
        &state,
        Event::ConfirmFeed {
            url: "https://example.com/rss".to_string(),
            name: "x".to_string(),
            season: 1,
            bangumi_info: None,
            filter: FeedFilter { includes: vec![" ".to_string()], exclude: vec![], regex: None },
        },
    );
    assert_eq!(step.state, state);
    assert!(matches!(step.reply, Some(Reply::Text(ApiResult::Error { code: 400, .. }))));
}

#[test]
fn removed_feed_leaves_no_records() {
    let mut state = empty_state();
    let id = FeedId { bits: 1 };
    let other = FeedId { bits: 2 };
    state.feeds.insert(id, feed(id, 1));
    state.tracker.insert("A".to_string(), record(id, 1, 0, RecordStatus::Downloading));
    state.tracker.insert("B".to_string(), record(other, 1, 0, RecordStatus::Downloading));
    let step = reduce(&state, Event::ApiRemoveFeed { feed_id: id });
    assert_eq!(step.state.feeds.len(), 0);
    assert!(!step.state.tracker.contains_key("A"));
    assert!(step.state.tracker.contains_key("B"));
    assert!(matches!(
        step.reply,
        Some(Reply::Text(ApiResult::OK { ref value }))
            if value == "feed 00000000-0000-0000-0000-000000000001 removed"
    ));
    let again = reduce(&step.state, Event::ApiRemoveFeed { feed_id: id });
    assert!(matches!(again.reply, Some(Reply::Text(ApiResult::Error { code: 404, .. }))));
}

#[test]
fn notification_test_sends_both_kinds() {
    let step = reduce(&empty_state(), Event::NotifyTest);
    assert_eq!(step.state, empty_state());
    assert_eq!(step.effects.len(), 2);
    assert!(matches!(step.effects[0], Effect::Notify(Notification::EpisodeDownloaded(_))));
    assert!(matches!(step.effects[1], Effect::Notify(Notification::Failed(_))));
}

#[test]
fn queries_are_answered() {
    let mut state = empty_state();
    let id = FeedId { bits: 1 };
    state.feeds.insert(id, feed(id, 4));
    state.tracker.insert("A".to_string(), record(id, 4, 2, RecordStatus::InLibrary));
    match reduce(&state, Event::ApiListFeeds).reply {
        Some(Reply::Feeds(ApiResult::OK { value })) => {
            assert_eq!(value.len(), 1);
            assert_eq!(value[0].season, 4);
            assert_eq!(value[0].url, "https://example.com/rss");
        }
        _ => panic!("expected feeds"),
    }
    assert!(matches!(
        reduce(&state, Event::ApiListDownloads).reply,
        Some(Reply::Downloads(ApiResult::OK { ref value })) if value.is_empty()
    ));
    assert!(matches!(
        reduce(&state, Event::ApiGetEpisode { infohash: "A".to_string() }).reply,
        Some(Reply::Episode(ApiResult::OK { ref value })) if value.key.episode == 2
    ));
    assert!(matches!(
        reduce(&state, Event::ApiGetEpisode { infohash: "B".to_string() }).reply,
        Some(Reply::Episode(ApiResult::Error { code: 404, .. }))
    ));
    let step = reduce(&state, Event::PollDownloader);
    assert_eq!(step.effects.len(), 3);
    assert!(step.reply.is_none());
    assert!(reduce(&state, Event::CheckDownloader).effects[0] == Effect::CheckDownloader);
    assert!(reduce(&state, Event::RefreshDownloads).effects[0] == Effect::QueryAllDownloads);
}

#[test]
fn failed_handling_is_not_retried() {
    let mut state = empty_state();
    let id = FeedId { bits: 1 };
    state.tracker.insert("A".to_string(), record(id, 4, 2, RecordStatus::Downloading));
    let step = reduce(&state, Event::EpisodeHandleFailed { infohash: "A".to_string() });
    assert_eq!(step.state.tracker.get("A").unwrap().status, RecordStatus::Failed);
    let step = reduce(
        &step.state,
        Event::DownloaderNotification {
            infohash: "A".to_string(),
            status: DownloadStatus::Completed,
        },
    );
    assert!(step.effects.is_empty());
}

#[test]
fn identifiers_are_uuids() {
    let id = FeedId::generate();
    let text = id.to_text();
    assert_eq!(text.len(), 36);
    assert_eq!(&text[14..15], "4");
    assert_eq!(FeedId::parse(&text), Some(id));
    assert_eq!(FeedId::parse(&text.to_uppercase()), Some(id));
    assert_eq!(FeedId::parse("nonsense"), None);
    assert_eq!(
        FeedId { bits: 0x0123456789abcdef0123456789abcdef }.to_text(),
        "01234567-89ab-cdef-0123-456789abcdef"
    );
    assert_ne!(FeedId::generate(), id);
}

// ── What is written is read back ──

#[test]
fn confirmed_and_removed_feeds_in_the_list() {
    let step = reduce(
        &empty_state(),
        Event::ConfirmFeed {
            url: "https://example.com/rss".to_string(),
            name: "星海物语".to_string(),
            season: 2,
            bangumi_info: None,
            filter: FeedFilter {
                includes: vec!["a".to_string()],
                exclude: vec![],
                regex: None,
            },
        },
    );
    let id = match step.reply {
        Some(Reply::Text(ApiResult::OK { value })) => FeedId::parse(&value).unwrap(),
        _ => panic!("expected an identifier"),
    };
    let list = |state: &AppState| match reduce(state, Event::ApiListFeeds).reply {
        Some(Reply::Feeds(ApiResult::OK { value })) => value,
        _ => panic!("expected feeds"),
    };
    let listed = list(&step.state);
    assert_eq!(listed.len(), 1);
    assert_eq!(listed[0].id, id);
    assert_eq!(listed[0].name, "星海物语");
    assert_eq!(listed[0].url, "https://example.com/rss");
    assert_eq!(listed[0].season, 2);
    assert_eq!(listed[0].filter.includes, vec!["a".to_string()]);
    assert_eq!(step.state.feeds.key_at(0), step.state.feeds.value_at(0).id);
    let removed = reduce(&step.state, Event::ApiRemoveFeed { feed_id: id });
    assert!(list(&removed.state).is_empty());
}

#[test]
fn moved_episode_is_found_by_its_infohash() {
    let mut state = empty_state();
    let id = FeedId { bits: 1 };
    state.tracker.insert("A".to_string(), record(id, 4, 0, RecordStatus::Downloading));
    let step = reduce(
        &state,
        Event::EpisodeMovedToLibrary {
            infohash: "A".to_string(),
            episode: 9,
            library_path: "/lib/x.mkv".to_string(),
        },
    );
    let reply = reduce(&step.state, Event::ApiGetEpisode { infohash: "A".to_string() }).reply;
    let found = match reply {
        Some(Reply::Episode(found)) => found,
        _ => panic!("expected an episode"),
    };
    assert_eq!(file_to_stream(Ok(found)).unwrap(), "/lib/x.mkv");
}

#[test]
fn reported_downloads_are_listed_in_order() {
    let snapshot = |hash: &str| DownloadSnapshot {
        infohash: hash.to_string(),
        state: DownloadState::Seeding,
        progress: ONE,
        speed: 3,
        size: 4,
        name: "n".to_string(),
    };
    let step = reduce(
        &empty_state(),
        Event::DownloadsRefreshed { snapshots: vec![snapshot("b"), snapshot("a")] },
    );
    match reduce(&step.state, Event::ApiListDownloads).reply {
        Some(Reply::Downloads(ApiResult::OK { value })) => {
            let hashes: Vec<&str> = value.iter().map(|d| d.infohash.as_str()).collect();
            assert_eq!(hashes, vec!["b", "a"]);
            assert_eq!(value[0].feed_name, "");
            assert_eq!(value[0].season, 0);
        }
        _ => panic!("expected downloads"),
    }
}

#[test]
fn failures_with_infohashes_that_cannot_be_cut_are_told_apart() {
    let event = |hash: &str, status: DownloadStatus| Event::DownloaderNotification {
        infohash: hash.to_string(),
        status,
    };
    let state = empty_state();
    assert!(is_acceptable(&state, &event("0123456789abcdef0", DownloadStatus::Failed)));
    // Sixteen bytes end inside a character.
    let odd = "0123456789abcde星";
    assert!(!is_acceptable(&state, &event(odd, DownloadStatus::Failed)));
    assert!(is_acceptable(&state, &event(odd, DownloadStatus::Completed)));
    assert!(is_acceptable(&state, &Event::NotifyTest));
}

#[test]
fn builders_change_one_thing() {
    let id = FeedId { bits: 1 };
    let state = empty_state().with_url_seen("u").with_url_seen("u");
    assert!(state.has_url("u"));
    assert_eq!(state.seen_urls.urls().len(), 1);
    let state = state.with_seen_url_removed("u");
    assert!(!state.has_url("u"));
    let state = state.with_feed_added(feed(id, 1)).with_feed_updated(id, feed(id, 5));
    assert_eq!(state.feeds.len(), 1);
    assert_eq!(state.feeds.get(&id).unwrap().anime.season, 5);
    let state = state.with_download_started(record(id, 1, 0, RecordStatus::Downloading));
    assert!(state.tracker.contains_key("DEADBEEF"));
    let state = state.with_tracker_removed("DEADBEEF");
    assert_eq!(state.tracker.len(), 0);
}
