//! Application state with consuming builders: each returns the state with one thing changed.
use vstd::prelude::*;

use crate::feed_id::FeedId;
use crate::tables::{self, Feed, FeedTable, FeedView, Tracker, UrlSet};
use crate::text;
use crate::types::{
    self,
    AnimeIdentityView, BangumiInfo, BangumiInfoView, DownloadInfo, DownloadInfoView,
    EpisodeKeyView, EpisodeRecord, EpisodeRecordView, FeedFilter, FeedFilterView, RecordStatus,
};

verus! {

#[derive(Debug, PartialEq)]
pub struct AppState {
    pub feeds: FeedTable,
    /// Infohash → episode record (follows a torrent from start to library).
    pub tracker: Tracker,
    /// Torrent URLs already submitted — prevents duplicate downloads across feeds.
    pub seen_urls: UrlSet,
    /// Download list for API replies.
    pub cached_downloads: Vec<DownloadInfo>,
    pub download_dir: String,
    pub library_dir: String,
    pub webhook_url: Option<String>,
}

#[verifier::ext_equal]
pub struct AppStateView {
    pub feeds: Seq<(FeedId, FeedView)>,
    pub tracker: Seq<(Seq<char>, EpisodeRecordView)>,
    pub seen_urls: Set<Seq<char>>,
    pub cached_downloads: Seq<DownloadInfoView>,
    pub download_dir: Seq<char>,
    pub library_dir: Seq<char>,
    pub webhook_url: Option<Seq<char>>,
}

/// The views of download list entries.
pub open spec fn download_views(downloads: Seq<DownloadInfo>) -> Seq<DownloadInfoView> {
    Seq::new(downloads.len(), |i: int| downloads[i]@)
}

impl View for AppState {
    type V = AppStateView;

    open spec fn view(&self) -> AppStateView {
        AppStateView {
            feeds: self.feeds@,
            tracker: self.tracker@,
            seen_urls: self.seen_urls@,
            cached_downloads: download_views(self.cached_downloads@),
            download_dir: self.download_dir@,
            library_dir: self.library_dir@,
            webhook_url: text::opt(self.webhook_url),
        }
    }
}

impl AppStateView {
    /// The state with nothing in it.
    pub open spec fn empty() -> AppStateView {
        AppStateView {
            feeds: seq![],
            tracker: seq![],
            seen_urls: Set::empty(),
            cached_downloads: seq![],
            download_dir: seq![],
            library_dir: seq![],
            webhook_url: None,
        }
    }

    /// No feed stands under two identifiers, no record under two infohashes.
    pub open spec fn valid(self) -> bool {
        tables::unique_keys(self.feeds) && tables::unique_keys(self.tracker)
    }
}

/// A copy of a download list.
pub fn clone_downloads(downloads: &Vec<DownloadInfo>) -> (r: Vec<DownloadInfo>)
    ensures
        download_views(r@) == download_views(downloads@),
{
    let mut out: Vec<DownloadInfo> = Vec::new();
    let mut i: usize = 0;
    while i < downloads.len()
        invariant
            i <= downloads@.len(),
            out@.len() == i,
            forall|j: int| 0 <= j < i ==> out@[j]@ == downloads@[j]@,
        decreases downloads@.len() - i,
    {
        out.push(downloads[i].clone());
        i = i + 1;
    }
    out
}

impl Clone for AppState {
    fn clone(&self) -> (r: Self)
        ensures
            r@ == self@,
    {
        AppState {
            feeds: self.feeds.clone(),
            tracker: self.tracker.clone(),
            seen_urls: self.seen_urls.clone(),
            cached_downloads: clone_downloads(&self.cached_downloads),
            download_dir: self.download_dir.clone(),
            library_dir: self.library_dir.clone(),
            webhook_url: text::clone_opt(&self.webhook_url),
        }
    }
}

impl Default for AppState {
    fn default() -> (r: Self)
        ensures
            r@ == AppStateView::empty(),
    {
        AppState {
            feeds: FeedTable::new(),
            tracker: Tracker::new(),
            seen_urls: UrlSet::new(),
            cached_downloads: Vec::new(),
            download_dir: String::new(),
            library_dir: String::new(),
            webhook_url: None,
        }
    }
}

/// The feeds once one of them has been confirmed; a filter is kept where none is given.
pub open spec fn confirmed(
    feeds: Seq<(FeedId, FeedView)>,
    id: FeedId,
    name: Seq<char>,
    season: u8,
    bangumi_info: Option<BangumiInfoView>,
    filter: Option<FeedFilterView>,
) -> Seq<(FeedId, FeedView)> {
    match tables::lookup(feeds, id) {
        Some(feed) => tables::inserted(
            feeds,
            id,
            FeedView {
                anime: AnimeIdentityView { name, season },
                confirmed: true,
                bangumi_info,
                filter: match filter {
                    Some(f) => f,
                    None => feed.filter,
                },
                ..feed
            },
        ),
        None => feeds,
    }
}

/// The records once the one under `infohash`, if there is one, has the given status.
pub open spec fn with_status(
    tracker: Seq<(Seq<char>, EpisodeRecordView)>,
    infohash: Seq<char>,
    status: RecordStatus,
) -> Seq<(Seq<char>, EpisodeRecordView)> {
    match tables::lookup(tracker, infohash) {
        Some(record) => tables::inserted(
            tracker,
            infohash,
            EpisodeRecordView { status, ..record },
        ),
        None => tracker,
    }
}

/// The view of an optional filter.
pub open spec fn filter_view(filter: Option<FeedFilter>) -> Option<FeedFilterView> {
    match filter {
        Some(f) => Some(f@),
        None => None,
    }
}

impl AppState {
    /// The identifiers and infohashes of a state are unique.
    pub(crate) fn check_valid(&self)
        ensures
            self@.valid(),
    {
        let _feeds: usize = self.feeds.len();
        let _records: usize = self.tracker.len();
    }

    /// Inserts a new confirmed feed subscription.
    pub fn with_feed_added(self, feed: Feed) -> (r: Self)
        ensures
            r@ == (AppStateView {
                feeds: tables::inserted(self@.feeds, feed@.id, feed@),
                ..self@
            }),
    {
        let mut state = self;
        state.feeds.insert(feed.id, feed);
        state
    }

    /// Confirms a feed's anime name and season, with its metadata and, if given, its filter.
    pub fn with_feed_confirmed(
        self,
        id: FeedId,
        name: String,
        season: u8,
        bangumi_info: Option<BangumiInfo>,
        filter: Option<FeedFilter>,
    ) -> (r: Self)
        ensures
            r@ == (AppStateView {
                feeds: confirmed(
                    self@.feeds,
                    id,
                    name@,
                    season,
                    types::info_view(bangumi_info),
                    filter_view(filter),
                ),
                ..self@
            }),
    {
        let mut state = self;
        let feed = match state.feeds.get(&id) {
            Some(f) => {
                let mut feed = f.clone();
                feed.anime.name = name;
                feed.anime.season = season;
                feed.confirmed = true;
                feed.bangumi_info = bangumi_info;
                match filter {
                    Some(given) => {
                        feed.filter = given;
                    },
                    None => {},
                }
                feed
            },
            None => {
                return state;
            },
        };
        state.feeds.insert(id, feed);
        state
    }

    /// Replaces a feed entirely.
    pub fn with_feed_updated(self, id: FeedId, feed: Feed) -> (r: Self)
        ensures
            r@ == (AppStateView { feeds: tables::inserted(self@.feeds, id, feed@), ..self@ }),
    {
        let mut state = self;
        state.feeds.insert(id, feed);
        state
    }

    /// Records that a download has started: its record is tracked and its URL counts as submitted.
    pub fn with_download_started(self, record: EpisodeRecord) -> (r: Self)
        ensures
            r@ == (AppStateView {
                tracker: tables::inserted(self@.tracker, record@.infohash, record@),
                seen_urls: if record@.torrent_url.len() == 0 {
                    self@.seen_urls
                } else {
                    self@.seen_urls.insert(record@.torrent_url)
                },
                ..self@
            }),
    {
        let mut state = self;
        if !record.torrent_url.as_str().is_empty() {
            state.seen_urls.insert(&record.torrent_url);
        }
        state.tracker.insert(record.infohash.clone(), record);
        state
    }

    /// The episode of a record has been resolved.
    pub fn with_episode_resolved(
        self,
        infohash: &str,
        episode: u32,
        library_path: String,
    ) -> (r: Self)
        ensures
            r@ == (AppStateView {
                tracker: match tables::lookup(self@.tracker, infohash@) {
                    Some(record) => tables::inserted(
                        self@.tracker,
                        infohash@,
                        EpisodeRecordView {
                            key: EpisodeKeyView { episode, ..record.key },
                            library_path: Some(library_path@),
                            status: RecordStatus::Resolved,
                            ..record
                        },
                    ),
                    None => self@.tracker,
                },
                ..self@
            }),
    {
        let mut state = self;
        let record = match state.tracker.get(infohash) {
            Some(old_record) => {
                let mut record = old_record.clone();
                record.key.episode = episode;
                record.library_path = Some(library_path);
                record.status = RecordStatus::Resolved;
                record
            },
            None => {
                return state;
            },
        };
        state.tracker.insert(infohash.to_owned(), record);
        state
    }

    fn with_record_status(self, infohash: &str, status: RecordStatus) -> (r: Self)
        ensures
            r@ == (AppStateView {
                tracker: with_status(self@.tracker, infohash@, status),
                ..self@
            }),
    {
        let mut state = self;
        let record = match state.tracker.get(infohash) {
            Some(old_record) => {
                let mut record = old_record.clone();
                record.status = status;
                record
            },
            None => {
                return state;
            },
        };
        state.tracker.insert(infohash.to_owned(), record);
        state
    }

    /// Marks a download as moved into the library.
    pub fn with_download_in_library(self, infohash: &str) -> (r: Self)
        ensures
            r@ == (AppStateView {
                tracker: with_status(self@.tracker, infohash@, RecordStatus::InLibrary),
                ..self@
            }),
    {
        self.with_record_status(infohash, RecordStatus::InLibrary)
    }

    /// Marks a download as failed.
    pub fn with_download_failed(self, infohash: &str) -> (r: Self)
        ensures
            r@ == (AppStateView {
                tracker: with_status(self@.tracker, infohash@, RecordStatus::Failed),
                ..self@
            }),
    {
        self.with_record_status(infohash, RecordStatus::Failed)
    }

    /// Removes a feed and all its records.
    pub fn with_feed_removed(self, id: FeedId) -> (r: Self)
        ensures
            r@ == (AppStateView {
                feeds: tables::removed(self@.feeds, id),
                tracker: tables::without_feed(self@.tracker, id),
                ..self@
            }),
    {
        let mut state = self;
        state.feeds.remove(&id);
        state.tracker.remove_feed(id);
        state
    }

    /// Removes the record under an infohash.
    pub fn with_tracker_removed(self, infohash: &str) -> (r: Self)
        ensures
            r@ == (AppStateView {
                tracker: tables::removed(self@.tracker, infohash@),
                ..self@
            }),
    {
        let mut state = self;
        state.tracker.remove(infohash);
        state
    }

    /// Marks a torrent URL as submitted.
    pub fn with_url_seen(self, url: &str) -> (r: Self)
        ensures
            r@ == (AppStateView { seen_urls: self@.seen_urls.insert(url@), ..self@ }),
    {
        let mut state = self;
        state.seen_urls.insert(url);
        state
    }

    /// Forgets that a torrent URL was submitted.
    pub fn with_seen_url_removed(self, url: &str) -> (r: Self)
        ensures
            r@ == (AppStateView { seen_urls: self@.seen_urls.remove(url@), ..self@ }),
    {
        let mut state = self;
        state.seen_urls.remove(url);
        state
    }

    /// Whether a torrent URL was submitted.
    pub fn has_url(&self, url: &str) -> (r: bool)
        ensures
            r == self@.seen_urls.contains(url@),
    {
        self.seen_urls.contains(url)
    }

    /// Replaces the download list.
    pub fn with_downloads_cached(self, downloads: Vec<DownloadInfo>) -> (r: Self)
        ensures
            r@ == (AppStateView { cached_downloads: download_views(downloads@), ..self@ }),
    {
        let mut state = self;
        state.cached_downloads = downloads;
        state
    }
}

} // verus!
