//! Events flow inward to the reducer; replies to API queries flow back.
use vstd::prelude::*;

use crate::feed_id::FeedId;
use crate::state;
use crate::text;
use crate::types::{
    self,
    ApiResult, BangumiInfo, BangumiInfoView, DownloadInfo, DownloadInfoView,
    DownloadSnapshot, DownloadSnapshotView, EpisodeRecord, EpisodeRecordView, FeedFilter,
    FeedFilterView, FeedInfo, FeedInfoView, RssItem, RssItemView,
};

verus! {

/// What became of a torrent in the downloader.
#[derive(Debug, Clone, Copy, PartialEq, Eq, Structural)]
pub enum DownloadStatus {
    Completed,
    Failed,
}

#[allow(inconsistent_fields)]
#[derive(Debug, PartialEq)]
pub enum Event {
    /// Periodic refresh of all subscribed feeds.
    RssTickAll,
    /// RSS items were fetched — the reducer decides which to add.
    RssItemsFetched { feed_id: FeedId, items: Vec<RssItem>, download_dir: String },
    /// Periodic poll of the downloader.
    PollDownloader,
    /// A download was started.
    DownloadStarted { infohash: String, feed_id: FeedId, torrent_url: String },
    /// A torrent in the downloader changed state.
    DownloaderNotification { infohash: String, status: DownloadStatus },
    /// An episode was resolved and its file moved to the library.
    EpisodeMovedToLibrary { infohash: String, episode: u32, library_path: String },
    /// The files could not be moved to the library.
    EpisodeHandleFailed { infohash: String },
    /// The user confirmed the anime name and season of a feed.
    UserConfirm {
        feed_id: FeedId,
        name: String,
        season: u8,
        bangumi_info: Option<BangumiInfo>,
        filter: Option<FeedFilter>,
    },
    /// API: confirm a feed subscription.
    ConfirmFeed {
        url: String,
        name: String,
        season: u8,
        bangumi_info: Option<BangumiInfo>,
        filter: FeedFilter,
    },
    /// API: list all feeds.
    ApiListFeeds,
    /// API: remove a feed subscription.
    ApiRemoveFeed { feed_id: FeedId },
    /// API: list current downloads.
    ApiListDownloads,
    /// Trigger a downloader refresh.
    RefreshDownloads,
    /// Fresh download snapshots.
    DownloadsRefreshed { snapshots: Vec<DownloadSnapshot> },
    /// RSS fetch or parse failed for a feed.
    RssFetchFailed { feed_id: FeedId, error: String },
    /// API: send test notifications.
    NotifyTest,
    /// API: query a single episode record.
    ApiGetEpisode { infohash: String },
    /// API: probe the downloader.
    CheckDownloader,
}

#[allow(inconsistent_fields)]
#[verifier::ext_equal]
pub enum EventView {
    RssTickAll,
    RssItemsFetched { feed_id: FeedId, items: Seq<RssItemView>, download_dir: Seq<char> },
    PollDownloader,
    DownloadStarted { infohash: Seq<char>, feed_id: FeedId, torrent_url: Seq<char> },
    DownloaderNotification { infohash: Seq<char>, status: DownloadStatus },
    EpisodeMovedToLibrary { infohash: Seq<char>, episode: u32, library_path: Seq<char> },
    EpisodeHandleFailed { infohash: Seq<char> },
    UserConfirm {
        feed_id: FeedId,
        name: Seq<char>,
        season: u8,
        bangumi_info: Option<BangumiInfoView>,
        filter: Option<FeedFilterView>,
    },
    ConfirmFeed {
        url: Seq<char>,
        name: Seq<char>,
        season: u8,
        bangumi_info: Option<BangumiInfoView>,
        filter: FeedFilterView,
    },
    ApiListFeeds,
    ApiRemoveFeed { feed_id: FeedId },
    ApiListDownloads,
    RefreshDownloads,
    DownloadsRefreshed { snapshots: Seq<DownloadSnapshotView> },
    RssFetchFailed { feed_id: FeedId, error: Seq<char> },
    NotifyTest,
    ApiGetEpisode { infohash: Seq<char> },
    CheckDownloader,
}

/// The views of RSS items.
pub open spec fn item_views(items: Seq<RssItem>) -> Seq<RssItemView> {
    Seq::new(items.len(), |i: int| items[i]@)
}

/// The views of snapshots.
pub open spec fn snapshot_views(snapshots: Seq<DownloadSnapshot>) -> Seq<DownloadSnapshotView> {
    Seq::new(snapshots.len(), |i: int| snapshots[i]@)
}

impl View for Event {
    type V = EventView;

    open spec fn view(&self) -> EventView {
        match self {
            Event::RssTickAll => EventView::RssTickAll,
            Event::RssItemsFetched { feed_id, items, download_dir } => EventView::RssItemsFetched {
                feed_id: *feed_id,
                items: item_views(items@),
                download_dir: download_dir@,
            },
            Event::PollDownloader => EventView::PollDownloader,
            Event::DownloadStarted { infohash, feed_id, torrent_url } => {
                EventView::DownloadStarted {
                    infohash: infohash@,
                    feed_id: *feed_id,
                    torrent_url: torrent_url@,
                }
            },
            Event::DownloaderNotification { infohash, status } => {
                EventView::DownloaderNotification { infohash: infohash@, status: *status }
            },
            Event::EpisodeMovedToLibrary { infohash, episode, library_path } => {
                EventView::EpisodeMovedToLibrary {
                    infohash: infohash@,
                    episode: *episode,
                    library_path: library_path@,
                }
            },
            Event::EpisodeHandleFailed { infohash } => EventView::EpisodeHandleFailed {
                infohash: infohash@,
            },
            Event::UserConfirm { feed_id, name, season, bangumi_info, filter } => {
                EventView::UserConfirm {
                    feed_id: *feed_id,
                    name: name@,
                    season: *season,
                    bangumi_info: types::info_view(*bangumi_info),
                    filter: state::filter_view(*filter),
                }
            },
            Event::ConfirmFeed { url, name, season, bangumi_info, filter } => {
                EventView::ConfirmFeed {
                    url: url@,
                    name: name@,
                    season: *season,
                    bangumi_info: types::info_view(*bangumi_info),
                    filter: filter@,
                }
            },
            Event::ApiListFeeds => EventView::ApiListFeeds,
            Event::ApiRemoveFeed { feed_id } => EventView::ApiRemoveFeed { feed_id: *feed_id },
            Event::ApiListDownloads => EventView::ApiListDownloads,
            Event::RefreshDownloads => EventView::RefreshDownloads,
            Event::DownloadsRefreshed { snapshots } => EventView::DownloadsRefreshed {
                snapshots: snapshot_views(snapshots@),
            },
            Event::RssFetchFailed { feed_id, error } => EventView::RssFetchFailed {
                feed_id: *feed_id,
                error: error@,
            },
            Event::NotifyTest => EventView::NotifyTest,
            Event::ApiGetEpisode { infohash } => EventView::ApiGetEpisode { infohash: infohash@ },
            Event::CheckDownloader => EventView::CheckDownloader,
        }
    }
}

// ── Replies ──

/// The model of an API result.
#[verifier::ext_equal]
pub enum OutcomeView<V> {
    Value(V),
    Error { code: u16, message: Seq<char> },
}

/// The answer to an API query.
#[derive(Debug, PartialEq)]
pub enum Reply {
    Text(ApiResult<String>),
    Feeds(ApiResult<Vec<FeedInfo>>),
    Downloads(ApiResult<Vec<DownloadInfo>>),
    Episode(ApiResult<EpisodeRecord>),
}

#[verifier::ext_equal]
pub enum ReplyView {
    Text(OutcomeView<Seq<char>>),
    Feeds(OutcomeView<Seq<FeedInfoView>>),
    Downloads(OutcomeView<Seq<DownloadInfoView>>),
    Episode(OutcomeView<EpisodeRecordView>),
}

/// The views of feed list entries.
pub open spec fn feed_info_views(feeds: Seq<FeedInfo>) -> Seq<FeedInfoView> {
    Seq::new(feeds.len(), |i: int| feeds[i]@)
}

/// The model of a text result.
pub open spec fn text_outcome(result: ApiResult<String>) -> OutcomeView<Seq<char>> {
    match result {
        ApiResult::OK { value } => OutcomeView::Value(value@),
        ApiResult::Error { code, message } => OutcomeView::Error { code, message: message@ },
    }
}

/// The model of a feed list result.
pub open spec fn feeds_outcome(result: ApiResult<Vec<FeedInfo>>) -> OutcomeView<
    Seq<FeedInfoView>,
> {
    match result {
        ApiResult::OK { value } => OutcomeView::Value(feed_info_views(value@)),
        ApiResult::Error { code, message } => OutcomeView::Error { code, message: message@ },
    }
}

/// The model of a download list result.
pub open spec fn downloads_outcome(result: ApiResult<Vec<DownloadInfo>>) -> OutcomeView<
    Seq<DownloadInfoView>,
> {
    match result {
        ApiResult::OK { value } => OutcomeView::Value(state::download_views(value@)),
        ApiResult::Error { code, message } => OutcomeView::Error { code, message: message@ },
    }
}

/// The model of an episode record result.
pub open spec fn episode_outcome(result: ApiResult<EpisodeRecord>) -> OutcomeView<
    EpisodeRecordView,
> {
    match result {
        ApiResult::OK { value } => OutcomeView::Value(value@),
        ApiResult::Error { code, message } => OutcomeView::Error { code, message: message@ },
    }
}

impl View for Reply {
    type V = ReplyView;

    open spec fn view(&self) -> ReplyView {
        match self {
            Reply::Text(result) => ReplyView::Text(text_outcome(*result)),
            Reply::Feeds(result) => ReplyView::Feeds(feeds_outcome(*result)),
            Reply::Downloads(result) => ReplyView::Downloads(downloads_outcome(*result)),
            Reply::Episode(result) => ReplyView::Episode(episode_outcome(*result)),
        }
    }
}

} // verus!
