//! Effects — pure data that describes a side effect to execute.
use vstd::prelude::*;

use crate::event;
use crate::feed_id::FeedId;
use crate::handler::{self, ResolvedFile, ResolvedFileView};
use crate::types::{
    AnimeIdentity, AnimeIdentityView, Notification, NotificationView, RssItem, RssItemView,
};

verus! {

/// An effect to be executed by the service layer.
#[derive(PartialEq)]
pub enum Effect {
    /// Fetch and parse an RSS feed.
    FetchRss { url: String, feed_id: FeedId, download_dir: String },
    /// Add a torrent URI to the downloader.
    AddTorrent { torrent_url: String, save_path: String, feed_id: FeedId },
    /// Feed raw `.torrent` bytes to the downloader.
    AddTorrentBytes { data: Vec<u8>, save_path: String, feed_id: FeedId, torrent_url: String },
    /// Handle a completed download: list files, tokenize, rename, move.
    HandleCompleted {
        infohash: String,
        feed_id: FeedId,
        anime: AnimeIdentity,
        library_dir: String,
        download_dir: String,
        /// Episode number from the tracker (0 = not yet known).
        expected_episode: u32,
    },
    /// Send an out-of-band notification.
    Notify(Notification),
    /// Query the downloader for all current tasks.
    QueryAllDownloads,
    /// Poll the downloader for completed tasks.
    PollCompleted,
    /// Poll the downloader for failed tasks.
    PollFailed,
    /// Probe the downloader.
    CheckDownloader,
    /// RSS items were fetched.
    RssFetchComplete { feed_id: FeedId, items: Vec<RssItem>, download_dir: String },
    /// RSS fetch failed.
    RssFetchFailed { feed_id: FeedId, error: String },
    /// The downloader could not move the files: move them in the file system.
    FilesystemFallback { infohash: String, resolved: Vec<ResolvedFile>, season_dir: String },
}

#[verifier::ext_equal]
pub enum EffectView {
    FetchRss { url: Seq<char>, feed_id: FeedId, download_dir: Seq<char> },
    AddTorrent { torrent_url: Seq<char>, save_path: Seq<char>, feed_id: FeedId },
    AddTorrentBytes {
        data: Seq<u8>,
        save_path: Seq<char>,
        feed_id: FeedId,
        torrent_url: Seq<char>,
    },
    HandleCompleted {
        infohash: Seq<char>,
        feed_id: FeedId,
        anime: AnimeIdentityView,
        library_dir: Seq<char>,
        download_dir: Seq<char>,
        expected_episode: u32,
    },
    Notify(NotificationView),
    QueryAllDownloads,
    PollCompleted,
    PollFailed,
    CheckDownloader,
    RssFetchComplete { feed_id: FeedId, items: Seq<RssItemView>, download_dir: Seq<char> },
    RssFetchFailed { feed_id: FeedId, error: Seq<char> },
    FilesystemFallback {
        infohash: Seq<char>,
        resolved: Seq<ResolvedFileView>,
        season_dir: Seq<char>,
    },
}

impl View for Effect {
    type V = EffectView;

    open spec fn view(&self) -> EffectView {
        match self {
            Effect::FetchRss { url, feed_id, download_dir } => EffectView::FetchRss {
                url: url@,
                feed_id: *feed_id,
                download_dir: download_dir@,
            },
            Effect::AddTorrent { torrent_url, save_path, feed_id } => EffectView::AddTorrent {
                torrent_url: torrent_url@,
                save_path: save_path@,
                feed_id: *feed_id,
            },
            Effect::AddTorrentBytes { data, save_path, feed_id, torrent_url } => {
                EffectView::AddTorrentBytes {
                    data: data@,
                    save_path: save_path@,
                    feed_id: *feed_id,
                    torrent_url: torrent_url@,
                }
            },
            Effect::HandleCompleted {
                infohash,
                feed_id,
                anime,
                library_dir,
                download_dir,
                expected_episode,
            } => EffectView::HandleCompleted {
                infohash: infohash@,
                feed_id: *feed_id,
                anime: anime@,
                library_dir: library_dir@,
                download_dir: download_dir@,
                expected_episode: *expected_episode,
            },
            Effect::Notify(notification) => EffectView::Notify(notification@),
            Effect::QueryAllDownloads => EffectView::QueryAllDownloads,
            Effect::PollCompleted => EffectView::PollCompleted,
            Effect::PollFailed => EffectView::PollFailed,
            Effect::CheckDownloader => EffectView::CheckDownloader,
            Effect::RssFetchComplete { feed_id, items, download_dir } => {
                EffectView::RssFetchComplete {
                    feed_id: *feed_id,
                    items: event::item_views(items@),
                    download_dir: download_dir@,
                }
            },
            Effect::RssFetchFailed { feed_id, error } => EffectView::RssFetchFailed {
                feed_id: *feed_id,
                error: error@,
            },
            Effect::FilesystemFallback { infohash, resolved, season_dir } => {
                EffectView::FilesystemFallback {
                    infohash: infohash@,
                    resolved: handler::resolved_views(resolved@),
                    season_dir: season_dir@,
                }
            },
        }
    }
}

/// The views of effects.
pub open spec fn effect_views(effects: Seq<Effect>) -> Seq<EffectView> {
    Seq::new(effects.len(), |i: int| effects[i]@)
}

} // verus!
