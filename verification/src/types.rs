//! Domain types — the vocabulary shared by the reducer, the executor and the API.
//!
//! Each type that holds text has a view whose texts are sequences of characters.
use vstd::prelude::*;

use crate::feed_id::FeedId;
use crate::text;

verus! {

// ── API results ──

/// The outcome of an API query.
#[derive(Debug, PartialEq)]
pub enum ApiResult<T> {
    OK { value: T },
    Error { code: u16, message: String },
}

// ── Anime and episode identity ──

/// Identifies an anime series uniquely.
#[derive(Debug, PartialEq, Eq, Hash)]
pub struct AnimeIdentity {
    pub name: String,
    pub season: u8,
}

#[verifier::ext_equal]
pub struct AnimeIdentityView {
    pub name: Seq<char>,
    pub season: u8,
}

impl View for AnimeIdentity {
    type V = AnimeIdentityView;

    open spec fn view(&self) -> AnimeIdentityView {
        AnimeIdentityView { name: self.name@, season: self.season }
    }
}

impl Clone for AnimeIdentity {
    fn clone(&self) -> (r: Self)
        ensures
            r@ == self@,
    {
        AnimeIdentity { name: self.name.clone(), season: self.season }
    }
}

/// Identifies a specific episode.
#[derive(Debug, PartialEq, Eq, Hash)]
pub struct EpisodeKey {
    pub anime: AnimeIdentity,
    pub episode: u32,
}

#[verifier::ext_equal]
pub struct EpisodeKeyView {
    pub anime: AnimeIdentityView,
    pub episode: u32,
}

impl View for EpisodeKey {
    type V = EpisodeKeyView;

    open spec fn view(&self) -> EpisodeKeyView {
        EpisodeKeyView { anime: self.anime@, episode: self.episode }
    }
}

impl Clone for EpisodeKey {
    fn clone(&self) -> (r: Self)
        ensures
            r@ == self@,
    {
        EpisodeKey { anime: self.anime.clone(), episode: self.episode }
    }
}

/// Lifecycle of a tracked torrent.
#[derive(Debug, Clone, Copy, PartialEq, Eq, Structural)]
pub enum RecordStatus {
    /// Downloading — episode number not yet known (`key.episode` is 0).
    Downloading,
    /// The tokenizer resolved the episode number.
    Resolved,
    /// File moved into the media library.
    InLibrary,
    /// The files could not be moved into the media library.
    Failed,
}

/// Tracker record — follows a torrent from start to library.
#[derive(Debug, PartialEq)]
pub struct EpisodeRecord {
    /// Torrent infohash (hexadecimal).
    pub infohash: String,
    /// Original torrent download URL.
    pub torrent_url: String,
    /// Feed this download belongs to.
    pub feed_id: FeedId,
    /// Anime and episode identity.
    pub key: EpisodeKey,
    /// Current lifecycle status.
    pub status: RecordStatus,
    /// Final path in the media library (set after the move).
    pub library_path: Option<String>,
}

#[verifier::ext_equal]
pub struct EpisodeRecordView {
    pub infohash: Seq<char>,
    pub torrent_url: Seq<char>,
    pub feed_id: FeedId,
    pub key: EpisodeKeyView,
    pub status: RecordStatus,
    pub library_path: Option<Seq<char>>,
}

impl View for EpisodeRecord {
    type V = EpisodeRecordView;

    open spec fn view(&self) -> EpisodeRecordView {
        EpisodeRecordView {
            infohash: self.infohash@,
            torrent_url: self.torrent_url@,
            feed_id: self.feed_id,
            key: self.key@,
            status: self.status,
            library_path: text::opt(self.library_path),
        }
    }
}

impl Clone for EpisodeRecord {
    fn clone(&self) -> (r: Self)
        ensures
            r@ == self@,
    {
        EpisodeRecord {
            infohash: self.infohash.clone(),
            torrent_url: self.torrent_url.clone(),
            feed_id: self.feed_id,
            key: self.key.clone(),
            status: self.status,
            library_path: text::clone_opt(&self.library_path),
        }
    }
}

// ── Bangumi metadata ──

/// Anime metadata fetched from bgm.tv (Bangumi).
#[derive(Debug, PartialEq)]
pub struct BangumiInfo {
    /// Bangumi subject ID.
    pub bangumi_id: u32,
    /// Official Chinese name.
    pub name_cn: String,
    /// Original name.
    pub name: String,
    /// Synopsis (at most 200 characters).
    pub summary: String,
    /// Total episode count (absent for ongoing shows).
    pub eps_count: Option<u32>,
    /// Average rating, in decimal notation.
    pub rating: Option<String>,
    /// Number of votes.
    pub score_count: Option<u32>,
    /// First air date.
    pub air_date: String,
    /// Cover image URL.
    pub image_url: String,
    /// Bangumi rank.
    pub rank: Option<u32>,
    /// Air weekday (1 = Monday … 7 = Sunday).
    pub air_weekday: Option<u8>,
}

#[verifier::ext_equal]
pub struct BangumiInfoView {
    pub bangumi_id: u32,
    pub name_cn: Seq<char>,
    pub name: Seq<char>,
    pub summary: Seq<char>,
    pub eps_count: Option<u32>,
    pub rating: Option<Seq<char>>,
    pub score_count: Option<u32>,
    pub air_date: Seq<char>,
    pub image_url: Seq<char>,
    pub rank: Option<u32>,
    pub air_weekday: Option<u8>,
}

impl View for BangumiInfo {
    type V = BangumiInfoView;

    open spec fn view(&self) -> BangumiInfoView {
        BangumiInfoView {
            bangumi_id: self.bangumi_id,
            name_cn: self.name_cn@,
            name: self.name@,
            summary: self.summary@,
            eps_count: self.eps_count,
            rating: text::opt(self.rating),
            score_count: self.score_count,
            air_date: self.air_date@,
            image_url: self.image_url@,
            rank: self.rank,
            air_weekday: self.air_weekday,
        }
    }
}

impl Clone for BangumiInfo {
    fn clone(&self) -> (r: Self)
        ensures
            r@ == self@,
    {
        BangumiInfo {
            bangumi_id: self.bangumi_id,
            name_cn: self.name_cn.clone(),
            name: self.name.clone(),
            summary: self.summary.clone(),
            eps_count: self.eps_count,
            rating: text::clone_opt(&self.rating),
            score_count: self.score_count,
            air_date: self.air_date.clone(),
            image_url: self.image_url.clone(),
            rank: self.rank,
            air_weekday: self.air_weekday,
        }
    }
}

/// The view of optional metadata.
pub open spec fn info_view(info: Option<BangumiInfo>) -> Option<BangumiInfoView> {
    match info {
        Some(i) => Some(i@),
        None => None,
    }
}

/// A copy of optional metadata.
pub fn clone_info(info: &Option<BangumiInfo>) -> (r: Option<BangumiInfo>)
    ensures
        info_view(r) == info_view(*info),
{
    match info {
        Some(i) => Some(i.clone()),
        None => None,
    }
}

// ── Feeds ──

/// Title filter of a feed. Every field is optional; an empty filter accepts everything.
#[derive(Debug, PartialEq)]
pub struct FeedFilter {
    /// Whitelist words: the title must contain all of them.
    pub includes: Vec<String>,
    /// Blacklist words: the title must contain none of them.
    pub exclude: Vec<String>,
    /// Advanced pattern that the title must match.
    pub regex: Option<String>,
}

#[verifier::ext_equal]
pub struct FeedFilterView {
    pub includes: Seq<Seq<char>>,
    pub exclude: Seq<Seq<char>>,
    pub regex: Option<Seq<char>>,
}

impl View for FeedFilter {
    type V = FeedFilterView;

    open spec fn view(&self) -> FeedFilterView {
        FeedFilterView {
            includes: text::views(self.includes@),
            exclude: text::views(self.exclude@),
            regex: text::opt(self.regex),
        }
    }
}

impl FeedFilterView {
    /// The filter that accepts everything.
    pub open spec fn none() -> FeedFilterView {
        FeedFilterView { includes: seq![], exclude: seq![], regex: None }
    }
}

impl Clone for FeedFilter {
    fn clone(&self) -> (r: Self)
        ensures
            r@ == self@,
    {
        FeedFilter {
            includes: text::clone_list(&self.includes),
            exclude: text::clone_list(&self.exclude),
            regex: text::clone_opt(&self.regex),
        }
    }
}

impl Default for FeedFilter {
    fn default() -> (r: Self)
        ensures
            r@ == FeedFilterView::none(),
    {
        FeedFilter { includes: Vec::new(), exclude: Vec::new(), regex: None }
    }
}

/// Feed list entry returned to the web UI.
#[derive(Debug, PartialEq)]
pub struct FeedInfo {
    pub id: FeedId,
    pub name: String,
    pub url: String,
    pub season: u8,
    pub bangumi_info: Option<BangumiInfo>,
    pub filter: FeedFilter,
}

#[verifier::ext_equal]
pub struct FeedInfoView {
    pub id: FeedId,
    pub name: Seq<char>,
    pub url: Seq<char>,
    pub season: u8,
    pub bangumi_info: Option<BangumiInfoView>,
    pub filter: FeedFilterView,
}

impl View for FeedInfo {
    type V = FeedInfoView;

    open spec fn view(&self) -> FeedInfoView {
        FeedInfoView {
            id: self.id,
            name: self.name@,
            url: self.url@,
            season: self.season,
            bangumi_info: info_view(self.bangumi_info),
            filter: self.filter@,
        }
    }
}

/// An item parsed from an RSS feed.
#[derive(Debug, PartialEq)]
pub struct RssItem {
    pub title: String,
    pub torrent_url: String,
    /// `true` if the title looks like a batch release (e.g. "01-12").
    pub is_batch: bool,
}

#[verifier::ext_equal]
pub struct RssItemView {
    pub title: Seq<char>,
    pub torrent_url: Seq<char>,
    pub is_batch: bool,
}

impl View for RssItem {
    type V = RssItemView;

    open spec fn view(&self) -> RssItemView {
        RssItemView {
            title: self.title@,
            torrent_url: self.torrent_url@,
            is_batch: self.is_batch,
        }
    }
}

/// Lightweight RSS preview — channel title and sample item titles.
#[derive(Debug, PartialEq)]
pub struct RssPreview {
    pub channel_title: String,
    pub item_titles: Vec<String>,
}

/// Feed preview — returned to the web UI before the user confirms a subscription.
#[derive(Debug, PartialEq)]
pub struct FeedPreview {
    pub suggested_name: String,
    pub suggested_season: u8,
    pub latest_episode: Option<u32>,
    pub group: Option<String>,
    pub sample_titles: Vec<String>,
    /// Bangumi metadata — present if the search succeeded.
    pub bangumi_info: Option<BangumiInfo>,
}

#[verifier::ext_equal]
pub struct FeedPreviewView {
    pub suggested_name: Seq<char>,
    pub suggested_season: u8,
    pub latest_episode: Option<u32>,
    pub group: Option<Seq<char>>,
    pub sample_titles: Seq<Seq<char>>,
    pub bangumi_info: Option<BangumiInfoView>,
}

impl View for FeedPreview {
    type V = FeedPreviewView;

    open spec fn view(&self) -> FeedPreviewView {
        FeedPreviewView {
            suggested_name: self.suggested_name@,
            suggested_season: self.suggested_season,
            latest_episode: self.latest_episode,
            group: text::opt(self.group),
            sample_titles: text::views(self.sample_titles@),
            bangumi_info: info_view(self.bangumi_info),
        }
    }
}

impl Default for FeedPreview {
    fn default() -> (r: Self)
        ensures
            r@ == (FeedPreviewView {
                suggested_name: seq![],
                suggested_season: 1,
                latest_episode: None,
                group: None,
                sample_titles: seq![],
                bangumi_info: None,
            }),
    {
        FeedPreview {
            suggested_name: String::new(),
            suggested_season: 1,
            latest_episode: None,
            group: None,
            sample_titles: Vec::new(),
            bangumi_info: None,
        }
    }
}

// ── Downloads ──

/// A file inside a torrent download.
#[derive(Debug, PartialEq)]
pub struct TorrentFile {
    /// Path relative to the torrent's root.
    pub path: String,
    /// File name: the last component of the path.
    pub name: String,
}

#[verifier::ext_equal]
pub struct TorrentFileView {
    pub path: Seq<char>,
    pub name: Seq<char>,
}

impl View for TorrentFile {
    type V = TorrentFileView;

    open spec fn view(&self) -> TorrentFileView {
        TorrentFileView { path: self.path@, name: self.name@ }
    }
}

/// A download task reported by the downloader as completed or failed.
#[derive(Debug, PartialEq)]
pub struct CompletedDownload {
    pub infohash: String,
}

/// Download state, the same for every downloader.
#[derive(Debug, Clone, Copy, PartialEq, Eq, Structural)]
pub enum DownloadState {
    Downloading,
    Seeding,
    Waiting,
    Paused,
    Checking,
    Completed,
    Failed,
    Removed,
}

/// A number as JSON carries it: an unsigned or a negative integer, or the IEEE-754 bits of a
/// double.
#[derive(Debug, Clone, Copy, PartialEq, Eq, Structural)]
pub enum Number {
    Unsigned(u64),
    Negative(i64),
    Double(u64),
}

/// Download progress: a fraction of bytes done, or a number that the downloader reported.
/// A fraction with total 0 stands for no progress.
#[derive(Debug, Clone, Copy, PartialEq, Eq, Structural)]
pub enum Progress {
    Fraction { done: u64, total: u64 },
    Reported(Number),
}

/// Raw snapshot of a task in the downloader.
#[derive(Debug, PartialEq)]
pub struct DownloadSnapshot {
    pub infohash: String,
    pub state: DownloadState,
    pub progress: Progress,
    pub speed: u64,
    pub size: u64,
    pub name: String,
}

#[verifier::ext_equal]
pub struct DownloadSnapshotView {
    pub infohash: Seq<char>,
    pub state: DownloadState,
    pub progress: Progress,
    pub speed: u64,
    pub size: u64,
    pub name: Seq<char>,
}

impl View for DownloadSnapshot {
    type V = DownloadSnapshotView;

    open spec fn view(&self) -> DownloadSnapshotView {
        DownloadSnapshotView {
            infohash: self.infohash@,
            state: self.state,
            progress: self.progress,
            speed: self.speed,
            size: self.size,
            name: self.name@,
        }
    }
}

/// A snapshot with its feed context, for the API.
#[derive(Debug, PartialEq)]
pub struct DownloadInfo {
    pub infohash: String,
    pub feed_name: String,
    pub season: u8,
    pub state: DownloadState,
    pub progress: Progress,
    pub speed: u64,
    pub size: u64,
    pub name: String,
}

#[verifier::ext_equal]
pub struct DownloadInfoView {
    pub infohash: Seq<char>,
    pub feed_name: Seq<char>,
    pub season: u8,
    pub state: DownloadState,
    pub progress: Progress,
    pub speed: u64,
    pub size: u64,
    pub name: Seq<char>,
}

impl View for DownloadInfo {
    type V = DownloadInfoView;

    open spec fn view(&self) -> DownloadInfoView {
        DownloadInfoView {
            infohash: self.infohash@,
            feed_name: self.feed_name@,
            season: self.season,
            state: self.state,
            progress: self.progress,
            speed: self.speed,
            size: self.size,
            name: self.name@,
        }
    }
}

impl Clone for DownloadInfo {
    fn clone(&self) -> (r: Self)
        ensures
            r@ == self@,
    {
        DownloadInfo {
            infohash: self.infohash.clone(),
            feed_name: self.feed_name.clone(),
            season: self.season,
            state: self.state,
            progress: self.progress,
            speed: self.speed,
            size: self.size,
            name: self.name.clone(),
        }
    }
}

// ── Notifications ──

/// A new episode has been downloaded and moved to the library.
#[derive(Debug, PartialEq)]
pub struct EpisodeDownloadedData {
    pub anime_name: String,
    pub season: u8,
    pub episode: u32,
    pub library_path: String,
    pub name_cn: Option<String>,
    pub name_original: Option<String>,
    pub summary: Option<String>,
    /// Average rating, in decimal notation.
    pub rating: Option<String>,
    pub image_url: Option<String>,
    pub eps_count: Option<u32>,
}

#[verifier::ext_equal]
pub struct EpisodeDownloadedView {
    pub anime_name: Seq<char>,
    pub season: u8,
    pub episode: u32,
    pub library_path: Seq<char>,
    pub name_cn: Option<Seq<char>>,
    pub name_original: Option<Seq<char>>,
    pub summary: Option<Seq<char>>,
    pub rating: Option<Seq<char>>,
    pub image_url: Option<Seq<char>>,
    pub eps_count: Option<u32>,
}

impl View for EpisodeDownloadedData {
    type V = EpisodeDownloadedView;

    open spec fn view(&self) -> EpisodeDownloadedView {
        EpisodeDownloadedView {
            anime_name: self.anime_name@,
            season: self.season,
            episode: self.episode,
            library_path: self.library_path@,
            name_cn: text::opt(self.name_cn),
            name_original: text::opt(self.name_original),
            summary: text::opt(self.summary),
            rating: text::opt(self.rating),
            image_url: text::opt(self.image_url),
            eps_count: self.eps_count,
        }
    }
}

/// Something went wrong.
#[derive(Debug, PartialEq)]
pub struct FailedData {
    pub title: String,
    pub message: String,
}

#[verifier::ext_equal]
pub struct FailedView {
    pub title: Seq<char>,
    pub message: Seq<char>,
}

impl View for FailedData {
    type V = FailedView;

    open spec fn view(&self) -> FailedView {
        FailedView { title: self.title@, message: self.message@ }
    }
}

impl Clone for FailedData {
    fn clone(&self) -> (r: Self)
        ensures
            r@ == self@,
    {
        FailedData { title: self.title.clone(), message: self.message.clone() }
    }
}

/// Notification data: produced by the reducer, consumed by the template renderer.
#[derive(Debug, PartialEq)]
pub enum Notification {
    EpisodeDownloaded(EpisodeDownloadedData),
    Failed(FailedData),
}

#[verifier::ext_equal]
pub enum NotificationView {
    EpisodeDownloaded(EpisodeDownloadedView),
    Failed(FailedView),
}

impl View for Notification {
    type V = NotificationView;

    open spec fn view(&self) -> NotificationView {
        match self {
            Notification::EpisodeDownloaded(d) => NotificationView::EpisodeDownloaded(d@),
            Notification::Failed(f) => NotificationView::Failed(f@),
        }
    }
}

} // verus!
