//! Pure reducer — no I/O.
//!
//! Every function takes the state and an event's data and gives the next state, the effects to
//! execute and, for API queries, the reply.
use vstd::prelude::*;
use vstd::utf8::*;

use crate::effect::{self, Effect, EffectView};
use crate::event::{self, DownloadStatus, Event, EventView, OutcomeView, Reply, ReplyView};
use crate::feed_id::{self, FeedId};
use crate::filter;
use crate::http_code;
use crate::state::{self, AppState, AppStateView};
use crate::tables::{self, Feed, FeedView};
use crate::text;
use crate::types::{
    self, AnimeIdentity, AnimeIdentityView, ApiResult, BangumiInfo, BangumiInfoView, DownloadInfo,
    DownloadInfoView, DownloadSnapshot, DownloadSnapshotView, EpisodeDownloadedData,
    EpisodeDownloadedView, EpisodeKey, EpisodeKeyView, EpisodeRecord, EpisodeRecordView,
    FailedData, FailedView, FeedFilter, FeedFilterView, FeedInfo, FeedInfoView, Notification,
    NotificationView, RecordStatus, RssItem, RssItemView,
};

verus! {

/// What the reducer makes of an event.
#[derive(PartialEq)]
pub struct Step {
    pub state: AppState,
    pub effects: Vec<Effect>,
    pub reply: Option<Reply>,
}

#[verifier::ext_equal]
pub struct StepView {
    pub state: AppStateView,
    pub effects: Seq<EffectView>,
    pub reply: Option<ReplyView>,
}

/// The view of an optional reply.
pub open spec fn reply_view(reply: Option<Reply>) -> Option<ReplyView> {
    match reply {
        Some(r) => Some(r@),
        None => None,
    }
}

impl View for Step {
    type V = StepView;

    open spec fn view(&self) -> StepView {
        StepView {
            state: self.state@,
            effects: effect::effect_views(self.effects@),
            reply: reply_view(self.reply),
        }
    }
}

/// A step that leaves the state as it is.
pub open spec fn keeps(
    state: AppStateView,
    effects: Seq<EffectView>,
    reply: Option<ReplyView>,
) -> StepView {
    StepView { state, effects, reply }
}

fn one_effect(e: Effect) -> (r: Vec<Effect>)
    ensures
        effect::effect_views(r@) == seq![e@],
{
    let ghost v = e@;
    let mut out: Vec<Effect> = Vec::new();
    out.push(e);
    assert(effect::effect_views(out@) =~= seq![v]);
    out
}

fn no_effects() -> (r: Vec<Effect>)
    ensures
        effect::effect_views(r@) == Seq::<EffectView>::empty(),
{
    let out: Vec<Effect> = Vec::new();
    assert(effect::effect_views(out@) =~= Seq::<EffectView>::empty());
    out
}

// ── RSS ──

/// One fetch per confirmed feed.
pub open spec fn tick_effects(feeds: Seq<(FeedId, FeedView)>, dir: Seq<char>) -> Seq<EffectView>
    decreases feeds.len(),
{
    if feeds.len() == 0 {
        seq![]
    } else {
        let before = tick_effects(feeds.drop_last(), dir);
        let (id, feed) = feeds.last();
        if feed.confirmed {
            before.push(EffectView::FetchRss { url: feed.url, feed_id: id, download_dir: dir })
        } else {
            before
        }
    }
}

/// Tick all subscribed feeds → one fetch per confirmed feed.
pub fn reduce_rss_tick_all(state: &AppState) -> (r: Vec<Effect>)
    ensures
        effect::effect_views(r@) == tick_effects(state@.feeds, state@.download_dir),
{
    let ghost feeds = state@.feeds;
    let n: usize = state.feeds.len();
    let mut out: Vec<Effect> = no_effects();
    let mut i: usize = 0;
    assert(feeds.take(0) =~= seq![]);
    while i < n
        invariant
            i <= n,
            n == feeds.len(),
            feeds == state@.feeds,
            effect::effect_views(out@) == tick_effects(feeds.take(i as int), state@.download_dir),
        decreases n - i,
    {
        let ghost before = effect::effect_views(out@);
        assert(feeds.take(i + 1).drop_last() =~= feeds.take(i as int));
        let id = state.feeds.key_at(i);
        let feed = state.feeds.value_at(i);
        if feed.confirmed {
            let e = Effect::FetchRss {
                url: feed.url.clone(),
                feed_id: id,
                download_dir: state.download_dir.clone(),
            };
            let ghost v = e@;
            out.push(e);
            assert(effect::effect_views(out@) =~= before.push(v));
        }
        i = i + 1;
    }
    assert(feeds.take(n as int) =~= feeds);
    out
}

/// Tick a single feed → a fetch if it is known and confirmed.
pub fn reduce_rss_tick(state: &AppState, feed_id: FeedId) -> (r: Vec<Effect>)
    ensures
        effect::effect_views(r@) == (match tables::lookup(state@.feeds, feed_id) {
            Some(feed) => if feed.confirmed {
                seq![
                    EffectView::FetchRss {
                        url: feed.url,
                        feed_id,
                        download_dir: state@.download_dir,
                    },
                ]
            } else {
                seq![]
            },
            None => seq![],
        }),
{
    match state.feeds.get(&feed_id) {
        Some(feed) => if feed.confirmed {
            one_effect(
                Effect::FetchRss {
                    url: feed.url.clone(),
                    feed_id,
                    download_dir: state.download_dir.clone(),
                },
            )
        } else {
            no_effects()
        },
        None => no_effects(),
    }
}

/// Whether an item is to be downloaded: it has a URL that was not submitted, is no batch, and
/// passes the filter.
pub open spec fn wanted(item: RssItemView, passes: bool, seen: Set<Seq<char>>) -> bool {
    item.torrent_url.len() > 0 && !seen.contains(item.torrent_url) && !item.is_batch && passes
}

/// Where the downloads of a feed are staged.
pub open spec fn save_path(dir: Seq<char>, feed_id: FeedId) -> Seq<char> {
    dir + "/"@ + feed_id::id_text(feed_id)
}

/// One submission per wanted item, in the order of the feed.
pub open spec fn add_effects(
    items: Seq<RssItemView>,
    passes: Seq<bool>,
    seen: Set<Seq<char>>,
    feed_id: FeedId,
    dir: Seq<char>,
) -> Seq<EffectView>
    decreases items.len(),
{
    if items.len() == 0 {
        seq![]
    } else {
        let n = items.len() - 1;
        let before = add_effects(items.take(n), passes, seen, feed_id, dir);
        if wanted(items[n], passes[n], seen) {
            before.push(
                EffectView::AddTorrent {
                    torrent_url: items[n].torrent_url,
                    save_path: save_path(dir, feed_id),
                    feed_id,
                },
            )
        } else {
            before
        }
    }
}

/// Submits the wanted items, given which of them pass the filter of the feed.
pub fn submit_items(
    state: &AppState,
    feed_id: FeedId,
    items: &Vec<RssItem>,
    passes: &Vec<bool>,
    download_dir: &str,
) -> (r: Vec<Effect>)
    requires
        passes@.len() == items@.len(),
    ensures
        effect::effect_views(r@) == add_effects(
            event::item_views(items@),
            passes@,
            state@.seen_urls,
            feed_id,
            download_dir@,
        ),
{
    let ghost all = event::item_views(items@);
    let mut out: Vec<Effect> = no_effects();
    let mut i: usize = 0;
    assert(all.take(0) =~= seq![]);
    while i < items.len()
        invariant
            i <= items@.len(),
            passes@.len() == items@.len(),
            all == event::item_views(items@),
            effect::effect_views(out@) == add_effects(
                all.take(i as int),
                passes@,
                state@.seen_urls,
                feed_id,
                download_dir@,
            ),
        decreases items@.len() - i,
    {
        let ghost before = effect::effect_views(out@);
        assert(all.take(i + 1).take(i as int) =~= all.take(i as int));
        let item = &items[i];
        assert(all.take(i + 1)[i as int] == item@);
        if !item.torrent_url.as_str().is_empty() && !state.has_url(&item.torrent_url)
            && !item.is_batch && passes[i] {
            let e = Effect::AddTorrent {
                torrent_url: item.torrent_url.clone(),
                save_path: text::join3(download_dir, "/", &feed_id.to_text()),
                feed_id,
            };
            let ghost v = e@;
            out.push(e);
            assert(effect::effect_views(out@) =~= before.push(v));
        }
        i = i + 1;
    }
    assert(all.take(i as int) =~= all);
    out
}

/// The filter of a feed; one that accepts everything for a feed that is not known.
pub open spec fn feed_filter(feeds: Seq<(FeedId, FeedView)>, feed_id: FeedId) -> FeedFilterView {
    match tables::lookup(feeds, feed_id) {
        Some(feed) => feed.filter,
        None => FeedFilterView::none(),
    }
}

/// Which items pass a filter.
pub open spec fn passing(filter: FeedFilterView, items: Seq<RssItemView>) -> Seq<bool> {
    Seq::new(items.len(), |i: int| filter::accepts(filter, items[i].title))
}

fn test_items(filter: &FeedFilter, items: &Vec<RssItem>) -> (r: Vec<bool>)
    ensures
        r@ == passing(filter@, event::item_views(items@)),
{
    let compiled = filter::compile(filter);
    let mut out: Vec<bool> = Vec::new();
    let mut i: usize = 0;
    while i < items.len()
        invariant
            i <= items@.len(),
            out@.len() == i,
            filter::is_empty_filter(filter@) ==> compiled is Ok && compiled->Ok_0 is None,
            !filter::is_empty_filter(filter@) ==> match compiled {
                Ok(c) => filter::regex_error(filter@) is None && (c matches Some(ready)
                    && ready@ == filter::compiled(filter@)),
                Err(_) => filter::regex_error(filter@) is Some,
            },
            forall|j: int| 0 <= j < i ==> out@[j] == filter::accepts(filter@, items@[j]@.title),
        decreases items@.len() - i,
    {
        let pass = match &compiled {
            Ok(None) => true,
            Ok(Some(ready)) => filter::reject_reason(ready, &items[i].title).is_none(),
            Err(_) => false,
        };
        out.push(pass);
        i = i + 1;
    }
    assert(out@ =~= passing(filter@, event::item_views(items@)));
    out
}

/// RSS items were fetched → submit the wanted ones.
pub fn reduce_rss_items_fetched(
    state: &AppState,
    feed_id: FeedId,
    items: Vec<RssItem>,
    download_dir: &str,
) -> (r: (AppState, Vec<Effect>))
    ensures
        r.0@ == state@,
        effect::effect_views(r.1@) == add_effects(
            event::item_views(items@),
            passing(feed_filter(state@.feeds, feed_id), event::item_views(items@)),
            state@.seen_urls,
            feed_id,
            download_dir@,
        ),
{
    let passes = match state.feeds.get(&feed_id) {
        Some(feed) => test_items(&feed.filter, &items),
        None => test_items(&FeedFilter::default(), &items),
    };
    (state.clone(), submit_items(state, feed_id, &items, &passes, download_dir))
}

/// RSS fetch failed → notify, with the URL of the feed as title.
pub fn reduce_rss_fetch_failed(state: &AppState, feed_id: FeedId, error: String) -> (r: (
    AppState,
    Vec<Effect>,
))
    ensures
        r.0@ == state@,
        effect::effect_views(r.1@) == seq![fetch_failed_effect(state@, feed_id, error@)],
{
    let url = match state.feeds.get(&feed_id) {
        Some(feed) => feed.url.clone(),
        None => "unknown".to_owned(),
    };
    let effects = one_effect(
        Effect::Notify(
            Notification::Failed(
                FailedData { title: url, message: text::join2("RSS 获取失败: ", &error) },
            ),
        ),
    );
    (state.clone(), effects)
}

/// The notification of a failed fetch.
pub open spec fn fetch_failed_effect(
    state: AppStateView,
    feed_id: FeedId,
    error: Seq<char>,
) -> EffectView {
    EffectView::Notify(
        NotificationView::Failed(
            FailedView {
                title: match tables::lookup(state.feeds, feed_id) {
                    Some(feed) => feed.url,
                    None => "unknown"@,
                },
                message: "RSS 获取失败: "@ + error,
            },
        ),
    )
}

// ── Downloads ──

/// Periodic poll → poll for completed and failed tasks, and query all.
pub fn reduce_poll_downloader() -> (r: Vec<Effect>)
    ensures
        effect::effect_views(r@) == seq![
            EffectView::PollCompleted,
            EffectView::PollFailed,
            EffectView::QueryAllDownloads,
        ],
{
    let mut out: Vec<Effect> = Vec::new();
    out.push(Effect::PollCompleted);
    out.push(Effect::PollFailed);
    out.push(Effect::QueryAllDownloads);
    assert(effect::effect_views(out@) =~= seq![
        EffectView::PollCompleted,
        EffectView::PollFailed,
        EffectView::QueryAllDownloads,
    ]);
    out
}

/// The record of a download that has just started.
pub open spec fn started_record(
    infohash: Seq<char>,
    feed_id: FeedId,
    torrent_url: Seq<char>,
    anime: AnimeIdentityView,
) -> EpisodeRecordView {
    EpisodeRecordView {
        infohash,
        torrent_url,
        feed_id,
        key: EpisodeKeyView { anime, episode: 0 },
        status: RecordStatus::Downloading,
        library_path: None,
    }
}

/// The state once a download has started: nothing changes if it is tracked or its feed unknown.
pub open spec fn download_started(
    state: AppStateView,
    infohash: Seq<char>,
    feed_id: FeedId,
    torrent_url: Seq<char>,
) -> AppStateView {
    if tables::has_key(state.tracker, infohash) {
        state
    } else {
        match tables::lookup(state.feeds, feed_id) {
            Some(feed) => AppStateView {
                tracker: tables::inserted(
                    state.tracker,
                    infohash,
                    started_record(infohash, feed_id, torrent_url, feed.anime),
                ),
                seen_urls: if torrent_url.len() == 0 {
                    state.seen_urls
                } else {
                    state.seen_urls.insert(torrent_url)
                },
                ..state
            },
            None => state,
        }
    }
}

/// A download was started.
pub fn reduce_download_started(
    state: &AppState,
    infohash: String,
    feed_id: FeedId,
    torrent_url: String,
) -> (r: (AppState, Vec<Effect>))
    ensures
        r.0@ == download_started(state@, infohash@, feed_id, torrent_url@),
        r.1@.len() == 0,
{
    if state.tracker.contains_key(&infohash) {
        return (state.clone(), Vec::new());
    }
    let anime = match state.feeds.get(&feed_id) {
        Some(feed) => feed.anime.clone(),
        None => {
            return (state.clone(), Vec::new());
        },
    };
    let record = EpisodeRecord {
        infohash,
        torrent_url,
        feed_id,
        key: EpisodeKey { anime, episode: 0 },
        status: RecordStatus::Downloading,
        library_path: None,
    };
    (state.clone().with_download_started(record), Vec::new())
}

/// The number of leading bytes of an infohash that are shown.
pub open spec fn shown_bytes(infohash: Seq<char>) -> int {
    if encode_utf8(infohash).len() < 16 {
        encode_utf8(infohash).len() as int
    } else {
        16
    }
}

/// The leading bytes of an infohash end between two characters.
pub open spec fn can_shorten(infohash: Seq<char>) -> bool {
    is_char_boundary(encode_utf8(infohash), shown_bytes(infohash))
}

/// The leading bytes of an infohash.
pub open spec fn shortened(infohash: Seq<char>) -> Seq<char> {
    decode_utf8(encode_utf8(infohash).subrange(0, shown_bytes(infohash)))
}

fn is_shortenable(infohash: &str) -> (r: bool)
    ensures
        r == can_shorten(infohash@),
{
    let n: usize = infohash.as_bytes().len();
    infohash.is_char_boundary(if n < 16 {
        n
    } else {
        16
    })
}

fn shorten(infohash: &str) -> (r: String)
    requires
        can_shorten(infohash@),
    ensures
        r@ == shortened(infohash@),
{
    let n: usize = infohash.as_bytes().len();
    let shown: usize = if n < 16 {
        n
    } else {
        16
    };
    let (head, _) = infohash.split_at(shown);
    proof {
        encode_utf8_decode_utf8(head@);
    }
    head.to_owned()
}

/// The effect of a completed download: none if it is unknown or was handled before.
pub open spec fn completed_effects(state: AppStateView, infohash: Seq<char>) -> Seq<EffectView> {
    match tables::lookup(state.tracker, infohash) {
        Some(record) => if record.status == RecordStatus::InLibrary || record.status
            == RecordStatus::Failed {
            seq![]
        } else {
            seq![
                EffectView::HandleCompleted {
                    infohash,
                    feed_id: record.feed_id,
                    anime: record.key.anime,
                    library_dir: state.library_dir,
                    download_dir: state.download_dir,
                    expected_episode: record.key.episode,
                },
            ]
        },
        None => seq![],
    }
}

/// The notification of a failed download.
pub open spec fn failed_effect(state: AppStateView, infohash: Seq<char>) -> EffectView {
    EffectView::Notify(
        NotificationView::Failed(
            FailedView {
                title: match tables::lookup(state.tracker, infohash) {
                    Some(record) => record.key.anime.name,
                    None => "unknown ("@ + shortened(infohash) + ")"@,
                },
                message: "下载失败: 种子已失效或下载器不可用"@,
            },
        ),
    )
}

/// A download completed or failed.
pub fn reduce_downloader_notification(
    state: &AppState,
    infohash: String,
    status: DownloadStatus,
) -> (r: (AppState, Vec<Effect>))
    requires
        status == DownloadStatus::Failed && !tables::has_key(state@.tracker, infohash@)
            ==> can_shorten(infohash@),
    ensures
        match status {
            DownloadStatus::Completed => r.0@ == state@ && effect::effect_views(r.1@)
                == completed_effects(state@, infohash@),
            DownloadStatus::Failed => r.0@ == (AppStateView {
                tracker: tables::removed(state@.tracker, infohash@),
                ..state@
            }) && effect::effect_views(r.1@) == seq![failed_effect(state@, infohash@)],
        },
{
    match status {
        DownloadStatus::Completed => {
            let record = match state.tracker.get(&infohash) {
                Some(record) => record,
                None => {
                    return (state.clone(), no_effects());
                },
            };
            // The downloader may report a paused or seeding torrent again.
            if record.status == RecordStatus::InLibrary || record.status == RecordStatus::Failed {
                return (state.clone(), no_effects());
            }
            let effects = one_effect(
                Effect::HandleCompleted {
                    infohash,
                    feed_id: record.feed_id,
                    anime: record.key.anime.clone(),
                    library_dir: state.library_dir.clone(),
                    download_dir: state.download_dir.clone(),
                    expected_episode: record.key.episode,
                },
            );
            (state.clone(), effects)
        },
        DownloadStatus::Failed => {
            let title = match state.tracker.get(&infohash) {
                Some(record) => record.key.anime.name.clone(),
                None => text::join3("unknown (", &shorten(&infohash), ")"),
            };
            let effects = one_effect(
                Effect::Notify(
                    Notification::Failed(
                        FailedData {
                            title,
                            message: "下载失败: 种子已失效或下载器不可用".to_owned(),
                        },
                    ),
                ),
            );
            (state.clone().with_tracker_removed(&infohash), effects)
        },
    }
}

/// The notification of an episode that reached the library, with the metadata of its feed.
pub open spec fn episode_effect(
    state: AppStateView,
    record: EpisodeRecordView,
    episode: u32,
    library_path: Seq<char>,
) -> EffectView {
    let info = match tables::lookup(state.feeds, record.feed_id) {
        Some(feed) => feed.bangumi_info,
        None => None,
    };
    EffectView::Notify(
        NotificationView::EpisodeDownloaded(
            EpisodeDownloadedView {
                anime_name: record.key.anime.name,
                season: record.key.anime.season,
                episode,
                library_path,
                name_cn: match info {
                    Some(b) => Some(b.name_cn),
                    None => None,
                },
                name_original: match info {
                    Some(b) => Some(b.name),
                    None => None,
                },
                summary: match info {
                    Some(b) => Some(b.summary),
                    None => None,
                },
                rating: match info {
                    Some(b) => b.rating,
                    None => None,
                },
                image_url: match info {
                    Some(b) => Some(b.image_url),
                    None => None,
                },
                eps_count: match info {
                    Some(b) => b.eps_count,
                    None => None,
                },
            },
        ),
    )
}

/// The state once an episode has reached the library; unchanged if it is not tracked.
pub open spec fn episode_completed(
    state: AppStateView,
    infohash: Seq<char>,
    episode: u32,
    library_path: Seq<char>,
) -> AppStateView {
    match tables::lookup(state.tracker, infohash) {
        Some(record) => AppStateView {
            tracker: tables::inserted(
                state.tracker,
                infohash,
                EpisodeRecordView {
                    key: EpisodeKeyView { episode, ..record.key },
                    library_path: Some(library_path),
                    status: RecordStatus::InLibrary,
                    ..record
                },
            ),
            ..state
        },
        None => state,
    }
}

proof fn lemma_insert_twice<K, V>(entries: Seq<(K, V)>, key: K, a: V, b: V)
    requires
        tables::unique_keys(entries),
        tables::has_key(entries, key),
    ensures
        tables::inserted(tables::inserted(entries, key, a), key, b) == tables::inserted(
            entries,
            key,
            b,
        ),
{
    let i = choose|i: int| tables::key_at(entries, key, i);
    let once = tables::inserted(entries, key, a);
    tables::lemma_inserted(entries, key, a);
    assert(tables::key_at(once, key, i));
    tables::lemma_lookup_at(once, key, i);
    assert(tables::inserted(once, key, b) =~= tables::inserted(entries, key, b));
}

/// An episode was resolved and its file moved to the library.
pub fn reduce_episode_completed(
    state: &AppState,
    infohash: &str,
    episode: u32,
    library_path: String,
) -> (r: (AppState, Vec<Effect>))
    ensures
        r.0@ == episode_completed(state@, infohash@, episode, library_path@),
        effect::effect_views(r.1@) == (match tables::lookup(state@.tracker, infohash@) {
            Some(record) => seq![episode_effect(state@, record, episode, library_path@)],
            None => seq![],
        }),
{
    let record = match state.tracker.get(infohash) {
        Some(record) => record,
        None => {
            return (state.clone(), no_effects());
        },
    };
    let info: Option<&BangumiInfo> = match state.feeds.get(&record.feed_id) {
        Some(feed) => feed.bangumi_info.as_ref(),
        None => None,
    };
    let data = match info {
        Some(b) => EpisodeDownloadedData {
            anime_name: record.key.anime.name.clone(),
            season: record.key.anime.season,
            episode,
            library_path: library_path.clone(),
            name_cn: Some(b.name_cn.clone()),
            name_original: Some(b.name.clone()),
            summary: Some(b.summary.clone()),
            rating: text::clone_opt(&b.rating),
            image_url: Some(b.image_url.clone()),
            eps_count: b.eps_count,
        },
        None => EpisodeDownloadedData {
            anime_name: record.key.anime.name.clone(),
            season: record.key.anime.season,
            episode,
            library_path: library_path.clone(),
            name_cn: None,
            name_original: None,
            summary: None,
            rating: None,
            image_url: None,
            eps_count: None,
        },
    };
    let effects = one_effect(Effect::Notify(Notification::EpisodeDownloaded(data)));
    state.check_valid();
    proof {
        let resolved = EpisodeRecordView {
            key: EpisodeKeyView { episode, ..record@.key },
            library_path: Some(library_path@),
            status: RecordStatus::Resolved,
            ..record@
        };
        tables::lemma_inserted(state@.tracker, infohash@, resolved);
        lemma_insert_twice(
            state@.tracker,
            infohash@,
            resolved,
            EpisodeRecordView { status: RecordStatus::InLibrary, ..resolved },
        );
    }
    let next = state.clone().with_episode_resolved(
        infohash,
        episode,
        library_path,
    ).with_download_in_library(infohash);
    (next, effects)
}

/// The files could not be moved to the library — mark the record as failed.
pub fn reduce_episode_handle_failed(state: &AppState, infohash: &str) -> (r: (
    AppState,
    Vec<Effect>,
))
    ensures
        r.0@ == (AppStateView {
            tracker: state::with_status(state@.tracker, infohash@, RecordStatus::Failed),
            ..state@
        }),
        r.1@.len() == 0,
{
    (state.clone().with_download_failed(infohash), Vec::new())
}

/// The URLs of the records that have vanished from the downloader.
pub open spec fn vanished_urls(
    tracker: Seq<(Seq<char>, EpisodeRecordView)>,
    known: Seq<Seq<char>>,
) -> Set<Seq<char>> {
    Set::new(
        |url: Seq<char>|
            url.len() > 0 && exists|i: int|
                0 <= i < tracker.len() && tables::is_vanished(#[trigger] tracker[i], known)
                    && tracker[i].1.torrent_url == url,
    )
}

/// The infohashes of snapshots.
pub open spec fn known_hashes(snapshots: Seq<DownloadSnapshotView>) -> Seq<Seq<char>> {
    Seq::new(snapshots.len(), |i: int| snapshots[i].infohash)
}

/// A snapshot with the name and season that the tracker knows of it.
pub open spec fn with_context(
    snapshot: DownloadSnapshotView,
    tracker: Seq<(Seq<char>, EpisodeRecordView)>,
) -> DownloadInfoView {
    let anime = match tables::lookup(tracker, snapshot.infohash) {
        Some(record) => record.key.anime,
        None => AnimeIdentityView { name: seq![], season: 0 },
    };
    DownloadInfoView {
        infohash: snapshot.infohash,
        feed_name: anime.name,
        season: anime.season,
        state: snapshot.state,
        progress: snapshot.progress,
        speed: snapshot.speed,
        size: snapshot.size,
        name: snapshot.name,
    }
}

/// The state once the downloader has been queried. A record that is still downloading but has
/// vanished from the downloader goes, and so does its URL, so that the next RSS poll can submit
/// it again; the download list is that of the snapshots.
pub open spec fn downloads_refreshed(
    state: AppStateView,
    snapshots: Seq<DownloadSnapshotView>,
) -> AppStateView {
    let known = known_hashes(snapshots);
    AppStateView {
        tracker: tables::without_vanished(state.tracker, known),
        seen_urls: state.seen_urls.difference(vanished_urls(state.tracker, known)),
        cached_downloads: Seq::new(
            snapshots.len(),
            |i: int| with_context(snapshots[i], state.tracker),
        ),
        ..state
    }
}

fn list_hashes(snapshots: &Vec<DownloadSnapshot>) -> (r: Vec<String>)
    ensures
        text::views(r@) == known_hashes(event::snapshot_views(snapshots@)),
{
    let mut out: Vec<String> = Vec::new();
    let mut i: usize = 0;
    while i < snapshots.len()
        invariant
            i <= snapshots@.len(),
            out@.len() == i,
            forall|j: int| 0 <= j < i ==> out@[j]@ == snapshots@[j]@.infohash,
        decreases snapshots@.len() - i,
    {
        out.push(snapshots[i].infohash.clone());
        i = i + 1;
    }
    assert(text::views(out@) =~= known_hashes(event::snapshot_views(snapshots@)));
    out
}

fn add_context(state: &AppState, s: &DownloadSnapshot) -> (r: DownloadInfo)
    ensures
        r@ == with_context(s@, state@.tracker),
{
    let (feed_name, season) = match state.tracker.get(&s.infohash) {
        Some(record) => (record.key.anime.name.clone(), record.key.anime.season),
        None => (String::new(), 0),
    };
    DownloadInfo {
        infohash: s.infohash.clone(),
        feed_name,
        season,
        state: s.state,
        progress: s.progress,
        speed: s.speed,
        size: s.size,
        name: s.name.clone(),
    }
}

/// Forgets the URLs of vanished records.
fn forget_vanished(state: &AppState, known: &Vec<String>) -> (r: AppState)
    ensures
        r@ == (AppStateView {
            seen_urls: state@.seen_urls.difference(
                vanished_urls(state@.tracker, text::views(known@)),
            ),
            ..state@
        }),
{
    let ghost tracker = state@.tracker;
    let ghost hashes = text::views(known@);
    let n: usize = state.tracker.len();
    let mut next = state.clone();
    let mut i: usize = 0;
    assert(state@.seen_urls.difference(vanished_urls(tracker.take(0), hashes))
        =~= state@.seen_urls);
    while i < n
        invariant
            i <= n,
            n == tracker.len(),
            tracker == state@.tracker,
            hashes == text::views(known@),
            next@ == (AppStateView {
                seen_urls: state@.seen_urls.difference(
                    vanished_urls(tracker.take(i as int), hashes),
                ),
                ..state@
            }),
        decreases n - i,
    {
        let record = state.tracker.value_at(i);
        let gone = record.status == RecordStatus::Downloading && !tables::is_listed(
            known,
            state.tracker.key_at(i),
        );
        assert(gone == tables::is_vanished(tracker[i as int], hashes));
        let ghost before = next@;
        proof {
            let was = vanished_urls(tracker.take(i as int), hashes);
            let now = vanished_urls(tracker.take(i + 1), hashes);
            let url = record@.torrent_url;
            assert forall|u: Seq<char>| now.contains(u) <==> (was.contains(u) || (gone && u == url
                && u.len() > 0)) by {
                if was.contains(u) {
                    let k = choose|k: int|
                        0 <= k < i && tables::is_vanished(
                            #[trigger] tracker.take(i as int)[k],
                            hashes,
                        ) && tracker.take(i as int)[k].1.torrent_url == u;
                    assert(tables::is_vanished(tracker.take(i + 1)[k], hashes));
                }
                if gone && u == url && u.len() > 0 {
                    assert(tables::is_vanished(tracker.take(i + 1)[i as int], hashes));
                }
                if now.contains(u) {
                    let k = choose|k: int|
                        0 <= k < i + 1 && tables::is_vanished(
                            #[trigger] tracker.take(i + 1)[k],
                            hashes,
                        ) && tracker.take(i + 1)[k].1.torrent_url == u;
                    if k < i {
                        assert(tables::is_vanished(tracker.take(i as int)[k], hashes));
                    }
                }
            }
            if gone && url.len() > 0 {
                assert(state@.seen_urls.difference(was).remove(url)
                    =~= state@.seen_urls.difference(now));
            } else {
                assert(was =~= now);
            }
        }
        if gone && !record.torrent_url.as_str().is_empty() {
            next = next.with_seen_url_removed(&record.torrent_url);
        }
        i = i + 1;
    }
    assert(tracker.take(n as int) =~= tracker);
    next
}

/// Fresh snapshots: reconcile the tracker with the downloader and fill the download list.
pub fn reduce_downloads_refreshed(state: &AppState, snapshots: Vec<DownloadSnapshot>) -> (r: (
    AppState,
    Vec<Effect>,
))
    ensures
        r.0@ == downloads_refreshed(state@, event::snapshot_views(snapshots@)),
        r.1@.len() == 0,
{
    let known = list_hashes(&snapshots);
    let mut next = forget_vanished(state, &known);
    next.tracker.remove_vanished(&known);
    let mut downloads: Vec<DownloadInfo> = Vec::new();
    let mut i: usize = 0;
    while i < snapshots.len()
        invariant
            i <= snapshots@.len(),
            downloads@.len() == i,
            forall|j: int|
                0 <= j < i ==> downloads@[j]@ == with_context(snapshots@[j]@, state@.tracker),
        decreases snapshots@.len() - i,
    {
        downloads.push(add_context(state, &snapshots[i]));
        i = i + 1;
    }
    (next.with_downloads_cached(downloads), Vec::new())
}

// ── API ──

/// What is refused with a bad request.
pub open spec fn bad_request(message: Seq<char>) -> OutcomeView<Seq<char>> {
    OutcomeView::Error { code: http_code::BAD_REQUEST, message }
}

/// A feed that is not known.
pub open spec fn feed_not_found(feed_id: FeedId) -> OutcomeView<Seq<char>> {
    OutcomeView::Error {
        code: http_code::NOT_FOUND,
        message: "feed "@ + feed_id::id_text(feed_id) + " not found"@,
    }
}

/// The confirmation of a feed that exists, given what is wrong with the new filter.
pub open spec fn user_confirm(
    state: AppStateView,
    feed_id: FeedId,
    name: Seq<char>,
    season: u8,
    bangumi_info: Option<BangumiInfoView>,
    filter: Option<FeedFilterView>,
    filter_error: Option<Seq<char>>,
) -> (AppStateView, OutcomeView<Seq<char>>) {
    if filter is Some && filter_error is Some {
        (state, bad_request("invalid filter: "@ + filter_error->Some_0))
    } else if !tables::has_key(state.feeds, feed_id) {
        (state, feed_not_found(feed_id))
    } else {
        (
            AppStateView {
                feeds: state::confirmed(state.feeds, feed_id, name, season, bangumi_info, filter),
                ..state
            },
            OutcomeView::Value("updated"@),
        )
    }
}

/// Confirms a feed, given what is wrong with the new filter.
pub fn user_confirm_with(
    state: &AppState,
    feed_id: FeedId,
    name: String,
    season: u8,
    bangumi_info: Option<BangumiInfo>,
    filter: Option<FeedFilter>,
    filter_error: Option<String>,
) -> (r: (AppState, Vec<Effect>, ApiResult<String>))
    ensures
        (r.0@, event::text_outcome(r.2)) == user_confirm(
            state@,
            feed_id,
            name@,
            season,
            types::info_view(bangumi_info),
            state::filter_view(filter),
            text::opt(filter_error),
        ),
        r.1@.len() == 0,
{
    match (&filter, filter_error) {
        (Some(_), Some(e)) => {
            let refused = ApiResult::Error {
                code: http_code::BAD_REQUEST,
                message: text::join2("invalid filter: ", &e),
            };
            return (state.clone(), Vec::new(), refused);
        },
        _ => {},
    }
    if !state.feeds.contains_key(&feed_id) {
        let unknown = ApiResult::Error {
            code: http_code::NOT_FOUND,
            message: text::join3("feed ", &feed_id.to_text(), " not found"),
        };
        return (state.clone(), Vec::new(), unknown);
    }
    let next = state.clone().with_feed_confirmed(feed_id, name, season, bangumi_info, filter);
    (next, Vec::new(), ApiResult::OK { value: "updated".to_owned() })
}

/// What is wrong with an optional filter.
pub open spec fn optional_filter_error(filter: Option<FeedFilterView>) -> Option<Seq<char>> {
    match filter {
        Some(f) => filter::filter_error(f, filter::regex_error(f)),
        None => None,
    }
}

/// The user confirmed the anime name and season of a feed.
pub fn reduce_user_confirm(
    state: &AppState,
    feed_id: FeedId,
    name: String,
    season: u8,
    bangumi_info: Option<BangumiInfo>,
    filter: Option<FeedFilter>,
) -> (r: (AppState, Vec<Effect>, ApiResult<String>))
    ensures
        (r.0@, event::text_outcome(r.2)) == user_confirm(
            state@,
            feed_id,
            name@,
            season,
            types::info_view(bangumi_info),
            state::filter_view(filter),
            optional_filter_error(state::filter_view(filter)),
        ),
        r.1@.len() == 0,
{
    let error = match &filter {
        Some(f) => match filter::validate(f) {
            Ok(_) => None,
            Err(e) => Some(e),
        },
        None => None,
    };
    user_confirm_with(state, feed_id, name, season, bangumi_info, filter, error)
}

/// The feed that a confirmed subscription creates.
pub open spec fn new_feed(
    id: FeedId,
    url: Seq<char>,
    name: Seq<char>,
    season: u8,
    bangumi_info: Option<BangumiInfoView>,
    filter: FeedFilterView,
) -> FeedView {
    FeedView {
        id,
        url,
        anime: AnimeIdentityView { name, season },
        confirmed: true,
        bangumi_info,
        filter,
    }
}

/// The creation of a feed under a fresh identifier, given what is wrong with its filter.
pub open spec fn confirm_feed(
    state: AppStateView,
    id: FeedId,
    url: Seq<char>,
    name: Seq<char>,
    season: u8,
    bangumi_info: Option<BangumiInfoView>,
    filter: FeedFilterView,
    filter_error: Option<Seq<char>>,
) -> (AppStateView, OutcomeView<Seq<char>>) {
    if text::trimmed(name).len() == 0 {
        (state, bad_request("name cannot be empty"@))
    } else if filter_error is Some {
        (state, bad_request("invalid filter: "@ + filter_error->Some_0))
    } else {
        (
            AppStateView {
                feeds: tables::inserted(
                    state.feeds,
                    id,
                    new_feed(id, url, name, season, bangumi_info, filter),
                ),
                ..state
            },
            OutcomeView::Value(feed_id::id_text(id)),
        )
    }
}

/// Creates a feed under a given identifier, given what is wrong with its filter.
pub fn confirm_feed_with(
    state: &AppState,
    id: FeedId,
    url: String,
    name: String,
    season: u8,
    bangumi_info: Option<BangumiInfo>,
    filter: FeedFilter,
    filter_error: Option<String>,
) -> (r: (AppState, Vec<Effect>, ApiResult<String>))
    ensures
        (r.0@, event::text_outcome(r.2)) == confirm_feed(
            state@,
            id,
            url@,
            name@,
            season,
            types::info_view(bangumi_info),
            filter@,
            text::opt(filter_error),
        ),
        r.1@.len() == 0,
{
    if text::trim(&name).as_str().is_empty() {
        let refused = ApiResult::Error {
            code: http_code::BAD_REQUEST,
            message: "name cannot be empty".to_owned(),
        };
        return (state.clone(), Vec::new(), refused);
    }
    if let Some(e) = filter_error {
        let refused = ApiResult::Error {
            code: http_code::BAD_REQUEST,
            message: text::join2("invalid filter: ", &e),
        };
        return (state.clone(), Vec::new(), refused);
    }
    let feed = Feed {
        id,
        url,
        anime: AnimeIdentity { name, season },
        confirmed: true,
        bangumi_info,
        filter,
    };
    let next = state.clone().with_feed_added(feed);
    (next, Vec::new(), ApiResult::OK { value: id.to_text() })
}

/// API: confirm a feed subscription — create the feed under a random identifier.
pub fn reduce_confirm_feed(
    state: &AppState,
    url: String,
    name: String,
    season: u8,
    bangumi_info: Option<BangumiInfo>,
    filter: FeedFilter,
) -> (r: (AppState, Vec<Effect>, ApiResult<String>))
    ensures
        exists|id: FeedId|
            feed_id::is_v4(id) && (r.0@, event::text_outcome(r.2)) == #[trigger] confirm_feed(
                state@,
                id,
                url@,
                name@,
                season,
                types::info_view(bangumi_info),
                filter@,
                filter::filter_error(filter@, filter::regex_error(filter@)),
            ),
        r.1@.len() == 0,
{
    let error = match filter::validate(&filter) {
        Ok(_) => None,
        Err(e) => Some(e),
    };
    let id = FeedId::generate();
    confirm_feed_with(state, id, url, name, season, bangumi_info, filter, error)
}

/// What the API shows of a feed.
pub open spec fn feed_info(feed: FeedView) -> FeedInfoView {
    FeedInfoView {
        id: feed.id,
        name: feed.anime.name,
        url: feed.url,
        season: feed.anime.season,
        bangumi_info: feed.bangumi_info,
        filter: feed.filter,
    }
}

/// What the API shows of the feeds.
pub open spec fn feed_infos(feeds: Seq<(FeedId, FeedView)>) -> Seq<FeedInfoView> {
    Seq::new(feeds.len(), |i: int| feed_info(feeds[i].1))
}

/// API: list all subscribed feeds.
pub fn reduce_api_list_feeds(state: &AppState) -> (r: (
    AppState,
    Vec<Effect>,
    ApiResult<Vec<FeedInfo>>,
))
    ensures
        r.0@ == state@,
        r.1@.len() == 0,
        event::feeds_outcome(r.2) == OutcomeView::Value(feed_infos(state@.feeds)),
{
    let n: usize = state.feeds.len();
    let mut out: Vec<FeedInfo> = Vec::new();
    let mut i: usize = 0;
    while i < n
        invariant
            i <= n,
            n == state@.feeds.len(),
            out@.len() == i,
            forall|j: int| 0 <= j < i ==> out@[j]@ == feed_info(state@.feeds[j].1),
        decreases n - i,
    {
        let f = state.feeds.value_at(i);
        out.push(
            FeedInfo {
                id: f.id,
                name: f.anime.name.clone(),
                url: f.url.clone(),
                season: f.anime.season,
                bangumi_info: types::clone_info(&f.bangumi_info),
                filter: f.filter.clone(),
            },
        );
        i = i + 1;
    }
    assert(event::feed_info_views(out@) =~= feed_infos(state@.feeds));
    (state.clone(), Vec::new(), ApiResult::OK { value: out })
}

/// The removal of a feed.
pub open spec fn remove_feed(state: AppStateView, feed_id: FeedId) -> (
    AppStateView,
    OutcomeView<Seq<char>>,
) {
    if tables::has_key(state.feeds, feed_id) {
        (
            AppStateView {
                feeds: tables::removed(state.feeds, feed_id),
                tracker: tables::without_feed(state.tracker, feed_id),
                ..state
            },
            OutcomeView::Value("feed "@ + feed_id::id_text(feed_id) + " removed"@),
        )
    } else {
        (state, feed_not_found(feed_id))
    }
}

/// API: remove a feed subscription.
pub fn reduce_api_remove_feed(state: &AppState, feed_id: FeedId) -> (r: (
    AppState,
    Vec<Effect>,
    ApiResult<String>,
))
    ensures
        (r.0@, event::text_outcome(r.2)) == remove_feed(state@, feed_id),
        r.1@.len() == 0,
{
    if !state.feeds.contains_key(&feed_id) {
        let unknown = ApiResult::Error {
            code: http_code::NOT_FOUND,
            message: text::join3("feed ", &feed_id.to_text(), " not found"),
        };
        return (state.clone(), Vec::new(), unknown);
    }
    let done = ApiResult::OK { value: text::join3("feed ", &feed_id.to_text(), " removed") };
    (state.clone().with_feed_removed(feed_id), Vec::new(), done)
}

/// API: the download list as it was last cached.
pub fn reduce_api_list_downloads(state: &AppState) -> (r: (
    AppState,
    Vec<Effect>,
    ApiResult<Vec<DownloadInfo>>,
))
    ensures
        r.0@ == state@,
        r.1@.len() == 0,
        event::downloads_outcome(r.2) == OutcomeView::Value(state@.cached_downloads),
{
    let value = state::clone_downloads(&state.cached_downloads);
    (state.clone(), Vec::new(), ApiResult::OK { value })
}

/// Trigger a downloader refresh.
pub fn reduce_refresh_downloads(state: &AppState) -> (r: (AppState, Vec<Effect>))
    ensures
        r.0@ == state@,
        effect::effect_views(r.1@) == seq![EffectView::QueryAllDownloads],
{
    (state.clone(), one_effect(Effect::QueryAllDownloads))
}

/// Health check — forwarded to the executor, which probes the downloader.
pub fn reduce_check_downloader(state: &AppState) -> (r: (AppState, Vec<Effect>))
    ensures
        r.0@ == state@,
        effect::effect_views(r.1@) == seq![EffectView::CheckDownloader],
{
    (state.clone(), one_effect(Effect::CheckDownloader))
}

/// The two test notifications.
pub open spec fn test_effects() -> Seq<EffectView> {
    seq![
        EffectView::Notify(
            NotificationView::EpisodeDownloaded(
                EpisodeDownloadedView {
                    anime_name: "测试通知"@,
                    season: 1,
                    episode: 1,
                    library_path: "/anime/测试通知/S01/E01.mp4"@,
                    name_cn: None,
                    name_original: None,
                    summary: Some("这是一条测试消息，用于验证通知配置"@),
                    rating: None,
                    image_url: None,
                    eps_count: None,
                },
            ),
        ),
        EffectView::Notify(
            NotificationView::Failed(
                FailedView {
                    title: "测试通知"@,
                    message: "这是一条模拟错误，用于验证错误通知配置"@,
                },
            ),
        ),
    ]
}

/// API: send one test notification of each kind.
pub fn reduce_notify_test(state: &AppState) -> (r: (AppState, Vec<Effect>))
    ensures
        r.0@ == state@,
        effect::effect_views(r.1@) == test_effects(),
{
    let mut out: Vec<Effect> = Vec::new();
    out.push(
        Effect::Notify(
            Notification::EpisodeDownloaded(
                EpisodeDownloadedData {
                    anime_name: "测试通知".to_owned(),
                    season: 1,
                    episode: 1,
                    library_path: "/anime/测试通知/S01/E01.mp4".to_owned(),
                    name_cn: None,
                    name_original: None,
                    summary: Some("这是一条测试消息，用于验证通知配置".to_owned()),
                    rating: None,
                    image_url: None,
                    eps_count: None,
                },
            ),
        ),
    );
    out.push(
        Effect::Notify(
            Notification::Failed(
                FailedData {
                    title: "测试通知".to_owned(),
                    message: "这是一条模拟错误，用于验证错误通知配置".to_owned(),
                },
            ),
        ),
    );
    assert(effect::effect_views(out@) =~= test_effects());
    (state.clone(), out)
}

/// The record under an infohash, or the news that there is none.
pub open spec fn find_episode(state: AppStateView, infohash: Seq<char>) -> OutcomeView<
    EpisodeRecordView,
> {
    match tables::lookup(state.tracker, infohash) {
        Some(record) => OutcomeView::Value(record),
        None => OutcomeView::Error { code: http_code::NOT_FOUND, message: "not found"@ },
    }
}

/// API: query a single episode record.
pub fn reduce_api_get_episode(state: &AppState, infohash: String) -> (r: (
    AppState,
    Vec<Effect>,
    ApiResult<EpisodeRecord>,
))
    ensures
        r.0@ == state@,
        r.1@.len() == 0,
        event::episode_outcome(r.2) == find_episode(state@, infohash@),
{
    let reply = match state.tracker.get(&infohash) {
        Some(record) => ApiResult::OK { value: record.clone() },
        None => ApiResult::Error { code: http_code::NOT_FOUND, message: "not found".to_owned() },
    };
    (state.clone(), Vec::new(), reply)
}

// ── Dispatch ──

/// The events that the reducer takes in a state: a failure of a torrent that is not tracked must
/// carry an infohash that can be shown shortened.
pub open spec fn acceptable(state: AppStateView, event: EventView) -> bool {
    match event {
        EventView::DownloaderNotification { infohash, status } => status == DownloadStatus::Failed
            && !tables::has_key(state.tracker, infohash) ==> can_shorten(infohash),
        _ => true,
    }
}

/// Whether the reducer takes an event in a state.
pub fn is_acceptable(state: &AppState, event: &Event) -> (r: bool)
    ensures
        r == acceptable(state@, event@),
{
    match event {
        Event::DownloaderNotification { infohash, status } => match status {
            DownloadStatus::Failed => state.tracker.contains_key(infohash) || is_shortenable(
                infohash,
            ),
            DownloadStatus::Completed => true,
        },
        _ => true,
    }
}

/// What the reducer makes of an event; `id` is the identifier that a new feed gets.
pub open spec fn step(state: AppStateView, event: EventView, id: FeedId) -> StepView {
    match event {
        EventView::RssTickAll => keeps(state, tick_effects(state.feeds, state.download_dir), None),
        EventView::RssItemsFetched { feed_id, items, download_dir } => keeps(
            state,
            add_effects(
                items,
                passing(feed_filter(state.feeds, feed_id), items),
                state.seen_urls,
                feed_id,
                download_dir,
            ),
            None,
        ),
        EventView::PollDownloader => keeps(
            state,
            seq![
                EffectView::PollCompleted,
                EffectView::PollFailed,
                EffectView::QueryAllDownloads,
            ],
            None,
        ),
        EventView::DownloadStarted { infohash, feed_id, torrent_url } => StepView {
            state: download_started(state, infohash, feed_id, torrent_url),
            effects: seq![],
            reply: None,
        },
        EventView::DownloaderNotification { infohash, status } => match status {
            DownloadStatus::Completed => keeps(state, completed_effects(state, infohash), None),
            DownloadStatus::Failed => StepView {
                state: AppStateView {
                    tracker: tables::removed(state.tracker, infohash),
                    ..state
                },
                effects: seq![failed_effect(state, infohash)],
                reply: None,
            },
        },
        EventView::EpisodeMovedToLibrary { infohash, episode, library_path } => StepView {
            state: episode_completed(state, infohash, episode, library_path),
            effects: match tables::lookup(state.tracker, infohash) {
                Some(record) => seq![episode_effect(state, record, episode, library_path)],
                None => seq![],
            },
            reply: None,
        },
        EventView::EpisodeHandleFailed { infohash } => StepView {
            state: AppStateView {
                tracker: state::with_status(state.tracker, infohash, RecordStatus::Failed),
                ..state
            },
            effects: seq![],
            reply: None,
        },
        EventView::UserConfirm { feed_id, name, season, bangumi_info, filter } => {
            let (next, outcome) = user_confirm(
                state,
                feed_id,
                name,
                season,
                bangumi_info,
                filter,
                optional_filter_error(filter),
            );
            StepView { state: next, effects: seq![], reply: Some(ReplyView::Text(outcome)) }
        },
        EventView::ConfirmFeed { url, name, season, bangumi_info, filter } => {
            let (next, outcome) = confirm_feed(
                state,
                id,
                url,
                name,
                season,
                bangumi_info,
                filter,
                filter::filter_error(filter, filter::regex_error(filter)),
            );
            StepView { state: next, effects: seq![], reply: Some(ReplyView::Text(outcome)) }
        },
        EventView::ApiListFeeds => keeps(
            state,
            seq![],
            Some(ReplyView::Feeds(OutcomeView::Value(feed_infos(state.feeds)))),
        ),
        EventView::ApiRemoveFeed { feed_id } => {
            let (next, outcome) = remove_feed(state, feed_id);
            StepView { state: next, effects: seq![], reply: Some(ReplyView::Text(outcome)) }
        },
        EventView::ApiListDownloads => keeps(
            state,
            seq![],
            Some(ReplyView::Downloads(OutcomeView::Value(state.cached_downloads))),
        ),
        EventView::RefreshDownloads => keeps(state, seq![EffectView::QueryAllDownloads], None),
        EventView::DownloadsRefreshed { snapshots } => StepView {
            state: downloads_refreshed(state, snapshots),
            effects: seq![],
            reply: None,
        },
        EventView::RssFetchFailed { feed_id, error } => keeps(
            state,
            seq![fetch_failed_effect(state, feed_id, error)],
            None,
        ),
        EventView::NotifyTest => keeps(state, test_effects(), None),
        EventView::ApiGetEpisode { infohash } => keeps(
            state,
            seq![],
            Some(ReplyView::Episode(find_episode(state, infohash))),
        ),
        EventView::CheckDownloader => keeps(state, seq![EffectView::CheckDownloader], None),
    }
}

/// Dispatches an event against the current state, giving the next state, the effects to execute
/// and the reply to an API query.
pub fn reduce(state: &AppState, event: Event) -> (r: Step)
    requires
        acceptable(state@, event@),
    ensures
        exists|id: FeedId|
            feed_id::is_v4(id) && r@ == #[trigger] step(state@, event@, id),
{
    let ghost given = event@;
    let ghost mut any = FeedId { bits: 0x0000_0000_0000_4000_8000_0000_0000_0000 };
    proof {
        let bits = any.bits;
        assert((bits >> 76) & 0xf == 4 && (bits >> 62) & 0x3 == 2) by (bit_vector)
            requires
                bits == 0x0000_0000_0000_4000_8000_0000_0000_0000u128,
        ;
    }
    let r = match event {
        Event::RssTickAll => Step {
            state: state.clone(),
            effects: reduce_rss_tick_all(state),
            reply: None,
        },
        Event::RssItemsFetched { feed_id, items, download_dir } => {
            let (next, effects) = reduce_rss_items_fetched(state, feed_id, items, &download_dir);
            Step { state: next, effects, reply: None }
        },
        Event::PollDownloader => Step {
            state: state.clone(),
            effects: reduce_poll_downloader(),
            reply: None,
        },
        Event::DownloadStarted { infohash, feed_id, torrent_url } => {
            let (next, effects) = reduce_download_started(state, infohash, feed_id, torrent_url);
            Step { state: next, effects, reply: None }
        },
        Event::DownloaderNotification { infohash, status } => {
            let (next, effects) = reduce_downloader_notification(state, infohash, status);
            Step { state: next, effects, reply: None }
        },
        Event::EpisodeMovedToLibrary { infohash, episode, library_path } => {
            let (next, effects) = reduce_episode_completed(
                state,
                &infohash,
                episode,
                library_path,
            );
            Step { state: next, effects, reply: None }
        },
        Event::EpisodeHandleFailed { infohash } => {
            let (next, effects) = reduce_episode_handle_failed(state, &infohash);
            Step { state: next, effects, reply: None }
        },
        Event::UserConfirm { feed_id, name, season, bangumi_info, filter } => {
            let (next, effects, reply) = reduce_user_confirm(
                state,
                feed_id,
                name,
                season,
                bangumi_info,
                filter,
            );
            Step { state: next, effects, reply: Some(Reply::Text(reply)) }
        },
        Event::ConfirmFeed { url, name, season, bangumi_info, filter } => {
            let ghost (u, n, b, f) = (url@, name@, types::info_view(bangumi_info), filter@);
            let (next, effects, reply) = reduce_confirm_feed(
                state,
                url,
                name,
                season,
                bangumi_info,
                filter,
            );
            proof {
                any = choose|id: FeedId|
                    feed_id::is_v4(id) && (next@, event::text_outcome(reply)) == #[trigger] confirm_feed(
                        state@,
                        id,
                        u,
                        n,
                        season,
                        b,
                        f,
                        filter::filter_error(f, filter::regex_error(f)),
                    );
            }
            Step { state: next, effects, reply: Some(Reply::Text(reply)) }
        },
        Event::ApiListFeeds => {
            let (next, effects, reply) = reduce_api_list_feeds(state);
            Step { state: next, effects, reply: Some(Reply::Feeds(reply)) }
        },
        Event::ApiRemoveFeed { feed_id } => {
            let (next, effects, reply) = reduce_api_remove_feed(state, feed_id);
            Step { state: next, effects, reply: Some(Reply::Text(reply)) }
        },
        Event::ApiListDownloads => {
            let (next, effects, reply) = reduce_api_list_downloads(state);
            Step { state: next, effects, reply: Some(Reply::Downloads(reply)) }
        },
        Event::RefreshDownloads => {
            let (next, effects) = reduce_refresh_downloads(state);
            Step { state: next, effects, reply: None }
        },
        Event::DownloadsRefreshed { snapshots } => {
            let (next, effects) = reduce_downloads_refreshed(state, snapshots);
            Step { state: next, effects, reply: None }
        },
        Event::RssFetchFailed { feed_id, error } => {
            let (next, effects) = reduce_rss_fetch_failed(state, feed_id, error);
            Step { state: next, effects, reply: None }
        },
        Event::NotifyTest => {
            let (next, effects) = reduce_notify_test(state);
            Step { state: next, effects, reply: None }
        },
        Event::ApiGetEpisode { infohash } => {
            let (next, effects, reply) = reduce_api_get_episode(state, infohash);
            Step { state: next, effects, reply: Some(Reply::Episode(reply)) }
        },
        Event::CheckDownloader => {
            let (next, effects) = reduce_check_downloader(state);
            Step { state: next, effects, reply: None }
        },
    };
    assert(r@ == step(state@, given, any));
    r
}

} // verus!
