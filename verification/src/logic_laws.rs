//! What holds of the reducer over one or more steps.
use vstd::prelude::*;

use crate::effect::EffectView;
use crate::event::{DownloadStatus, EventView, OutcomeView, ReplyView};
use crate::feed_id::{self, FeedId};
use crate::filter;
use crate::handle;
use crate::logic;
use crate::response::ResponseView;
use crate::state::{self, AppStateView};
use crate::tables::{self, FeedView};
use crate::text;
use crate::types::{
    AnimeIdentityView, BangumiInfoView, DownloadSnapshotView, EpisodeDownloadedView,
    EpisodeRecordView, FailedView, FeedFilterView, FeedInfoView, NotificationView, RecordStatus,
    RssItemView,
};

verus! {

/// Every event leads from a valid state to a valid state.
pub proof fn law_steps_keep_states_valid(state: AppStateView, event: EventView, id: FeedId)
    requires
        state.valid(),
    ensures
        logic::step(state, event, id).state.valid(),
{
    match event {
        EventView::DownloadStarted { infohash, feed_id, torrent_url } => {
            if let Some(feed) = tables::lookup(state.feeds, feed_id) {
                tables::lemma_inserted(
                    state.tracker,
                    infohash,
                    logic::started_record(infohash, feed_id, torrent_url, feed.anime),
                );
            }
        },
        EventView::DownloaderNotification { infohash, status } => {
            tables::lemma_removed(state.tracker, infohash);
        },
        EventView::EpisodeMovedToLibrary { infohash, episode, library_path } => {
            lemma_put_valid(
                state.tracker,
                logic::episode_completed(state, infohash, episode, library_path).tracker,
                infohash,
            );
        },
        EventView::EpisodeHandleFailed { infohash } => {
            lemma_put_valid(
                state.tracker,
                state::with_status(state.tracker, infohash, RecordStatus::Failed),
                infohash,
            );
        },
        EventView::UserConfirm { feed_id, name, season, bangumi_info, filter } => {
            lemma_put_valid(
                state.feeds,
                state::confirmed(state.feeds, feed_id, name, season, bangumi_info, filter),
                feed_id,
            );
        },
        EventView::ConfirmFeed { url, name, season, bangumi_info, filter } => {
            tables::lemma_inserted(
                state.feeds,
                id,
                logic::new_feed(id, url, name, season, bangumi_info, filter),
            );
        },
        EventView::ApiRemoveFeed { feed_id } => {
            tables::lemma_removed(state.feeds, feed_id);
            tables::lemma_filtered(
                state.tracker,
                |e: (Seq<char>, EpisodeRecordView)| e.1.feed_id != feed_id,
            );
        },
        EventView::DownloadsRefreshed { snapshots } => {
            tables::lemma_filtered(
                state.tracker,
                |e: (Seq<char>, EpisodeRecordView)|
                    !tables::is_vanished(e, logic::known_hashes(snapshots)),
            );
        },
        _ => {},
    }
}

proof fn lemma_put_valid<K, V>(before: Seq<(K, V)>, after: Seq<(K, V)>, key: K)
    requires
        tables::unique_keys(before),
        after == before || exists|v: V| after == #[trigger] tables::inserted(before, key, v),
    ensures
        tables::unique_keys(after),
{
    if after != before {
        let v = choose|v: V| after == #[trigger] tables::inserted(before, key, v);
        tables::lemma_inserted(before, key, v);
    }
}

/// An event that neither reports on a download nor changes a subscription.
pub open spec fn only_reads(event: EventView) -> bool {
    match event {
        EventView::DownloadStarted { .. } => false,
        EventView::DownloaderNotification { status, .. } => status == DownloadStatus::Completed,
        EventView::EpisodeMovedToLibrary { .. } => false,
        EventView::EpisodeHandleFailed { .. } => false,
        EventView::UserConfirm { .. } => false,
        EventView::ConfirmFeed { .. } => false,
        EventView::ApiRemoveFeed { .. } => false,
        EventView::DownloadsRefreshed { .. } => false,
        _ => true,
    }
}

/// Ticks, polls, lists, queries, fetched items, failed fetches and test notifications leave the
/// state as it is.
pub proof fn law_reading_changes_nothing(state: AppStateView, event: EventView, id: FeedId)
    requires
        only_reads(event),
    ensures
        logic::step(state, event, id).state == state,
{
}

/// An event that asks for a reply.
pub open spec fn asks(event: EventView) -> bool {
    match event {
        EventView::UserConfirm { .. } => true,
        EventView::ConfirmFeed { .. } => true,
        EventView::ApiListFeeds => true,
        EventView::ApiRemoveFeed { .. } => true,
        EventView::ApiListDownloads => true,
        EventView::ApiGetEpisode { .. } => true,
        _ => false,
    }
}

/// Every query, and nothing else, is answered at once.
pub proof fn law_queries_are_answered(state: AppStateView, event: EventView, id: FeedId)
    ensures
        logic::step(state, event, id).reply is Some <==> asks(event),
{
}

/// A refused request — one that is answered with an error — changes nothing.
pub proof fn law_refused_requests_change_nothing(state: AppStateView, event: EventView, id: FeedId)
    requires
        logic::step(state, event, id).reply matches Some(ReplyView::Text(outcome))
            && outcome is Error,
    ensures
        logic::step(state, event, id).state == state,
        logic::step(state, event, id).effects.len() == 0,
{
}

/// A tick fetches a feed exactly when it is confirmed, from its URL and into the download
/// directory.
pub proof fn law_tick_fetches_confirmed_feeds(
    feeds: Seq<(FeedId, FeedView)>,
    dir: Seq<char>,
    e: EffectView,
)
    ensures
        logic::tick_effects(feeds, dir).contains(e) <==> exists|i: int|
            0 <= i < feeds.len() && (#[trigger] feeds[i]).1.confirmed && e
                == (EffectView::FetchRss {
                url: feeds[i].1.url,
                feed_id: feeds[i].0,
                download_dir: dir,
            }),
    decreases feeds.len(),
{
    let all = logic::tick_effects(feeds, dir);
    if feeds.len() > 0 {
        let init = feeds.drop_last();
        let before = logic::tick_effects(init, dir);
        law_tick_fetches_confirmed_feeds(init, dir, e);
        if before.contains(e) {
            let k = before.index_of(e);
            assert(all[k] == e);
            let i = choose|i: int|
                0 <= i < init.len() && (#[trigger] init[i]).1.confirmed && e
                    == (EffectView::FetchRss {
                    url: init[i].1.url,
                    feed_id: init[i].0,
                    download_dir: dir,
                });
            assert(feeds[i] == init[i]);
        }
        if all.contains(e) && !before.contains(e) {
            let k = all.index_of(e);
            if k < before.len() {
                assert(before[k] == e);
            }
            assert(feeds[feeds.len() - 1] == feeds.last());
        }
        if exists|i: int|
            0 <= i < feeds.len() && (#[trigger] feeds[i]).1.confirmed && e
                == (EffectView::FetchRss {
                url: feeds[i].1.url,
                feed_id: feeds[i].0,
                download_dir: dir,
            }) {
            let i = choose|i: int|
                0 <= i < feeds.len() && (#[trigger] feeds[i]).1.confirmed && e
                    == (EffectView::FetchRss {
                    url: feeds[i].1.url,
                    feed_id: feeds[i].0,
                    download_dir: dir,
                });
            if i < init.len() {
                assert(init[i] == feeds[i]);
                let k = before.index_of(e);
                assert(all[k] == e);
            } else {
                assert(all[before.len() as int] == e);
            }
        }
    }
}

/// Once a subscription is confirmed, the next tick fetches it.
pub proof fn law_confirmed_feed_is_fetched(
    state: AppStateView,
    id: FeedId,
    url: Seq<char>,
    name: Seq<char>,
    season: u8,
    bangumi_info: Option<BangumiInfoView>,
    filter: FeedFilterView,
)
    requires
        state.valid(),
        logic::step(
            state,
            EventView::ConfirmFeed { url, name, season, bangumi_info, filter },
            id,
        ).reply == Some(ReplyView::Text(OutcomeView::Value(feed_id::id_text(id)))),
    ensures
        ({
            let next = logic::step(
                state,
                EventView::ConfirmFeed { url, name, season, bangumi_info, filter },
                id,
            ).state;
            logic::step(next, EventView::RssTickAll, id).effects.contains(
                EffectView::FetchRss { url, feed_id: id, download_dir: state.download_dir },
            )
        }),
{
    let feed = logic::new_feed(id, url, name, season, bangumi_info, filter);
    let after = tables::inserted(state.feeds, id, feed);
    let e = EffectView::FetchRss { url, feed_id: id, download_dir: state.download_dir };
    let at = if tables::has_key(state.feeds, id) {
        choose|i: int| tables::key_at(state.feeds, id, i)
    } else {
        state.feeds.len() as int
    };
    assert(after[at].1 == feed && after[at].0 == id);
    law_tick_fetches_confirmed_feeds(after, state.download_dir, e);
}

/// What is submitted of fetched items: only items with a URL that was not submitted before, that
/// are no batch and pass the filter, each into the staging directory of the feed.
pub proof fn law_only_wanted_items_are_submitted(
    items: Seq<RssItemView>,
    passes: Seq<bool>,
    seen: Set<Seq<char>>,
    feed_id: FeedId,
    dir: Seq<char>,
    e: EffectView,
)
    requires
        passes.len() == items.len(),
    ensures
        logic::add_effects(items, passes, seen, feed_id, dir).contains(e) <==> exists|i: int|
            0 <= i < items.len() && logic::wanted(#[trigger] items[i], passes[i], seen) && e
                == (EffectView::AddTorrent {
                torrent_url: items[i].torrent_url,
                save_path: logic::save_path(dir, feed_id),
                feed_id,
            }),
{
    lemma_submitted(items, passes, seen, feed_id, dir, e, items.len() as int);
    assert(items.take(items.len() as int) =~= items);
}

proof fn lemma_submitted(
    items: Seq<RssItemView>,
    passes: Seq<bool>,
    seen: Set<Seq<char>>,
    feed_id: FeedId,
    dir: Seq<char>,
    e: EffectView,
    n: int,
)
    requires
        passes.len() == items.len(),
        0 <= n <= items.len(),
    ensures
        logic::add_effects(items.take(n), passes, seen, feed_id, dir).contains(e) <==> exists|
            i: int,
        |
            0 <= i < n && logic::wanted(#[trigger] items[i], passes[i], seen) && e
                == (EffectView::AddTorrent {
                torrent_url: items[i].torrent_url,
                save_path: logic::save_path(dir, feed_id),
                feed_id,
            }),
    decreases n,
{
    let all = logic::add_effects(items.take(n), passes, seen, feed_id, dir);
    if n > 0 {
        lemma_submitted(items, passes, seen, feed_id, dir, e, n - 1);
        assert(items.take(n).take(n - 1) =~= items.take(n - 1));
        let before = logic::add_effects(items.take(n - 1), passes, seen, feed_id, dir);
        if before.contains(e) {
            let k = before.index_of(e);
            assert(all[k] == e);
        }
        if all.contains(e) && !before.contains(e) {
            let k = all.index_of(e);
            if k < before.len() {
                assert(before[k] == e);
            }
            assert(logic::wanted(items[n - 1], passes[n - 1], seen));
        }
        if logic::wanted(items[n - 1], passes[n - 1], seen) {
            assert(all[before.len() as int] == (EffectView::AddTorrent {
                torrent_url: items[n - 1].torrent_url,
                save_path: logic::save_path(dir, feed_id),
                feed_id,
            }));
        }
    }
}

/// Once a download has started, its URL is not submitted again, whatever feed it comes from.
pub proof fn law_started_url_is_not_submitted_again(
    state: AppStateView,
    infohash: Seq<char>,
    feed_id: FeedId,
    url: Seq<char>,
    other: FeedId,
    items: Seq<RssItemView>,
    dir: Seq<char>,
    id: FeedId,
)
    requires
        url.len() > 0,
        tables::has_key(state.feeds, feed_id),
        !tables::has_key(state.tracker, infohash),
    ensures
        ({
            let next = logic::step(
                state,
                EventView::DownloadStarted { infohash, feed_id, torrent_url: url },
                id,
            ).state;
            let effects = logic::step(
                next,
                EventView::RssItemsFetched { feed_id: other, items, download_dir: dir },
                id,
            ).effects;
            forall|i: int|
                0 <= i < effects.len() ==> match #[trigger] effects[i] {
                    EffectView::AddTorrent { torrent_url, .. } => torrent_url != url,
                    _ => false,
                }
        }),
{
    let next = logic::step(
        state,
        EventView::DownloadStarted { infohash, feed_id, torrent_url: url },
        id,
    ).state;
    let passes = logic::passing(logic::feed_filter(next.feeds, other), items);
    let effects = logic::add_effects(items, passes, next.seen_urls, other, dir);
    assert forall|i: int| 0 <= i < effects.len() implies match #[trigger] effects[i] {
        EffectView::AddTorrent { torrent_url, .. } => torrent_url != url,
        _ => false,
    } by {
        assert(effects.contains(effects[i]));
        law_only_wanted_items_are_submitted(items, passes, next.seen_urls, other, dir, effects[i]);
    }
}

/// Reporting the start of a download twice is the same as reporting it once.
pub proof fn law_download_started_is_idempotent(
    state: AppStateView,
    infohash: Seq<char>,
    feed_id: FeedId,
    url: Seq<char>,
)
    requires
        state.valid(),
    ensures
        logic::download_started(
            logic::download_started(state, infohash, feed_id, url),
            infohash,
            feed_id,
            url,
        ) == logic::download_started(state, infohash, feed_id, url),
{
    if !tables::has_key(state.tracker, infohash) {
        if let Some(feed) = tables::lookup(state.feeds, feed_id) {
            tables::lemma_inserted(
                state.tracker,
                infohash,
                logic::started_record(infohash, feed_id, url, feed.anime),
            );
        }
    }
}

/// Once an episode is in the library, further reports of its completion do nothing.
pub proof fn law_episode_is_handled_once(
    state: AppStateView,
    infohash: Seq<char>,
    episode: u32,
    library_path: Seq<char>,
    id: FeedId,
)
    requires
        state.valid(),
        tables::has_key(state.tracker, infohash),
    ensures
        ({
            let next = logic::step(
                state,
                EventView::EpisodeMovedToLibrary { infohash, episode, library_path },
                id,
            ).state;
            let again = logic::step(
                next,
                EventView::DownloaderNotification { infohash, status: DownloadStatus::Completed },
                id,
            );
            again.state == next && again.effects.len() == 0
        }),
{
    let record = tables::lookup(state.tracker, infohash)->Some_0;
    tables::lemma_inserted(
        state.tracker,
        infohash,
        EpisodeRecordView {
            key: crate::types::EpisodeKeyView { episode, ..record.key },
            library_path: Some(library_path),
            status: RecordStatus::InLibrary,
            ..record
        },
    );
}

/// Once the handling of a download has failed, further reports of its completion do nothing.
pub proof fn law_failed_handling_is_not_retried(
    state: AppStateView,
    infohash: Seq<char>,
    id: FeedId,
)
    requires
        state.valid(),
        tables::has_key(state.tracker, infohash),
    ensures
        ({
            let next = logic::step(state, EventView::EpisodeHandleFailed { infohash }, id).state;
            let again = logic::step(
                next,
                EventView::DownloaderNotification { infohash, status: DownloadStatus::Completed },
                id,
            );
            again.state == next && again.effects.len() == 0
        }),
{
    let record = tables::lookup(state.tracker, infohash)->Some_0;
    tables::lemma_inserted(
        state.tracker,
        infohash,
        EpisodeRecordView { status: RecordStatus::Failed, ..record },
    );
}

/// A download that vanished from the downloader can be submitted again: neither its record nor
/// its URL is remembered.
pub proof fn law_vanished_download_is_forgotten(
    state: AppStateView,
    snapshots: Seq<DownloadSnapshotView>,
    infohash: Seq<char>,
    id: FeedId,
)
    requires
        state.valid(),
        tables::lookup(state.tracker, infohash) matches Some(record) && record.status
            == RecordStatus::Downloading,
        forall|i: int| 0 <= i < snapshots.len() ==> (#[trigger] snapshots[i]).infohash != infohash,
    ensures
        ({
            let next = logic::step(state, EventView::DownloadsRefreshed { snapshots }, id).state;
            let url = tables::lookup(state.tracker, infohash)->Some_0.torrent_url;
            &&& !tables::has_key(next.tracker, infohash)
            &&& url.len() > 0 ==> !next.seen_urls.contains(url)
        }),
{
    let known = logic::known_hashes(snapshots);
    assert(!known.contains(infohash));
    tables::lemma_filtered(
        state.tracker,
        |e: (Seq<char>, EpisodeRecordView)| !tables::is_vanished(e, known),
    );
    let record = tables::lookup(state.tracker, infohash)->Some_0;
    let next = logic::downloads_refreshed(state, snapshots);
    assert(tables::lookup(next.tracker, infohash) is None);
    let i = choose|i: int| tables::key_at(state.tracker, infohash, i);
    assert(tables::is_vanished(state.tracker[i], known));
}

/// A refresh keeps every record that is not downloading, and every one that the downloader
/// reports.
pub proof fn law_refresh_keeps_other_records(
    state: AppStateView,
    snapshots: Seq<DownloadSnapshotView>,
    infohash: Seq<char>,
    id: FeedId,
)
    requires
        state.valid(),
        tables::lookup(state.tracker, infohash) matches Some(record) && (record.status
            != RecordStatus::Downloading || exists|i: int|
            0 <= i < snapshots.len() && (#[trigger] snapshots[i]).infohash == infohash),
    ensures
        tables::lookup(
            logic::step(state, EventView::DownloadsRefreshed { snapshots }, id).state.tracker,
            infohash,
        ) == tables::lookup(state.tracker, infohash),
{
    let known = logic::known_hashes(snapshots);
    tables::lemma_filtered(
        state.tracker,
        |e: (Seq<char>, EpisodeRecordView)| !tables::is_vanished(e, known),
    );
    let record = tables::lookup(state.tracker, infohash)->Some_0;
    if record.status == RecordStatus::Downloading {
        let i = choose|i: int|
            0 <= i < snapshots.len() && (#[trigger] snapshots[i]).infohash == infohash;
        assert(known[i] == infohash);
    }
}

/// A removed feed is gone with all its records; every other feed and record stays.
pub proof fn law_removed_feed_leaves_no_records(
    state: AppStateView,
    feed_id: FeedId,
    id: FeedId,
    other: FeedId,
    infohash: Seq<char>,
)
    requires
        state.valid(),
        tables::has_key(state.feeds, feed_id),
    ensures
        ({
            let next = logic::step(state, EventView::ApiRemoveFeed { feed_id }, id).state;
            &&& !tables::has_key(next.feeds, feed_id)
            &&& other != feed_id ==> tables::lookup(next.feeds, other) == tables::lookup(
                state.feeds,
                other,
            )
            &&& tables::lookup(next.tracker, infohash) == (match tables::lookup(
                state.tracker,
                infohash,
            ) {
                Some(record) => if record.feed_id == feed_id {
                    None
                } else {
                    Some(record)
                },
                None => None,
            })
        }),
{
    tables::lemma_removed(state.feeds, feed_id);
    tables::lemma_filtered(
        state.tracker,
        |e: (Seq<char>, EpisodeRecordView)| e.1.feed_id != feed_id,
    );
    let next = logic::step(state, EventView::ApiRemoveFeed { feed_id }, id).state;
    assert(tables::lookup(next.feeds, feed_id) is None);
}

/// An update without a filter keeps the filter that the feed has; one with a filter sets it.
pub proof fn law_update_keeps_filter(
    state: AppStateView,
    feed_id: FeedId,
    name: Seq<char>,
    season: u8,
    bangumi_info: Option<BangumiInfoView>,
    filter: Option<FeedFilterView>,
    id: FeedId,
)
    requires
        state.valid(),
        tables::has_key(state.feeds, feed_id),
        logic::optional_filter_error(filter) is None,
    ensures
        ({
            let next = logic::step(
                state,
                EventView::UserConfirm { feed_id, name, season, bangumi_info, filter },
                id,
            ).state;
            let before = tables::lookup(state.feeds, feed_id)->Some_0;
            tables::lookup(next.feeds, feed_id) matches Some(after) && after.filter == (
            match filter {
                Some(f) => f,
                None => before.filter,
            }) && after.url == before.url && after.anime.name == name && after.anime.season
                == season && after.confirmed
        }),
{
    let feed = tables::lookup(state.feeds, feed_id)->Some_0;
    let after = FeedView {
        anime: crate::types::AnimeIdentityView { name, season },
        confirmed: true,
        bangumi_info,
        filter: match filter {
            Some(f) => f,
            None => feed.filter,
        },
        ..feed
    };
    tables::lemma_inserted(state.feeds, feed_id, after);
}

/// A test of the notifications sends a normal one and a failure, and leaves the state as it is.
pub proof fn law_notification_test_sends_both(state: AppStateView, id: FeedId)
    ensures
        logic::step(state, EventView::NotifyTest, id).state == state,
        logic::step(state, EventView::NotifyTest, id).effects.len() == 2,
        logic::step(state, EventView::NotifyTest, id).effects[0] matches EffectView::Notify(n)
            && n is EpisodeDownloaded,
        logic::step(state, EventView::NotifyTest, id).effects[1] matches EffectView::Notify(n)
            && n is Failed,
{
}

// ── What is written is read back ──

/// A subscription that was confirmed is listed as it was given.
pub proof fn law_confirmed_feed_is_listed(
    state: AppStateView,
    id: FeedId,
    url: Seq<char>,
    name: Seq<char>,
    season: u8,
    bangumi_info: Option<BangumiInfoView>,
    filter: FeedFilterView,
)
    requires
        logic::step(
            state,
            EventView::ConfirmFeed { url, name, season, bangumi_info, filter },
            id,
        ).reply == Some(ReplyView::Text(OutcomeView::Value(feed_id::id_text(id)))),
    ensures
        ({
            let next = logic::step(
                state,
                EventView::ConfirmFeed { url, name, season, bangumi_info, filter },
                id,
            ).state;
            logic::step(next, EventView::ApiListFeeds, id).reply matches Some(
                ReplyView::Feeds(OutcomeView::Value(listed)),
            ) && listed.contains(FeedInfoView { id, name, url, season, bangumi_info, filter })
        }),
{
    let feed = logic::new_feed(id, url, name, season, bangumi_info, filter);
    let after = tables::inserted(state.feeds, id, feed);
    let at = if tables::has_key(state.feeds, id) {
        choose|i: int| tables::key_at(state.feeds, id, i)
    } else {
        state.feeds.len() as int
    };
    assert(after[at].1 == feed);
    assert(logic::feed_infos(after)[at] == logic::feed_info(feed));
}

/// Every feed stands under its own identifier.
pub open spec fn under_own_ids(feeds: Seq<(FeedId, FeedView)>) -> bool {
    forall|i: int| 0 <= i < feeds.len() ==> (#[trigger] feeds[i]).0 == feeds[i].1.id
}

/// Every event keeps feeds under their own identifiers.
pub proof fn law_feeds_stay_under_their_ids(state: AppStateView, event: EventView, id: FeedId)
    requires
        under_own_ids(state.feeds),
    ensures
        under_own_ids(logic::step(state, event, id).state.feeds),
{
    let after = logic::step(state, event, id).state.feeds;
    assert forall|i: int| 0 <= i < after.len() implies (#[trigger] after[i]).0 == after[i].1.id by {
        match event {
            EventView::ApiRemoveFeed { feed_id } => {
                if tables::has_key(state.feeds, feed_id) {
                    tables::lemma_left(state.feeds, feed_id, i);
                    let j = state.feeds.index_of(after[i]);
                    assert(state.feeds[j] == after[i]);
                } else {
                    assert(state.feeds[i] == after[i]);
                }
            },
            EventView::UserConfirm { feed_id, .. } => {
                if tables::has_key(state.feeds, feed_id) {
                    let at = choose|k: int| tables::key_at(state.feeds, feed_id, k);
                    assert(state.feeds[at].0 == state.feeds[at].1.id);
                }
                if i < state.feeds.len() {
                    assert(state.feeds[i].0 == state.feeds[i].1.id);
                }
            },
            _ => {
                if i < state.feeds.len() {
                    assert(state.feeds[i].0 == state.feeds[i].1.id);
                }
            },
        }
    }
}

/// A feed that was removed is not listed any more.
pub proof fn law_removed_feed_is_not_listed(
    state: AppStateView,
    feed_id: FeedId,
    id: FeedId,
    info: FeedInfoView,
)
    requires
        under_own_ids(state.feeds),
        info.id == feed_id,
    ensures
        ({
            let next = logic::step(state, EventView::ApiRemoveFeed { feed_id }, id).state;
            logic::step(next, EventView::ApiListFeeds, id).reply matches Some(
                ReplyView::Feeds(OutcomeView::Value(listed)),
            ) && !listed.contains(info)
        }),
{
    let next = logic::step(state, EventView::ApiRemoveFeed { feed_id }, id).state;
    law_feeds_stay_under_their_ids(state, EventView::ApiRemoveFeed { feed_id }, id);
    let listed = logic::feed_infos(next.feeds);
    if listed.contains(info) {
        let i = listed.index_of(info);
        assert(next.feeds[i].0 == feed_id);
        if tables::has_key(state.feeds, feed_id) {
            tables::lemma_left(state.feeds, feed_id, i);
        } else {
            assert(tables::key_at(state.feeds, feed_id, i));
        }
    }
}

/// An episode that was moved into the library is served from the path that it was moved to.
pub proof fn law_moved_episode_is_served(
    state: AppStateView,
    infohash: Seq<char>,
    episode: u32,
    library_path: Seq<char>,
    id: FeedId,
)
    requires
        state.valid(),
        tables::has_key(state.tracker, infohash),
        "/"@.is_prefix_of(library_path),
        !text::contains(library_path, ".."@),
    ensures
        ({
            let next = logic::step(
                state,
                EventView::EpisodeMovedToLibrary { infohash, episode, library_path },
                id,
            ).state;
            logic::step(next, EventView::ApiGetEpisode { infohash }, id).reply matches Some(
                ReplyView::Episode(found),
            ) && handle::file_of(found) == Ok::<Seq<char>, ResponseView>(library_path)
        }),
{
    let record = tables::lookup(state.tracker, infohash)->Some_0;
    tables::lemma_inserted(
        state.tracker,
        infohash,
        EpisodeRecordView {
            key: crate::types::EpisodeKeyView { episode, ..record.key },
            library_path: Some(library_path),
            status: RecordStatus::InLibrary,
            ..record
        },
    );
    reveal_strlit("/");
}

/// The downloads that the downloader reported last are listed, in the order of the report.
pub proof fn law_reported_downloads_are_listed(
    state: AppStateView,
    snapshots: Seq<DownloadSnapshotView>,
    id: FeedId,
)
    ensures
        ({
            let next = logic::step(state, EventView::DownloadsRefreshed { snapshots }, id).state;
            logic::step(next, EventView::ApiListDownloads, id).reply matches Some(
                ReplyView::Downloads(OutcomeView::Value(listed)),
            ) && listed.len() == snapshots.len() && forall|i: int|
                0 <= i < snapshots.len() ==> (#[trigger] listed[i]).infohash
                    == snapshots[i].infohash && listed[i].state == snapshots[i].state
                    && listed[i].progress == snapshots[i].progress && listed[i].name
                    == snapshots[i].name && listed[i].size == snapshots[i].size
                    && listed[i].speed == snapshots[i].speed
        }),
{
}

// ── The way of a download ──

/// The start of a download that is not tracked yet, of a known feed, is recorded under its
/// infohash: with the name and the season of that feed's anime, that feed's identifier and the
/// URL, as a download whose episode is not known yet. Nothing else changes but that the URL, if
/// there is one, counts as submitted.
pub proof fn law_started_download_belongs_to_its_feed(
    state: AppStateView,
    infohash: Seq<char>,
    feed_id: FeedId,
    torrent_url: Seq<char>,
    feed: FeedView,
    other: Seq<char>,
    id: FeedId,
)
    requires
        state.valid(),
        tables::lookup(state.feeds, feed_id) == Some(feed),
        !tables::has_key(state.tracker, infohash),
    ensures
        ({
            let after = logic::step(
                state,
                EventView::DownloadStarted { infohash, feed_id, torrent_url },
                id,
            );
            let next = after.state;
            &&& after.effects.len() == 0
            &&& tables::lookup(next.tracker, infohash) matches Some(record)
            &&& record.infohash == infohash
            &&& record.torrent_url == torrent_url
            &&& record.feed_id == feed_id
            &&& record.key.anime.name == feed.anime.name
            &&& record.key.anime.season == feed.anime.season
            &&& record.key.episode == 0
            &&& record.status == RecordStatus::Downloading
            &&& record.library_path is None
            &&& other != infohash ==> tables::lookup(next.tracker, other) == tables::lookup(
                state.tracker,
                other,
            )
            &&& next.seen_urls.contains(other) <==> state.seen_urls.contains(other) || other
                == torrent_url && torrent_url.len() > 0
            &&& next.feeds == state.feeds
            &&& next.cached_downloads == state.cached_downloads
            &&& next.download_dir == state.download_dir
            &&& next.library_dir == state.library_dir
            &&& next.webhook_url == state.webhook_url
        }),
{
    tables::lemma_inserted(
        state.tracker,
        infohash,
        logic::started_record(infohash, feed_id, torrent_url, feed.anime),
    );
}

/// The start of a download of an unknown feed, or of one that is tracked already, changes nothing.
pub proof fn law_other_starts_change_nothing(
    state: AppStateView,
    infohash: Seq<char>,
    feed_id: FeedId,
    torrent_url: Seq<char>,
    id: FeedId,
)
    requires
        !tables::has_key(state.feeds, feed_id) || tables::has_key(state.tracker, infohash),
    ensures
        ({
            let after = logic::step(
                state,
                EventView::DownloadStarted { infohash, feed_id, torrent_url },
                id,
            );
            after.state == state && after.effects.len() == 0
        }),
{
}

/// A download that started and then completed is handled for the anime of the feed that it was
/// started for, from the staging directory into the library, and leaves the state as it is.
pub proof fn law_completed_download_is_handled_for_its_feed(
    state: AppStateView,
    infohash: Seq<char>,
    feed_id: FeedId,
    torrent_url: Seq<char>,
    feed: FeedView,
    id: FeedId,
)
    requires
        state.valid(),
        tables::lookup(state.feeds, feed_id) == Some(feed),
        !tables::has_key(state.tracker, infohash),
    ensures
        ({
            let started = logic::step(
                state,
                EventView::DownloadStarted { infohash, feed_id, torrent_url },
                id,
            ).state;
            let completed = logic::step(
                started,
                EventView::DownloaderNotification { infohash, status: DownloadStatus::Completed },
                id,
            );
            &&& completed.state == started
            &&& completed.effects == seq![
                EffectView::HandleCompleted {
                    infohash,
                    feed_id,
                    anime: feed.anime,
                    library_dir: state.library_dir,
                    download_dir: state.download_dir,
                    expected_episode: 0,
                },
            ]
        }),
{
    law_started_download_belongs_to_its_feed(
        state,
        infohash,
        feed_id,
        torrent_url,
        feed,
        infohash,
        id,
    );
    let started = logic::step(
        state,
        EventView::DownloadStarted { infohash, feed_id, torrent_url },
        id,
    ).state;
    let record = tables::lookup(started.tracker, infohash)->0;
    assert(record.key.anime =~= feed.anime);
}

/// The completion of a tracked download that is neither in the library nor given up is handled
/// with what its record says; one that nobody tracks is passed over.
pub proof fn law_completion_is_handled_with_its_record(
    state: AppStateView,
    infohash: Seq<char>,
    record: EpisodeRecordView,
    id: FeedId,
)
    ensures
        ({
            let after = logic::step(
                state,
                EventView::DownloaderNotification { infohash, status: DownloadStatus::Completed },
                id,
            );
            &&& after.state == state
            &&& tables::lookup(state.tracker, infohash) == Some(record) && (record.status
                == RecordStatus::Downloading || record.status == RecordStatus::Resolved)
                ==> after.effects == seq![
                EffectView::HandleCompleted {
                    infohash,
                    feed_id: record.feed_id,
                    anime: record.key.anime,
                    library_dir: state.library_dir,
                    download_dir: state.download_dir,
                    expected_episode: record.key.episode,
                },
            ]
            &&& !tables::has_key(state.tracker, infohash) ==> after.effects.len() == 0
        }),
{
}

/// An episode that was moved into the library is recorded there: the record of its download has
/// the episode and the path then, and keeps everything else, as do all other records. One
/// notification tells of it, with the anime of the record, the episode, the path, and the metadata
/// of the feed that the record belongs to.
pub proof fn law_moved_episode_is_recorded_and_told(
    state: AppStateView,
    infohash: Seq<char>,
    episode: u32,
    library_path: Seq<char>,
    record: EpisodeRecordView,
    other: Seq<char>,
    id: FeedId,
)
    requires
        state.valid(),
        tables::lookup(state.tracker, infohash) == Some(record),
    ensures
        ({
            let after = logic::step(
                state,
                EventView::EpisodeMovedToLibrary { infohash, episode, library_path },
                id,
            );
            &&& tables::lookup(after.state.tracker, infohash) matches Some(kept)
            &&& kept.key.episode == episode
            &&& kept.library_path == Some(library_path)
            &&& kept.status == RecordStatus::InLibrary
            &&& kept.key.anime == record.key.anime
            &&& kept.infohash == record.infohash
            &&& kept.torrent_url == record.torrent_url
            &&& kept.feed_id == record.feed_id
            &&& other != infohash ==> tables::lookup(after.state.tracker, other) == tables::lookup(
                state.tracker,
                other,
            )
            &&& after.state.feeds == state.feeds
            &&& after.state.seen_urls == state.seen_urls
            &&& after.effects.len() == 1
            &&& after.effects[0] is Notify
            &&& after.effects[0]->Notify_0 is EpisodeDownloaded
            &&& tells(
                after.effects[0]->Notify_0->EpisodeDownloaded_0,
                record.key.anime,
                episode,
                library_path,
                match tables::lookup(state.feeds, record.feed_id) {
                    Some(feed) => feed.bangumi_info,
                    None => None,
                },
            )
        }),
{
    tables::lemma_inserted(
        state.tracker,
        infohash,
        EpisodeRecordView {
            key: crate::types::EpisodeKeyView { episode, ..record.key },
            library_path: Some(library_path),
            status: RecordStatus::InLibrary,
            ..record
        },
    );
}

/// A notification tells of an episode: which one it is, where it went, and what the metadata, if
/// there is any, says of its anime.
pub open spec fn tells(
    n: EpisodeDownloadedView,
    anime: AnimeIdentityView,
    episode: u32,
    library_path: Seq<char>,
    info: Option<BangumiInfoView>,
) -> bool {
    &&& n.anime_name == anime.name
    &&& n.season == anime.season
    &&& n.episode == episode
    &&& n.library_path == library_path
    &&& info is None ==> n.name_cn is None && n.name_original is None && n.summary is None
        && n.rating is None && n.image_url is None && n.eps_count is None
    &&& info matches Some(found) ==> n.name_cn == Some(found.name_cn) && n.name_original == Some(
        found.name,
    ) && n.summary == Some(found.summary) && n.rating == found.rating && n.image_url == Some(
        found.image_url,
    ) && n.eps_count == found.eps_count
}

/// From the start of a download to its arrival in the library the anime stays that of its feed:
/// the notification tells the feed's own name, season and metadata.
pub proof fn law_notification_names_the_anime_of_the_feed(
    state: AppStateView,
    infohash: Seq<char>,
    feed_id: FeedId,
    torrent_url: Seq<char>,
    feed: FeedView,
    episode: u32,
    library_path: Seq<char>,
    id: FeedId,
)
    requires
        state.valid(),
        tables::lookup(state.feeds, feed_id) == Some(feed),
        !tables::has_key(state.tracker, infohash),
    ensures
        ({
            let started = logic::step(
                state,
                EventView::DownloadStarted { infohash, feed_id, torrent_url },
                id,
            ).state;
            let moved = logic::step(
                started,
                EventView::EpisodeMovedToLibrary { infohash, episode, library_path },
                id,
            );
            &&& moved.effects.len() == 1
            &&& moved.effects[0] is Notify
            &&& moved.effects[0]->Notify_0 is EpisodeDownloaded
            &&& tells(
                moved.effects[0]->Notify_0->EpisodeDownloaded_0,
                feed.anime,
                episode,
                library_path,
                feed.bangumi_info,
            )
        }),
{
    let event = EventView::DownloadStarted { infohash, feed_id, torrent_url };
    law_started_download_belongs_to_its_feed(
        state,
        infohash,
        feed_id,
        torrent_url,
        feed,
        infohash,
        id,
    );
    law_steps_keep_states_valid(state, event, id);
    let started = logic::step(state, event, id).state;
    law_moved_episode_is_recorded_and_told(
        started,
        infohash,
        episode,
        library_path,
        tables::lookup(started.tracker, infohash)->0,
        infohash,
        id,
    );
}

/// A download that failed is tracked no more and told of once, under the name of its anime; all
/// other records stay, and its URL still counts as submitted.
pub proof fn law_failed_download_is_dropped_and_told(
    state: AppStateView,
    infohash: Seq<char>,
    record: EpisodeRecordView,
    other: Seq<char>,
    id: FeedId,
)
    requires
        state.valid(),
        tables::lookup(state.tracker, infohash) == Some(record),
    ensures
        ({
            let after = logic::step(
                state,
                EventView::DownloaderNotification { infohash, status: DownloadStatus::Failed },
                id,
            );
            &&& tables::lookup(after.state.tracker, infohash) is None
            &&& other != infohash ==> tables::lookup(after.state.tracker, other) == tables::lookup(
                state.tracker,
                other,
            )
            &&& after.state.seen_urls == state.seen_urls
            &&& after.state.feeds == state.feeds
            &&& after.effects == seq![
                EffectView::Notify(
                    NotificationView::Failed(
                        FailedView {
                            title: record.key.anime.name,
                            message: "下载失败: 种子已失效或下载器不可用"@,
                        },
                    ),
                ),
            ]
        }),
{
    tables::lemma_removed(state.tracker, infohash);
}

/// A download whose handling failed is marked so, and nothing else changes.
pub proof fn law_failed_handling_is_marked(
    state: AppStateView,
    infohash: Seq<char>,
    record: EpisodeRecordView,
    other: Seq<char>,
    id: FeedId,
)
    requires
        state.valid(),
        tables::lookup(state.tracker, infohash) == Some(record),
    ensures
        ({
            let after = logic::step(state, EventView::EpisodeHandleFailed { infohash }, id);
            &&& tables::lookup(after.state.tracker, infohash) == Some(
                EpisodeRecordView { status: RecordStatus::Failed, ..record },
            )
            &&& other != infohash ==> tables::lookup(after.state.tracker, other) == tables::lookup(
                state.tracker,
                other,
            )
            &&& after.state.feeds == state.feeds
            &&& after.state.seen_urls == state.seen_urls
            &&& after.effects.len() == 0
        }),
{
    tables::lemma_inserted(
        state.tracker,
        infohash,
        EpisodeRecordView { status: RecordStatus::Failed, ..record },
    );
}

// ── What is fetched ──

/// A fetched item is submitted: it has a link, which was not submitted before, is no batch, and
/// its title passes the filter of its feed, if that is known.
pub open spec fn is_submitted(state: AppStateView, feed_id: FeedId, item: RssItemView) -> bool {
    &&& item.torrent_url.len() > 0
    &&& !state.seen_urls.contains(item.torrent_url)
    &&& !item.is_batch
    &&& tables::lookup(state.feeds, feed_id) matches Some(feed) ==> filter::accepts(
        feed.filter,
        item.title,
    )
}

/// How many of the first `k` items are submitted.
pub open spec fn submitted(
    state: AppStateView,
    feed_id: FeedId,
    items: Seq<RssItemView>,
    k: int,
) -> int
    decreases k,
{
    if k <= 0 {
        0
    } else if is_submitted(state, feed_id, items[k - 1]) {
        submitted(state, feed_id, items, k - 1) + 1
    } else {
        submitted(state, feed_id, items, k - 1)
    }
}

proof fn lemma_submitted_in_order(
    state: AppStateView,
    feed_id: FeedId,
    items: Seq<RssItemView>,
    dir: Seq<char>,
    n: int,
    j: int,
)
    requires
        0 <= n <= items.len(),
    ensures
        ({
            let passes = logic::passing(logic::feed_filter(state.feeds, feed_id), items);
            let effects = logic::add_effects(
                items.take(n),
                passes,
                state.seen_urls,
                feed_id,
                dir,
            );
            let at = submitted(state, feed_id, items, j);
            &&& effects.len() == submitted(state, feed_id, items, n)
            &&& 0 <= j < n && is_submitted(state, feed_id, items[j]) ==> 0 <= at < effects.len()
                && effects[at] == (EffectView::AddTorrent {
                torrent_url: items[j].torrent_url,
                save_path: dir + "/"@ + feed_id::id_text(feed_id),
                feed_id,
            })
        }),
    decreases n,
{
    if n > 0 {
        lemma_submitted_in_order(state, feed_id, items, dir, n - 1, j);
        assert(items.take(n).take(n - 1) =~= items.take(n - 1));
        if tables::lookup(state.feeds, feed_id) is None {
            filter::law_empty_filter_accepts(FeedFilterView::none(), items[n - 1].title);
        }
    }
}

/// Of the items of a feed, exactly those that are new, no batch and wanted are submitted, once
/// each and in their order, each with its own link into the directory of its feed; the state
/// stays as it is.
pub proof fn law_fetched_items_are_submitted(
    state: AppStateView,
    feed_id: FeedId,
    items: Seq<RssItemView>,
    download_dir: Seq<char>,
    j: int,
    id: FeedId,
)
    ensures
        ({
            let after = logic::step(
                state,
                EventView::RssItemsFetched { feed_id, items, download_dir },
                id,
            );
            let at = submitted(state, feed_id, items, j);
            &&& after.state == state
            &&& after.effects.len() == submitted(state, feed_id, items, items.len() as int)
            &&& 0 <= j < items.len() && is_submitted(state, feed_id, items[j]) ==> 0 <= at
                < after.effects.len() && after.effects[at] == (EffectView::AddTorrent {
                torrent_url: items[j].torrent_url,
                save_path: download_dir + "/"@ + feed_id::id_text(feed_id),
                feed_id,
            })
        }),
{
    lemma_submitted_in_order(state, feed_id, items, download_dir, items.len() as int, j);
    assert(items.take(items.len() as int) =~= items);
}

/// A feed that could not be fetched is told of under its URL, with the reason; the state stays as
/// it is.
pub proof fn law_failed_fetch_is_told(
    state: AppStateView,
    feed_id: FeedId,
    error: Seq<char>,
    feed: FeedView,
    id: FeedId,
)
    requires
        tables::lookup(state.feeds, feed_id) == Some(feed),
    ensures
        ({
            let after = logic::step(state, EventView::RssFetchFailed { feed_id, error }, id);
            &&& after.state == state
            &&& after.effects == seq![
                EffectView::Notify(
                    NotificationView::Failed(
                        FailedView { title: feed.url, message: "RSS 获取失败: "@ + error },
                    ),
                ),
            ]
        }),
{
}

/// A poll asks the downloader for what is complete, for what failed and for everything it has; a
/// refresh asks for everything, a check for whether it is there. None of them changes the state.
pub proof fn law_downloader_is_asked(state: AppStateView, id: FeedId)
    ensures
        ({
            let polled = logic::step(state, EventView::PollDownloader, id);
            &&& polled.state == state
            &&& polled.effects.len() == 3
            &&& polled.effects.contains(EffectView::PollCompleted)
            &&& polled.effects.contains(EffectView::PollFailed)
            &&& polled.effects.contains(EffectView::QueryAllDownloads)
        }),
        logic::step(state, EventView::RefreshDownloads, id).state == state,
        logic::step(state, EventView::RefreshDownloads, id).effects == seq![
            EffectView::QueryAllDownloads,
        ],
        logic::step(state, EventView::CheckDownloader, id).state == state,
        logic::step(state, EventView::CheckDownloader, id).effects == seq![
            EffectView::CheckDownloader,
        ],
{
    let effects = logic::step(state, EventView::PollDownloader, id).effects;
    assert(effects[0] == EffectView::PollCompleted);
    assert(effects[1] == EffectView::PollFailed);
    assert(effects[2] == EffectView::QueryAllDownloads);
}

// ── What the downloader reports ──

/// A reported download is listed with the name and the season of the anime that it is tracked
/// for, and with neither where it is not tracked.
pub proof fn law_reported_download_is_listed_with_its_anime(
    state: AppStateView,
    snapshots: Seq<DownloadSnapshotView>,
    i: int,
    id: FeedId,
)
    requires
        0 <= i < snapshots.len(),
    ensures
        ({
            let next = logic::step(state, EventView::DownloadsRefreshed { snapshots }, id).state;
            let listed = next.cached_downloads[i];
            &&& next.cached_downloads.len() == snapshots.len()
            &&& tables::lookup(state.tracker, snapshots[i].infohash) matches Some(record)
                ==> listed.feed_name == record.key.anime.name && listed.season
                == record.key.anime.season
            &&& tables::lookup(state.tracker, snapshots[i].infohash) is None
                ==> listed.feed_name.len() == 0 && listed.season == 0
        }),
{
}

/// A URL that was submitted counts as submitted after a refresh exactly if it is not that of a
/// download that vanished: one that was downloading and is not reported any more. Feeds and
/// directories stay as they are.
pub proof fn law_refresh_forgets_only_vanished_urls(
    state: AppStateView,
    snapshots: Seq<DownloadSnapshotView>,
    url: Seq<char>,
    id: FeedId,
)
    ensures
        ({
            let next = logic::step(state, EventView::DownloadsRefreshed { snapshots }, id).state;
            &&& next.seen_urls.contains(url) <==> state.seen_urls.contains(url) && !(url.len() > 0
                && exists|i: int| #[trigger] has_vanished(state, snapshots, i, url))
            &&& next.feeds == state.feeds
            &&& next.download_dir == state.download_dir
            &&& next.library_dir == state.library_dir
        }),
{
    let known = logic::known_hashes(snapshots);
    let gone = logic::vanished_urls(state.tracker, known);
    assert forall|h: Seq<char>| #[trigger] known.contains(h) == (exists|k: int|
        0 <= k < snapshots.len() && (#[trigger] snapshots[k]).infohash == h) by {
        if known.contains(h) {
            let k = known.index_of(h);
            assert(snapshots[k].infohash == h);
        }
        if exists|k: int| 0 <= k < snapshots.len() && (#[trigger] snapshots[k]).infohash == h {
            let k = choose|k: int|
                0 <= k < snapshots.len() && (#[trigger] snapshots[k]).infohash == h;
            assert(known[k] == h);
        }
    }
    if url.len() > 0 {
        if gone.contains(url) {
            let i = choose|i: int|
                0 <= i < state.tracker.len() && tables::is_vanished(
                    #[trigger] state.tracker[i],
                    known,
                ) && state.tracker[i].1.torrent_url == url;
            assert(has_vanished(state, snapshots, i, url));
        }
        if exists|i: int| #[trigger] has_vanished(state, snapshots, i, url) {
            let i = choose|i: int| #[trigger] has_vanished(state, snapshots, i, url);
            assert(tables::is_vanished(state.tracker[i], known));
        }
    }
}

/// The tracked download at `i` has this URL, was downloading, and is not reported any more.
pub open spec fn has_vanished(
    state: AppStateView,
    snapshots: Seq<DownloadSnapshotView>,
    i: int,
    url: Seq<char>,
) -> bool {
    &&& 0 <= i < state.tracker.len()
    &&& state.tracker[i].1.torrent_url == url
    &&& state.tracker[i].1.status == RecordStatus::Downloading
    &&& forall|k: int|
        0 <= k < snapshots.len() ==> (#[trigger] snapshots[k]).infohash != state.tracker[i].0
}

// ── Subscriptions ──

/// An accepted subscription stands under its new identifier as it was given, confirmed, and the
/// identifier is the answer; every other subscription, the records and the rest stay.
pub proof fn law_new_feed_is_kept_as_given(
    state: AppStateView,
    id: FeedId,
    url: Seq<char>,
    name: Seq<char>,
    season: u8,
    bangumi_info: Option<BangumiInfoView>,
    filter: FeedFilterView,
    other: FeedId,
)
    requires
        state.valid(),
        filter::filter_error(filter, filter::regex_error(filter)) is None,
        exists|i: int| 0 <= i < name.len() && !text::white(#[trigger] name[i]),
    ensures
        ({
            let after = logic::step(
                state,
                EventView::ConfirmFeed { url, name, season, bangumi_info, filter },
                id,
            );
            &&& after.reply == Some(ReplyView::Text(OutcomeView::Value(feed_id::id_text(id))))
            &&& after.effects.len() == 0
            &&& tables::lookup(after.state.feeds, id) matches Some(feed)
            &&& feed.id == id
            &&& feed.url == url
            &&& feed.anime.name == name
            &&& feed.anime.season == season
            &&& feed.confirmed
            &&& feed.bangumi_info == bangumi_info
            &&& feed.filter == filter
            &&& other != id ==> tables::lookup(after.state.feeds, other) == tables::lookup(
                state.feeds,
                other,
            )
            &&& after.state.tracker == state.tracker
            &&& after.state.seen_urls == state.seen_urls
        }),
{
    text::law_blank_text_is_trimmed_away(name);
    tables::lemma_inserted(
        state.feeds,
        id,
        logic::new_feed(id, url, name, season, bangumi_info, filter),
    );
}

/// An update of a subscription gives it the name, the season and the metadata that were sent, and
/// confirms it; it keeps its URL and its identifier, and every other subscription and all records
/// stay as they are.
pub proof fn law_update_changes_one_feed(
    state: AppStateView,
    feed_id: FeedId,
    name: Seq<char>,
    season: u8,
    bangumi_info: Option<BangumiInfoView>,
    filter: Option<FeedFilterView>,
    before: FeedView,
    other: FeedId,
    id: FeedId,
)
    requires
        state.valid(),
        tables::lookup(state.feeds, feed_id) == Some(before),
        filter matches Some(f) ==> filter::filter_error(f, filter::regex_error(f)) is None,
    ensures
        ({
            let after = logic::step(
                state,
                EventView::UserConfirm { feed_id, name, season, bangumi_info, filter },
                id,
            );
            &&& after.reply == Some(ReplyView::Text(OutcomeView::Value("updated"@)))
            &&& after.effects.len() == 0
            &&& tables::lookup(after.state.feeds, feed_id) matches Some(feed)
            &&& feed.id == before.id
            &&& feed.url == before.url
            &&& feed.anime.name == name
            &&& feed.anime.season == season
            &&& feed.confirmed
            &&& feed.bangumi_info == bangumi_info
            &&& filter is None ==> feed.filter == before.filter
            &&& filter matches Some(f) ==> feed.filter == f
            &&& other != feed_id ==> tables::lookup(after.state.feeds, other) == tables::lookup(
                state.feeds,
                other,
            )
            &&& after.state.tracker == state.tracker
            &&& after.state.seen_urls == state.seen_urls
        }),
{
    tables::lemma_inserted(
        state.feeds,
        feed_id,
        FeedView {
            anime: AnimeIdentityView { name, season },
            confirmed: true,
            bangumi_info,
            filter: match filter {
                Some(f) => f,
                None => before.filter,
            },
            ..before
        },
    );
}

/// All subscriptions are listed, in their order, each with its own identifier, name, URL, season,
/// metadata and filter.
pub proof fn law_every_feed_is_listed(state: AppStateView, i: int, id: FeedId)
    requires
        0 <= i < state.feeds.len(),
    ensures
        ({
            let feed = state.feeds[i].1;
            &&& logic::step(state, EventView::ApiListFeeds, id).reply matches Some(
                ReplyView::Feeds(OutcomeView::Value(listed)),
            )
            &&& listed.len() == state.feeds.len()
            &&& listed[i] == (FeedInfoView {
                id: feed.id,
                name: feed.anime.name,
                url: feed.url,
                season: feed.anime.season,
                bangumi_info: feed.bangumi_info,
                filter: feed.filter,
            })
        }),
{
}

/// What is asked of a feed or an episode that is not there is answered with 404, and a
/// subscription with a blank name or a filter that is no filter with 400; none of it changes the
/// state.
pub proof fn law_what_is_refused(
    state: AppStateView,
    feed_id: FeedId,
    infohash: Seq<char>,
    url: Seq<char>,
    name: Seq<char>,
    season: u8,
    bangumi_info: Option<BangumiInfoView>,
    filter: FeedFilterView,
    id: FeedId,
)
    ensures
        !tables::has_key(state.feeds, feed_id) ==> {
            let after = logic::step(state, EventView::ApiRemoveFeed { feed_id }, id);
            &&& after.state == state
            &&& after.reply == Some(
                ReplyView::Text(
                    OutcomeView::Error {
                        code: 404,
                        message: "feed "@ + feed_id::id_text(feed_id) + " not found"@,
                    },
                ),
            )
        },
        !tables::has_key(state.feeds, feed_id) ==> {
            let after = logic::step(
                state,
                EventView::UserConfirm { feed_id, name, season, bangumi_info, filter: None },
                id,
            );
            &&& after.state == state
            &&& after.reply == Some(
                ReplyView::Text(
                    OutcomeView::Error {
                        code: 404,
                        message: "feed "@ + feed_id::id_text(feed_id) + " not found"@,
                    },
                ),
            )
        },
        !tables::has_key(state.tracker, infohash) ==> logic::step(
            state,
            EventView::ApiGetEpisode { infohash },
            id,
        ).reply == Some(
            ReplyView::Episode(OutcomeView::Error { code: 404, message: "not found"@ }),
        ),
        (forall|i: int| 0 <= i < name.len() ==> text::white(#[trigger] name[i])) ==> {
            let after = logic::step(
                state,
                EventView::ConfirmFeed { url, name, season, bangumi_info, filter },
                id,
            );
            &&& after.state == state
            &&& after.reply == Some(
                ReplyView::Text(
                    OutcomeView::Error { code: 400, message: "name cannot be empty"@ },
                ),
            )
        },
        filter::filter_error(filter, filter::regex_error(filter)) matches Some(error) ==> {
            let after = logic::step(
                state,
                EventView::UserConfirm {
                    feed_id,
                    name,
                    season,
                    bangumi_info,
                    filter: Some(filter),
                },
                id,
            );
            &&& after.state == state
            &&& after.reply == Some(
                ReplyView::Text(
                    OutcomeView::Error { code: 400, message: "invalid filter: "@ + error },
                ),
            )
        },
{
    text::law_blank_text_is_trimmed_away(name);
}

} // verus!
