//! What becomes of fetched bytes: RSS items, previews and `.torrent` files.
use vstd::prelude::*;
use vstd::utf8::*;

use crate::effect::{Effect, EffectView};
use crate::event;
use crate::feed_id::FeedId;
use crate::rss;
use crate::text;
use crate::types::{RssItem, RssItemView, RssPreview};

verus! {

/// How large an RSS feed may be, in bytes.
pub const MAX_RSS_SIZE: u64 = 1_048_576;

/// How large a `.torrent` file may be, in bytes.
pub const MAX_TORRENT_SIZE: u64 = 10_485_760;

/// A job that fetches something.
#[allow(inconsistent_fields)]
#[derive(Debug, PartialEq)]
pub enum FetchJob {
    DownloadTorrent { uri: String, save_path: String, feed_id: FeedId },
    FetchRss { url: String, feed_id: FeedId, download_dir: String },
    /// Send a webhook message. Nothing is told of how that went.
    Notify { url: String, body: String, content_type: &'static str },
}

#[allow(inconsistent_fields)]
#[verifier::ext_equal]
pub enum FetchJobView {
    DownloadTorrent { uri: Seq<char>, save_path: Seq<char>, feed_id: FeedId },
    FetchRss { url: Seq<char>, feed_id: FeedId, download_dir: Seq<char> },
    Notify { url: Seq<char>, body: Seq<char>, content_type: Seq<char> },
}

impl View for FetchJob {
    type V = FetchJobView;

    open spec fn view(&self) -> FetchJobView {
        match self {
            FetchJob::DownloadTorrent { uri, save_path, feed_id } => {
                FetchJobView::DownloadTorrent {
                    uri: uri@,
                    save_path: save_path@,
                    feed_id: *feed_id,
                }
            },
            FetchJob::FetchRss { url, feed_id, download_dir } => FetchJobView::FetchRss {
                url: url@,
                feed_id: *feed_id,
                download_dir: download_dir@,
            },
            FetchJob::Notify { url, body, content_type } => FetchJobView::Notify {
                url: url@,
                body: body@,
                content_type: content_type@,
            },
        }
    }
}

/// The view of fetched bytes or of why there are none.
pub open spec fn fetched_view(fetched: Result<Vec<u8>, String>) -> Result<Seq<u8>, Seq<char>> {
    match fetched {
        Ok(bytes) => Ok(bytes@),
        Err(e) => Err(e@),
    }
}

/// Fetched bytes, unless they are more than `max`.
pub open spec fn limited(bytes: Seq<u8>, max: u64) -> Result<Seq<u8>, Seq<char>> {
    if bytes.len() > max {
        Err(
            "response too large: "@ + text::decimal(bytes.len()) + " bytes (limit "@ + text::decimal(
                max as nat,
            ) + ")"@,
        )
    } else {
        Ok(bytes)
    }
}

/// Refuses a response that is larger than `max` bytes.
pub fn fetch_bytes(bytes: Vec<u8>, max: u64) -> (r: Result<Vec<u8>, String>)
    ensures
        fetched_view(r) == limited(bytes@, max),
{
    let n: u64 = bytes.len() as u64;
    if n > max {
        let mut message = "response too large: ".to_owned();
        message.append(&text::decimal_text(n));
        message.append(" bytes (limit ");
        message.append(&text::decimal_text(max));
        message.append(")");
        Err(message)
    } else {
        Ok(bytes)
    }
}

/// The text of an RSS feed: its bytes must be UTF-8 and not too many.
pub open spec fn rss_body(fetched: Result<Seq<u8>, Seq<char>>) -> Result<Seq<char>, Seq<char>> {
    match fetched {
        Err(e) => Err(e),
        Ok(bytes) => match limited(bytes, MAX_RSS_SIZE) {
            Err(e) => Err(e),
            Ok(all) => if valid_utf8(all) {
                Ok(decode_utf8(all))
            } else {
                Err(text::utf8_error(all))
            },
        },
    }
}

fn fetch_rss_body(fetched: Result<Vec<u8>, String>) -> (r: Result<String, String>)
    ensures
        (match r {
            Ok(body) => Ok(body@),
            Err(e) => Err(e@),
        }) == rss_body(fetched_view(fetched)),
{
    let bytes = match fetched {
        Ok(b) => b,
        Err(e) => {
            return Err(e);
        },
    };
    let all = match fetch_bytes(bytes, MAX_RSS_SIZE) {
        Ok(b) => b,
        Err(e) => {
            return Err(e);
        },
    };
    match text::from_utf8(all) {
        Ok(body) => {
            proof {
                encode_utf8_decode_utf8(body@);
            }
            Ok(body)
        },
        Err(e) => Err(e),
    }
}

/// The torrent items of a fetched RSS feed.
pub open spec fn rss_items(fetched: Result<Seq<u8>, Seq<char>>) -> Result<
    Seq<RssItemView>,
    Seq<char>,
> {
    match rss_body(fetched) {
        Err(e) => Err(e),
        Ok(body) => match rss::document(body) {
            Ok(channel) => Ok(rss::torrent_items(channel.1, rss::batch_flags(channel.1))),
            Err(e) => Err(e),
        },
    }
}

/// The view of items or of why there are none.
pub open spec fn items_view(r: Result<Vec<RssItem>, String>) -> Result<
    Seq<RssItemView>,
    Seq<char>,
> {
    match r {
        Ok(items) => Ok(event::item_views(items@)),
        Err(e) => Err(e@),
    }
}

/// The torrent items of a fetched RSS feed.
pub fn fetch_items(fetched: Result<Vec<u8>, String>) -> (r: Result<Vec<RssItem>, String>)
    ensures
        items_view(r) == rss_items(fetched_view(fetched)),
{
    match fetch_rss_body(fetched) {
        Ok(body) => match rss::parse_rss(&body) {
            Ok(items) => Ok(items),
            Err(e) => Err(e.message),
        },
        Err(e) => Err(e),
    }
}

/// The preview of a fetched RSS feed: the channel title and up to five item titles.
pub open spec fn rss_preview(fetched: Result<Seq<u8>, Seq<char>>) -> Result<
    (Seq<char>, Seq<Seq<char>>),
    Seq<char>,
> {
    match rss_body(fetched) {
        Err(e) => Err(e),
        Ok(body) => match rss::document(body) {
            Ok(channel) => Ok((channel.0, rss::titles(rss::first_five(channel.1)))),
            Err(e) => Err(e),
        },
    }
}

/// The preview of a fetched RSS feed.
pub fn fetch_preview(fetched: Result<Vec<u8>, String>) -> (r: Result<RssPreview, String>)
    ensures
        (match r {
            Ok(preview) => Ok(
                (preview.channel_title@, text::views(preview.item_titles@)),
            ),
            Err(e) => Err(e@),
        }) == rss_preview(fetched_view(fetched)),
{
    match fetch_rss_body(fetched) {
        Ok(body) => match rss::parse_preview(&body) {
            Ok(preview) => Ok(preview),
            Err(e) => Err(e.message),
        },
        Err(e) => Err(e),
    }
}

/// Whether bytes begin as a `.torrent` file does: a bencoded dictionary, with `d`.
pub fn is_torrent_file(bytes: &Vec<u8>) -> (r: bool)
    ensures
        r == (bytes@.len() > 0 && bytes@[0] == 100),
{
    bytes.len() > 0 && bytes[0] == 100
}

/// What a downloaded `.torrent` file leads to: it is added, unless it could not be had, is too
/// large or is none.
pub open spec fn after_torrent(
    uri: Seq<char>,
    save_path: Seq<char>,
    feed_id: FeedId,
    fetched: Result<Seq<u8>, Seq<char>>,
) -> Option<EffectView> {
    match fetched {
        Ok(data) => if data.len() <= MAX_TORRENT_SIZE && data.len() > 0 && data[0] == 100 {
            Some(EffectView::AddTorrentBytes { data, save_path, feed_id, torrent_url: uri })
        } else {
            None
        },
        Err(e) => None,
    }
}

/// What a downloaded `.torrent` file leads to.
pub fn torrent_fetched(
    uri: String,
    save_path: String,
    feed_id: FeedId,
    fetched: Result<Vec<u8>, String>,
) -> (r: Option<Effect>)
    ensures
        (match r {
            Some(e) => Some(e@),
            None => None,
        }) == after_torrent(uri@, save_path@, feed_id, fetched_view(fetched)),
{
    let bytes = match fetched {
        Ok(b) => b,
        Err(e) => {
            return None;
        },
    };
    match fetch_bytes(bytes, MAX_TORRENT_SIZE) {
        Ok(data) => if is_torrent_file(&data) {
            Some(Effect::AddTorrentBytes { data, save_path, feed_id, torrent_url: uri })
        } else {
            None
        },
        Err(e) => None,
    }
}

/// What a fetched RSS feed leads to: its items, or the failure.
pub fn rss_fetched(
    feed_id: FeedId,
    download_dir: String,
    items: Result<Vec<RssItem>, String>,
) -> (r: Effect)
    ensures
        r@ == (match items_view(items) {
            Ok(found) => EffectView::RssFetchComplete {
                feed_id,
                items: found,
                download_dir: download_dir@,
            },
            Err(error) => EffectView::RssFetchFailed { feed_id, error },
        }),
{
    match items {
        Ok(items) => Effect::RssFetchComplete { feed_id, items, download_dir },
        Err(error) => Effect::RssFetchFailed { feed_id, error },
    }
}

/// Only data that begins as a `.torrent` file does and is not too large reaches the downloader,
/// and it reaches it unchanged.
pub proof fn law_only_torrent_files_are_added(
    uri: Seq<char>,
    save_path: Seq<char>,
    feed_id: FeedId,
    fetched: Result<Seq<u8>, Seq<char>>,
)
    ensures
        after_torrent(uri, save_path, feed_id, fetched) matches Some(e) ==> {
            &&& e matches EffectView::AddTorrentBytes { data, save_path: dir, feed_id: id, torrent_url }
                && fetched == Ok::<Seq<u8>, Seq<char>>(data) && data.len() <= MAX_TORRENT_SIZE
                && data[0] == 100 && dir == save_path && id == feed_id && torrent_url == uri
        },
{
}

/// A downloaded file is added exactly if it was had, has at most ten mebibytes and begins with `d`,
/// as a bencoded dictionary does.
pub proof fn law_every_torrent_file_is_added(
    uri: Seq<char>,
    save_path: Seq<char>,
    feed_id: FeedId,
    data: Seq<u8>,
    error: Seq<char>,
)
    ensures
        0 < data.len() <= 10 * 1024 * 1024 && data[0] == 'd' as u8 ==> after_torrent(
            uri,
            save_path,
            feed_id,
            Ok(data),
        ) == Some(
            EffectView::AddTorrentBytes { data, save_path, feed_id, torrent_url: uri },
        ),
        data.len() == 0 || data.len() > 10 * 1024 * 1024 || data[0] != 'd' as u8 ==> after_torrent(
            uri,
            save_path,
            feed_id,
            Ok(data),
        ) is None,
        after_torrent(uri, save_path, feed_id, Err(error)) is None,
{
}

/// A feed of at most one mebibyte of text that is a channel gives the items of that channel, and
/// its preview the channel's title and first titles. What could not be had, is larger or is no
/// text gives the failure.
pub proof fn law_fetched_feed_gives_its_items(
    bytes: Seq<u8>,
    error: Seq<char>,
    title: Seq<char>,
    entries: Seq<(Option<Seq<char>>, Option<Seq<char>>, Option<Seq<char>>)>,
)
    ensures
        rss_items(Err(error)) == Err::<Seq<RssItemView>, Seq<char>>(error),
        rss_preview(Err(error)) is Err,
        bytes.len() > 1024 * 1024 || !valid_utf8(bytes) ==> rss_items(Ok(bytes)) is Err
            && rss_preview(Ok(bytes)) is Err,
        bytes.len() <= 1024 * 1024 && valid_utf8(bytes) && rss::document(decode_utf8(bytes)) == Ok::<
            (Seq<char>, Seq<(Option<Seq<char>>, Option<Seq<char>>, Option<Seq<char>>)>),
            Seq<char>,
        >((title, entries)) ==> rss_items(Ok(bytes)) == Ok::<Seq<RssItemView>, Seq<char>>(
            rss::torrent_items(entries, rss::batch_flags(entries)),
        ) && rss_preview(Ok(bytes)) == Ok::<(Seq<char>, Seq<Seq<char>>), Seq<char>>(
            (title, rss::titles(rss::first_five(entries))),
        ),
{
}

} // verus!
