//! RSS documents: torrent items and previews.
use vstd::prelude::*;

use crate::event;
use crate::nesting;
use crate::text;
use crate::tokenizer;
use crate::types::{RssItem, RssItemView, RssPreview};

verus! {

/// What is read of an item of an RSS channel.
#[derive(Debug, PartialEq)]
pub struct RssEntry {
    pub title: Option<String>,
    pub enclosure_url: Option<String>,
    pub link: Option<String>,
}

/// What is read of an RSS channel.
#[derive(Debug, PartialEq)]
pub struct RssChannel {
    pub title: String,
    pub entries: Vec<RssEntry>,
}

/// A document that is no RSS channel.
#[derive(Debug, PartialEq)]
pub struct RssError {
    pub message: String,
}

/// The model of an entry: title, enclosure URL and link.
pub open spec fn entry_view(entry: RssEntry) -> (Option<Seq<char>>, Option<Seq<char>>, Option<Seq<char>>) {
    (text::opt(entry.title), text::opt(entry.enclosure_url), text::opt(entry.link))
}

/// The models of entries.
pub open spec fn entry_views(entries: Seq<RssEntry>) -> Seq<
    (Option<Seq<char>>, Option<Seq<char>>, Option<Seq<char>>),
> {
    Seq::new(entries.len(), |i: int| entry_view(entries[i]))
}

/// The model of a channel: title and entries.
pub open spec fn channel_view(channel: RssChannel) -> (
    Seq<char>,
    Seq<(Option<Seq<char>>, Option<Seq<char>>, Option<Seq<char>>)>,
) {
    (channel.title@, entry_views(channel.entries@))
}

/// What the `rss` crate reads from a document: the title of the channel and, of each item in
/// order, the title, the enclosure URL and the link; or the message of the error with which it
/// refuses the document.
pub uninterp spec fn rss_channel(body: Seq<char>) -> Result<
    (Seq<char>, Seq<(Option<Seq<char>>, Option<Seq<char>>, Option<Seq<char>>)>),
    Seq<char>,
>;

/// The model of a channel or an error.
pub open spec fn read_view(read: Result<RssChannel, String>) -> Result<
    (Seq<char>, Seq<(Option<Seq<char>>, Option<Seq<char>>, Option<Seq<char>>)>),
    Seq<char>,
> {
    match read {
        Ok(channel) => Ok(channel_view(channel)),
        Err(message) => Err(message@),
    }
}

/// How many calls to itself the reader of a document may have open at a time: what the stack of a
/// thread, two megabytes where nothing else is said, holds with some room to spare.
pub const MAX_NESTING: usize = 1000;

/// Why a document is refused that takes more calls than the stack holds.
pub const TOO_DEEP: &'static str = "the document is nested too deeply";

/// `rss::Channel::from_str` reads a channel from a document or refuses it. What it reads, and the
/// message of the error with its causes (as `anyhow` prints them), depend on the document alone. For
/// each element inside an element with a prefix it calls itself, so the number of these calls is
/// limited: the stack would not hold more.
#[verifier::external_body]
fn read_channel(body: &str) -> (r: Result<RssChannel, String>)
    requires
        nesting::nesting(body@) <= MAX_NESTING,
    ensures
        read_view(r) == rss_channel(body@),
{
    let channel = body.parse::<::rss::Channel>().map_err(|e| format!("{:#}", anyhow::Error::new(e)))?;
    let entries = channel.items().iter().map(|i| RssEntry {
        title: i.title().map(String::from),
        enclosure_url: i.enclosure().map(|e| e.url().to_string()),
        link: i.link().map(String::from),
    }).collect();
    Ok(RssChannel { title: channel.title().to_string(), entries })
}

/// What is read from a document: a channel, or why there is none. A document that takes more calls
/// than the stack holds is refused.
pub open spec fn document(body: Seq<char>) -> Result<
    (Seq<char>, Seq<(Option<Seq<char>>, Option<Seq<char>>, Option<Seq<char>>)>),
    Seq<char>,
> {
    if nesting::nesting(body) > MAX_NESTING {
        Err(TOO_DEEP@)
    } else {
        rss_channel(body)
    }
}

/// Reads a channel from a document, unless that takes more calls than the stack holds.
pub fn read_document(body: &str) -> (r: Result<RssChannel, String>)
    ensures
        read_view(r) == document(body@),
{
    if nesting::nesting_of(body) > MAX_NESTING {
        Err(TOO_DEEP.to_owned())
    } else {
        read_channel(body)
    }
}

/// The items of entries that have a title and an enclosure URL, given which are batches.
pub open spec fn torrent_items(
    entries: Seq<(Option<Seq<char>>, Option<Seq<char>>, Option<Seq<char>>)>,
    batches: Seq<bool>,
) -> Seq<RssItemView>
    decreases entries.len(),
{
    if entries.len() == 0 {
        seq![]
    } else {
        let n = entries.len() - 1;
        let before = torrent_items(entries.take(n), batches);
        match entries[n] {
            (Some(title), Some(url), _) => if title.len() > 0 && url.len() > 0 {
                before.push(RssItemView { title, torrent_url: url, is_batch: batches[n] })
            } else {
                before
            },
            _ => before,
        }
    }
}

/// The torrent items of a channel, given which of its entries are batches.
pub fn select_items(channel: &RssChannel, batches: &Vec<bool>) -> (r: Vec<RssItem>)
    requires
        batches@.len() == channel.entries@.len(),
    ensures
        event::item_views(r@) == torrent_items(channel_view(*channel).1, batches@),
{
    let entries = &channel.entries;
    let ghost all = entry_views(entries@);
    let mut out: Vec<RssItem> = Vec::new();
    let mut i: usize = 0;
    assert(all.take(0) =~= seq![]);
    assert(event::item_views(out@) =~= seq![]);
    while i < entries.len()
        invariant
            i <= entries@.len(),
            batches@.len() == entries@.len(),
            all == entry_views(entries@),
            event::item_views(out@) == torrent_items(all.take(i as int), batches@),
        decreases entries@.len() - i,
    {
        let ghost before = event::item_views(out@);
        assert(all.take(i + 1).take(i as int) =~= all.take(i as int));
        assert(all.take(i + 1)[i as int] == entry_view(entries@[i as int]));
        if let (Some(title), Some(url)) = (&entries[i].title, &entries[i].enclosure_url) {
            if !title.as_str().is_empty() && !url.as_str().is_empty() {
                let item = RssItem {
                    title: title.clone(),
                    torrent_url: url.clone(),
                    is_batch: batches[i],
                };
                let ghost v = item@;
                out.push(item);
                assert(event::item_views(out@) =~= before.push(v));
            }
        }
        i = i + 1;
    }
    assert(all.take(i as int) =~= all);
    out
}

/// Which entries name a range of episodes in their title.
pub open spec fn batch_flags(entries: Seq<(Option<Seq<char>>, Option<Seq<char>>, Option<Seq<char>>)>) -> Seq<bool> {
    Seq::new(
        entries.len(),
        |i: int|
            match entries[i].0 {
                Some(title) => tokenizer::names_batch(title),
                None => false,
            },
    )
}

/// Parses an RSS document into torrent items.
pub fn parse_rss(body: &str) -> (r: Result<Vec<RssItem>, RssError>)
    ensures
        match r {
            Ok(items) => document(body@) matches Ok(channel) && event::item_views(items@)
                == torrent_items(channel.1, batch_flags(channel.1)),
            Err(e) => document(body@) == Err::<
                (Seq<char>, Seq<(Option<Seq<char>>, Option<Seq<char>>, Option<Seq<char>>)>),
                Seq<char>,
            >(e.message@),
        },
{
    let channel = match read_document(body) {
        Ok(c) => c,
        Err(message) => {
            return Err(RssError { message });
        },
    };
    let mut batches: Vec<bool> = Vec::new();
    let mut i: usize = 0;
    let entries = &channel.entries;
    let ghost all = entry_views(entries@);
    while i < entries.len()
        invariant
            i <= entries@.len(),
            all == entry_views(entries@),
            batches@ == batch_flags(all).take(i as int),
        decreases entries@.len() - i,
    {
        let batch = match &entries[i].title {
            Some(title) => tokenizer::is_batch_title(title),
            None => false,
        };
        assert(batch == batch_flags(all)[i as int]);
        batches.push(batch);
        assert(batches@ =~= batch_flags(all).take(i + 1));
        i = i + 1;
    }
    assert(batch_flags(all).take(i as int) =~= batch_flags(all));
    Ok(select_items(&channel, &batches))
}

/// The titles of entries that have one.
pub open spec fn titles(entries: Seq<(Option<Seq<char>>, Option<Seq<char>>, Option<Seq<char>>)>) -> Seq<Seq<char>>
    decreases entries.len(),
{
    if entries.len() == 0 {
        seq![]
    } else {
        let before = titles(entries.drop_last());
        match entries.last().0 {
            Some(title) => before.push(title),
            None => before,
        }
    }
}

/// The first five entries, or all where there are fewer.
pub open spec fn first_five(entries: Seq<(Option<Seq<char>>, Option<Seq<char>>, Option<Seq<char>>)>) -> Seq<
    (Option<Seq<char>>, Option<Seq<char>>, Option<Seq<char>>),
> {
    if entries.len() < 5 {
        entries
    } else {
        entries.take(5)
    }
}

/// The preview of a channel: its title and the titles among its first five items.
pub fn preview_channel(channel: &RssChannel) -> (r: RssPreview)
    ensures
        r.channel_title@ == channel_view(*channel).0,
        text::views(r.item_titles@) == titles(first_five(channel_view(*channel).1)),
        r.item_titles@.len() <= 5,
{
    let entries = &channel.entries;
    let ghost all = first_five(entry_views(entries@));
    let n: usize = if entries.len() < 5 {
        entries.len()
    } else {
        5
    };
    let mut out: Vec<String> = Vec::new();
    let mut i: usize = 0;
    assert(all.take(0) =~= seq![]);
    assert(text::views(out@) =~= seq![]);
    while i < n
        invariant
            i <= n <= entries@.len(),
            n <= 5,
            n == all.len(),
            all == first_five(entry_views(entries@)),
            out@.len() <= i,
            text::views(out@) == titles(all.take(i as int)),
        decreases n - i,
    {
        let ghost before = text::views(out@);
        assert(all.take(i + 1).drop_last() =~= all.take(i as int));
        assert(all[i as int] == entry_view(entries@[i as int]));
        if let Some(title) = &entries[i].title {
            out.push(title.clone());
            assert(text::views(out@) =~= before.push(title@));
        }
        i = i + 1;
    }
    assert(all.take(n as int) =~= all);
    RssPreview { channel_title: channel.title.clone(), item_titles: out }
}

/// Parses an RSS document into a preview: channel title and up to five item titles.
pub fn parse_preview(body: &str) -> (r: Result<RssPreview, RssError>)
    ensures
        match r {
            Ok(preview) => document(body@) matches Ok(channel) && preview.channel_title@
                == channel.0 && text::views(preview.item_titles@) == titles(first_five(channel.1)),
            Err(e) => document(body@) == Err::<
                (Seq<char>, Seq<(Option<Seq<char>>, Option<Seq<char>>, Option<Seq<char>>)>),
                Seq<char>,
            >(e.message@),
        },
{
    match read_document(body) {
        Ok(channel) => Ok(preview_channel(&channel)),
        Err(message) => Err(RssError { message }),
    }
}

/// Every torrent item has a title and a URL.
pub proof fn law_items_have_title_and_url(
    entries: Seq<(Option<Seq<char>>, Option<Seq<char>>, Option<Seq<char>>)>,
    batches: Seq<bool>,
    i: int,
)
    requires
        batches.len() == entries.len(),
        0 <= i < torrent_items(entries, batches).len(),
    ensures
        torrent_items(entries, batches)[i].title.len() > 0,
        torrent_items(entries, batches)[i].torrent_url.len() > 0,
{
    assert(entries.take(entries.len() as int) =~= entries);
    lemma_items(entries, batches, entries.len() as int, i);
}

proof fn lemma_items(
    entries: Seq<(Option<Seq<char>>, Option<Seq<char>>, Option<Seq<char>>)>,
    batches: Seq<bool>,
    n: int,
    i: int,
)
    requires
        0 <= n <= entries.len(),
        0 <= i < torrent_items(entries.take(n), batches).len(),
    ensures
        torrent_items(entries.take(n), batches)[i].title.len() > 0,
        torrent_items(entries.take(n), batches)[i].torrent_url.len() > 0,
    decreases n,
{
    if n > 0 {
        assert(entries.take(n).take(n - 1) =~= entries.take(n - 1));
        if i < torrent_items(entries.take(n - 1), batches).len() {
            lemma_items(entries, batches, n - 1, i);
        }
    }
}

/// An entry has a title and an enclosure, neither of them empty.
pub open spec fn is_whole(entry: (Option<Seq<char>>, Option<Seq<char>>, Option<Seq<char>>)) -> bool {
    &&& entry.0 matches Some(title) && title.len() > 0
    &&& entry.1 matches Some(url) && url.len() > 0
}

/// How many of the first `k` entries have a title and an enclosure.
pub open spec fn whole_entries(
    entries: Seq<(Option<Seq<char>>, Option<Seq<char>>, Option<Seq<char>>)>,
    k: int,
) -> int
    decreases k,
{
    if k <= 0 {
        0
    } else if is_whole(entries[k - 1]) {
        whole_entries(entries, k - 1) + 1
    } else {
        whole_entries(entries, k - 1)
    }
}

proof fn lemma_whole_entries(
    entries: Seq<(Option<Seq<char>>, Option<Seq<char>>, Option<Seq<char>>)>,
    n: int,
    j: int,
)
    requires
        0 <= n <= entries.len(),
    ensures
        ({
            let items = torrent_items(entries.take(n), batch_flags(entries));
            &&& items.len() == whole_entries(entries, n)
            &&& 0 <= j < n && is_whole(entries[j]) ==> 0 <= whole_entries(entries, j) < items.len()
                && items[whole_entries(entries, j)] == (RssItemView {
                title: entries[j].0->0,
                torrent_url: entries[j].1->0,
                is_batch: tokenizer::names_batch(entries[j].0->0),
            })
        }),
    decreases n,
{
    if n > 0 {
        assert(entries.take(n).take(n - 1) =~= entries.take(n - 1));
        lemma_whole_entries(entries, n - 1, j);
    }
}

/// The items of a channel are its entries that have a title and an enclosure, in their order, and
/// no others: each with its own title, with the enclosure as its link, and marked as a batch
/// exactly if its title names one.
pub proof fn law_items_are_the_whole_entries(
    entries: Seq<(Option<Seq<char>>, Option<Seq<char>>, Option<Seq<char>>)>,
    j: int,
)
    ensures
        ({
            let items = torrent_items(entries, batch_flags(entries));
            &&& items.len() == whole_entries(entries, entries.len() as int)
            &&& 0 <= j < entries.len() && is_whole(entries[j]) ==> 0 <= whole_entries(entries, j)
                < items.len() && items[whole_entries(entries, j)] == (RssItemView {
                title: entries[j].0->0,
                torrent_url: entries[j].1->0,
                is_batch: tokenizer::names_batch(entries[j].0->0),
            })
        }),
{
    assert(entries.take(entries.len() as int) =~= entries);
    lemma_whole_entries(entries, entries.len() as int, j);
}

/// How many of the first `k` entries have a title.
pub open spec fn titled_entries(
    entries: Seq<(Option<Seq<char>>, Option<Seq<char>>, Option<Seq<char>>)>,
    k: int,
) -> int
    decreases k,
{
    if k <= 0 {
        0
    } else if entries[k - 1].0 is Some {
        titled_entries(entries, k - 1) + 1
    } else {
        titled_entries(entries, k - 1)
    }
}

proof fn lemma_titled_entries(
    entries: Seq<(Option<Seq<char>>, Option<Seq<char>>, Option<Seq<char>>)>,
    n: int,
    j: int,
)
    requires
        0 <= n <= entries.len(),
    ensures
        titles(entries.take(n)).len() == titled_entries(entries, n),
        0 <= j < n ==> (entries[j].0 matches Some(title) ==> 0 <= titled_entries(entries, j)
            < titles(entries.take(n)).len() && titles(entries.take(n))[titled_entries(entries, j)]
            == title),
    decreases n,
{
    if n > 0 {
        assert(entries.take(n).drop_last() =~= entries.take(n - 1));
        assert(entries.take(n).last() == entries[n - 1]);
        lemma_titled_entries(entries, n - 1, j);
    }
}

/// A preview has the titles of the first five entries, in their order, and no others.
pub proof fn law_preview_has_the_first_titles(
    entries: Seq<(Option<Seq<char>>, Option<Seq<char>>, Option<Seq<char>>)>,
    j: int,
)
    ensures
        ({
            let n = if entries.len() < 5 {
                entries.len() as int
            } else {
                5
            };
            let shown = titles(first_five(entries));
            &&& shown.len() == titled_entries(entries, n)
            &&& 0 <= j < n ==> (entries[j].0 matches Some(title) ==> 0 <= titled_entries(entries, j)
                < shown.len() && shown[titled_entries(entries, j)] == title)
        }),
{
    let n = if entries.len() < 5 {
        entries.len() as int
    } else {
        5
    };
    assert(first_five(entries) =~= entries.take(n));
    lemma_titled_entries(entries, n, j);
}

/// A document that is not nested too deeply is read as it is.
pub proof fn law_shallow_documents_are_read(body: Seq<char>)
    ensures
        nesting::nesting(body) <= 1000 ==> document(body) == rss_channel(body),
        nesting::nesting(body) > 1000 ==> document(body) is Err,
{
}

} // verus!
