//! What the command-line tools print: how a title is understood, what a feed holds, and which
//! titles a filter accepts.
use vstd::prelude::*;

use crate::filter::{self, PatternError, RejectReason, RejectReasonView};
use crate::rss::{self, RssChannel, RssEntry};
use crate::text;
use crate::tokenizer::{self, ParsedTitle, ParsedTitleView};
use crate::types::{FeedFilter, FeedFilterView};

verus! {

/// The upper edge of a box.
pub const BOX_TOP: &'static str = "┌──────────────────────────────────┐";

/// The lower edge of a box.
pub const BOX_BOTTOM: &'static str = "└──────────────────────────────────┘";

/// A text, or a dash where there is none.
pub open spec fn or_dash(s: Option<Seq<char>>) -> Seq<char> {
    match s {
        Some(t) => t,
        None => "-"@,
    }
}

fn dash(s: &Option<String>) -> (r: String)
    ensures
        r@ == or_dash(text::opt(*s)),
{
    match s {
        Some(t) => t.clone(),
        None => "-".to_owned(),
    }
}

/// A season, or a dash where there is none.
pub open spec fn season_text(season: Option<u8>) -> Seq<char> {
    match season {
        Some(s) => "S"@ + text::decimal(s as nat),
        None => "-"@,
    }
}

/// The report on a title. `episode` is its episode number as it is shown.
pub open spec fn title_lines_of(
    raw: Seq<char>,
    p: ParsedTitleView,
    episode: Option<Seq<char>>,
) -> Seq<Seq<char>> {
    seq![
        BOX_TOP@,
        "│  title: "@ + raw,
        BOX_BOTTOM@,
        "  name:     "@ + or_dash(p.name),
        "  name_jp:  "@ + or_dash(p.name_jp),
        "  group:    "@ + or_dash(p.group),
        "  season:   "@ + season_text(p.season),
        "  episode:  "@ + or_dash(episode),
    ]
}

/// The report on a title. `episode` is its episode number as it is shown.
pub fn title_lines(raw: &str, p: &ParsedTitle, episode: &Option<String>) -> (r: Vec<String>)
    ensures
        text::views(r@) == title_lines_of(raw@, p@, text::opt(*episode)),
{
    let season = match p.season {
        Some(s) => text::join2("S", &text::decimal_text(s as u64)),
        None => "-".to_owned(),
    };
    let r = vec![
        BOX_TOP.to_owned(),
        text::join2("│  title: ", raw),
        BOX_BOTTOM.to_owned(),
        text::join2("  name:     ", &dash(&p.name)),
        text::join2("  name_jp:  ", &dash(&p.name_jp)),
        text::join2("  group:    ", &dash(&p.group)),
        text::join2("  season:   ", &season),
        text::join2("  episode:  ", &dash(episode)),
    ];
    assert(text::views(r@) =~= title_lines_of(raw@, p@, text::opt(*episode)));
    r
}

/// Texts with two spaces between them.
pub open spec fn spaced(parts: Seq<Seq<char>>) -> Seq<char>
    decreases parts.len(),
{
    if parts.len() == 0 {
        seq![]
    } else if parts.len() == 1 {
        parts[0]
    } else {
        spaced(parts.drop_last()) + "  "@ + parts.last()
    }
}

/// What is known of a title, part by part.
pub open spec fn parts_of(p: ParsedTitleView, episode: Option<Seq<char>>) -> Seq<Seq<char>> {
    let name = match p.name {
        Some(n) => seq!["name=\""@ + n + "\""@],
        None => seq![],
    };
    let season = match p.season {
        Some(s) => seq!["S"@ + text::decimal(s as nat)],
        None => seq![],
    };
    let number = match episode {
        Some(e) => seq!["ep="@ + e],
        None => seq![],
    };
    let group = match p.group {
        Some(g) => seq!["group=\""@ + g + "\""@],
        None => seq![],
    };
    name + season + number + group
}

fn push_part(out: &mut Vec<String>, part: String)
    ensures
        text::views(final(out)@) == text::views(old(out)@).push(part@),
{
    let ghost before = text::views(out@);
    let ghost p = part@;
    out.push(part);
    assert(text::views(out@) =~= before.push(p));
}

fn summary(p: &ParsedTitle, episode: &Option<String>) -> (r: String)
    ensures
        r@ == spaced(parts_of(p@, text::opt(*episode))),
{
    let mut parts: Vec<String> = Vec::new();
    assert(text::views(parts@) =~= seq![]);
    if let Some(n) = &p.name {
        push_part(&mut parts, text::join3("name=\"", n, "\""));
    }
    if let Some(s) = p.season {
        push_part(&mut parts, text::join2("S", &text::decimal_text(s as u64)));
    }
    if let Some(e) = episode {
        push_part(&mut parts, text::join2("ep=", e));
    }
    if let Some(g) = &p.group {
        push_part(&mut parts, text::join3("group=\"", g, "\""));
    }
    assert(text::views(parts@) =~= parts_of(p@, text::opt(*episode)));
    let ghost all = text::views(parts@);
    let mut out = String::new();
    let mut i: usize = 0;
    while i < parts.len()
        invariant
            i <= parts@.len(),
            all == text::views(parts@),
            out@ == spaced(all.take(i as int)),
        decreases parts@.len() - i,
    {
        assert(all.take(i + 1).drop_last() =~= all.take(i as int));
        if i > 0 {
            out.append("  ");
        }
        out.append(&parts[i]);
        assert(out@ =~= spaced(all.take(i + 1)));
        i = i + 1;
    }
    assert(all.take(all.len() as int) =~= all);
    out
}

/// The link of an entry to its torrent: the enclosure, or else the link; empty where there is
/// neither.
pub open spec fn torrent_link(
    entry: (Option<Seq<char>>, Option<Seq<char>>, Option<Seq<char>>),
) -> Seq<char> {
    match entry.1 {
        Some(url) => url,
        None => match entry.2 {
            Some(link) => link,
            None => seq![],
        },
    }
}

/// The report on an entry of a feed.
pub open spec fn entry_lines_of(
    n: nat,
    entry: (Option<Seq<char>>, Option<Seq<char>>, Option<Seq<char>>),
    p: ParsedTitleView,
    episode: Option<Seq<char>>,
) -> Seq<Seq<char>> {
    let head = seq![
        "── ["@ + text::decimal(n) + "] ──────────────────────"@,
        "  raw:  "@ + or_dash(entry.0),
    ];
    let link = if torrent_link(entry).len() == 0 {
        seq![]
    } else {
        seq!["  url:  "@ + torrent_link(entry)]
    };
    head + link + seq!["  → "@ + spaced(parts_of(p, episode))]
}

/// The report on an entry of a feed, whose title was parsed.
pub fn entry_lines(n: u64, entry: &RssEntry, p: &ParsedTitle, episode: &Option<String>) -> (r: Vec<
    String,
>)
    ensures
        text::views(r@) == entry_lines_of(
            n as nat,
            rss::entry_view(*entry),
            p@,
            text::opt(*episode),
        ),
{
    let mut out: Vec<String> = Vec::new();
    assert(text::views(out@) =~= seq![]);
    push_part(
        &mut out,
        text::join3("── [", &text::decimal_text(n), "] ──────────────────────"),
    );
    push_part(&mut out, text::join2("  raw:  ", &dash(&entry.title)));
    let link = match &entry.enclosure_url {
        Some(url) => url.clone(),
        None => match &entry.link {
            Some(link) => link.clone(),
            None => String::new(),
        },
    };
    if !link.as_str().is_empty() {
        push_part(&mut out, text::join2("  url:  ", &link));
    }
    push_part(&mut out, text::join2("  → ", &summary(p, episode)));
    assert(text::views(out@) =~= entry_lines_of(
        n as nat,
        rss::entry_view(*entry),
        p@,
        text::opt(*episode),
    ));
    out
}

/// The name that a feed suggests: that of the last title that has one.
pub open spec fn suggested_name_of(parsed: Seq<ParsedTitleView>) -> Option<Seq<char>>
    decreases parsed.len(),
{
    if parsed.len() == 0 {
        None
    } else {
        match parsed.last().name {
            Some(name) => Some(name),
            None => suggested_name_of(parsed.drop_last()),
        }
    }
}

/// The views of parsed titles.
pub open spec fn parsed_views(parsed: Seq<ParsedTitle>) -> Seq<ParsedTitleView> {
    Seq::new(parsed.len(), |i: int| parsed[i]@)
}

/// The name that a feed suggests.
pub fn suggested_name(parsed: &Vec<ParsedTitle>) -> (r: Option<String>)
    ensures
        text::opt(r) == suggested_name_of(parsed_views(parsed@)),
{
    let ghost all = parsed_views(parsed@);
    let mut n: usize = parsed.len();
    assert(all.take(n as int) =~= all);
    while n > 0
        invariant
            n <= parsed@.len(),
            all == parsed_views(parsed@),
            suggested_name_of(all) == suggested_name_of(all.take(n as int)),
        decreases n,
    {
        n = n - 1;
        if let Some(name) = &parsed[n].name {
            return Some(name.clone());
        }
        assert(all.take(n + 1).drop_last() =~= all.take(n as int));
    }
    None
}

/// The title by which an entry is parsed.
pub open spec fn shown_title(
    entry: (Option<Seq<char>>, Option<Seq<char>>, Option<Seq<char>>),
) -> Seq<char> {
    or_dash(entry.0)
}

/// A feed and its parsed titles: what is read from a document.
#[derive(Debug)]
pub struct FeedReport {
    pub channel: RssChannel,
    pub parsed: Vec<ParsedTitle>,
}

/// What the titles of entries are understood as, entry by entry.
pub open spec fn parsed_entries(
    entries: Seq<(Option<Seq<char>>, Option<Seq<char>>, Option<Seq<char>>)>,
) -> Seq<ParsedTitleView> {
    Seq::new(entries.len(), |i: int| tokenizer::parsed_title(shown_title(entries[i])))
}

/// Parses the title of each entry.
pub fn parse_entries(entries: &Vec<RssEntry>) -> (r: Vec<ParsedTitle>)
    ensures
        parsed_views(r@) == parsed_entries(rss::entry_views(entries@)),
{
    let mut parsed: Vec<ParsedTitle> = Vec::new();
    let mut i: usize = 0;
    while i < entries.len()
        invariant
            i <= entries@.len(),
            parsed@.len() == i,
            forall|j: int|
                0 <= j < i ==> (#[trigger] parsed@[j])@ == tokenizer::parsed_title(
                    shown_title(rss::entry_view(entries@[j])),
                ),
        decreases entries@.len() - i,
    {
        let title = dash(&entries[i].title);
        match tokenizer::parse_torrent_title(&title) {
            Some(p) => {
                parsed.push(p);
            },
            None => {
                assert(false);
            },
        }
        i = i + 1;
    }
    assert(parsed_views(parsed@) =~= parsed_entries(rss::entry_views(entries@)));
    parsed
}

/// Reads a feed and parses the title of each of its entries; `Err` with the message if the
/// document is no feed.
pub fn read_feed(body: &str) -> (r: Result<FeedReport, String>)
    ensures
        match rss::document(body@) {
            Ok((title, entries)) => r is Ok && rss::channel_view(r->Ok_0.channel) == (title, entries)
                && parsed_views(r->Ok_0.parsed@) == parsed_entries(entries),
            Err(message) => r is Err && r->Err_0@ == message,
        },
{
    match rss::read_document(body) {
        Ok(channel) => {
            let parsed = parse_entries(&channel.entries);
            Ok(FeedReport { channel, parsed })
        },
        Err(message) => Err(message),
    }
}

/// The titles of entries that have one, in order, each with whether it names a batch.
pub open spec fn titles_in(
    entries: Seq<(Option<Seq<char>>, Option<Seq<char>>, Option<Seq<char>>)>,
) -> Seq<(Seq<char>, bool)>
    decreases entries.len(),
{
    if entries.len() == 0 {
        seq![]
    } else {
        let before = titles_in(entries.drop_last());
        match entries.last().0 {
            Some(title) => if title.len() > 0 {
                before.push((title, tokenizer::names_batch(title)))
            } else {
                before
            },
            None => before,
        }
    }
}

/// The views of titles with their batch marks.
pub open spec fn title_views(titles: Seq<(String, bool)>) -> Seq<(Seq<char>, bool)> {
    Seq::new(titles.len(), |i: int| (titles[i].0@, titles[i].1))
}

/// The titles of entries that have one, in order, each with whether it names a batch.
pub fn titled_entries(entries: &Vec<RssEntry>) -> (r: Vec<(String, bool)>)
    ensures
        title_views(r@) == titles_in(rss::entry_views(entries@)),
{
    let ghost all = rss::entry_views(entries@);
    let mut out: Vec<(String, bool)> = Vec::new();
    assert(title_views(out@) =~= titles_in(all.take(0)));
    let mut i: usize = 0;
    while i < entries.len()
        invariant
            i <= entries@.len(),
            all == rss::entry_views(entries@),
            title_views(out@) == titles_in(all.take(i as int)),
        decreases entries@.len() - i,
    {
        let ghost before = title_views(out@);
        assert(all.take(i + 1).drop_last() =~= all.take(i as int));
        assert(all.take(i + 1).last() == rss::entry_view(entries@[i as int]));
        if let Some(title) = &entries[i].title {
            if !title.as_str().is_empty() {
                let is_batch = tokenizer::is_batch_title(title);
                out.push((title.clone(), is_batch));
                assert(title_views(out@) =~= before.push((title@, is_batch)));
            }
        }
        i = i + 1;
    }
    assert(all.take(all.len() as int) =~= all);
    out
}

/// Reads the title of a feed and the titles of its entries; `Err` with the message if the
/// document is no feed.
pub fn feed_titles(body: &str) -> (r: Result<(String, Vec<(String, bool)>), String>)
    ensures
        match rss::document(body@) {
            Ok((title, entries)) => r is Ok && r->Ok_0.0@ == title && title_views(r->Ok_0.1@)
                == titles_in(entries),
            Err(message) => r is Err && r->Err_0@ == message,
        },
{
    match rss::read_document(body) {
        Ok(channel) => {
            let titles = titled_entries(&channel.entries);
            Ok((channel.title, titles))
        },
        Err(message) => Err(message),
    }
}

// ── Filters ──

/// Words with a comma and a space between them, or a dash where there are none.
pub open spec fn joined_or_dash(words: Seq<Seq<char>>) -> Seq<char> {
    if words.len() == 0 {
        "-"@
    } else {
        text::comma_separated(words)
    }
}

/// Words with a comma and a space between them, or a dash where there are none.
pub fn join_or_dash(words: &Vec<String>) -> (r: String)
    ensures
        r@ == joined_or_dash(text::views(words@)),
{
    if words.len() == 0 {
        return "-".to_owned();
    }
    let ghost all = text::views(words@);
    let mut out = String::new();
    let mut i: usize = 0;
    while i < words.len()
        invariant
            i <= words@.len(),
            all == text::views(words@),
            out@ == text::comma_separated(all.take(i as int)),
        decreases words@.len() - i,
    {
        assert(all.take(i + 1).drop_last() =~= all.take(i as int));
        if i > 0 {
            out.append(", ");
        }
        out.append(&words[i]);
        assert(out@ =~= text::comma_separated(all.take(i + 1)));
        i = i + 1;
    }
    assert(all.take(all.len() as int) =~= all);
    out
}

/// A filter as it is shown.
pub open spec fn filter_lines_of(f: FeedFilterView) -> Seq<Seq<char>> {
    seq![
        BOX_TOP@,
        "│  include: "@ + joined_or_dash(f.includes),
        "│  exclude: "@ + joined_or_dash(f.exclude),
        "│  regex:   "@ + or_dash(f.regex),
        BOX_BOTTOM@,
    ]
}

/// A filter as it is shown.
pub fn print_filter(f: &FeedFilter) -> (r: Vec<String>)
    ensures
        text::views(r@) == filter_lines_of(f@),
{
    let r = vec![
        BOX_TOP.to_owned(),
        text::join2("│  include: ", &join_or_dash(&f.includes)),
        text::join2("│  exclude: ", &join_or_dash(&f.exclude)),
        text::join2("│  regex:   ", &dash(&f.regex)),
        BOX_BOTTOM.to_owned(),
    ];
    assert(text::views(r@) =~= filter_lines_of(f@));
    r
}

/// The verdict on a title: whether it passes, whether it is a batch, and why it does not pass.
pub open spec fn verdict_lines_of(
    title: Seq<char>,
    is_batch: bool,
    reason: Option<Seq<char>>,
) -> Seq<Seq<char>> {
    let mark = if reason is None {
        "✅ PASS"@
    } else {
        "❌ FAIL"@
    };
    let note = if is_batch {
        "  ⚠️ batch"@
    } else {
        ""@
    };
    let first = mark + "  "@ + title + note;
    match reason {
        Some(why) => seq![first, "        reason: "@ + why],
        None => seq![first],
    }
}

/// The verdict on a title.
pub fn verdict_lines(title: &str, is_batch: bool, reason: &Option<RejectReason>) -> (r: Vec<String>)
    ensures
        text::views(r@) == verdict_lines_of(
            title@,
            is_batch,
            match filter::reason_view(*reason) {
                Some(why) => Some(filter::reason_text(why)),
                None => None,
            },
        ),
{
    let mark = if reason.is_none() {
        "✅ PASS"
    } else {
        "❌ FAIL"
    };
    let note = if is_batch {
        "  ⚠️ batch"
    } else {
        ""
    };
    let mut first = text::join3(mark, "  ", title);
    first.append(note);
    let mut out: Vec<String> = Vec::new();
    assert(text::views(out@) =~= seq![]);
    let ghost head = first@;
    push_part(&mut out, first);
    if let Some(why) = reason {
        push_part(&mut out, text::join2("        reason: ", &why.to_text()));
    }
    assert(text::views(out@) =~= verdict_lines_of(
        title@,
        is_batch,
        match filter::reason_view(*reason) {
            Some(why) => Some(filter::reason_text(why)),
            None => None,
        },
    ));
    out
}

/// Why a filter rejects each of some titles; nothing is rejected by an empty filter.
pub open spec fn verdicts_of(f: FeedFilterView, titles: Seq<Seq<char>>) -> Seq<
    Option<RejectReasonView>,
> {
    Seq::new(
        titles.len(),
        |i: int|
            if filter::is_empty_filter(f) {
                None
            } else {
                filter::rejection(
                    filter::compiled(f),
                    text::lowercase(titles[i]),
                    filter::regex_hit(f, titles[i]),
                )
            },
    )
}

/// The views of verdicts.
pub open spec fn verdict_views(verdicts: Seq<Option<RejectReason>>) -> Seq<
    Option<RejectReasonView>,
> {
    Seq::new(verdicts.len(), |i: int| filter::reason_view(verdicts[i]))
}

/// Why a filter rejects each of some titles; an error if its pattern is no regular expression.
pub fn judge(f: &FeedFilter, titles: &Vec<String>) -> (r: Result<
    Vec<Option<RejectReason>>,
    PatternError,
>)
    ensures
        match r {
            Ok(verdicts) => (filter::is_empty_filter(f@) || filter::regex_error(f@) is None)
                && verdict_views(verdicts@) == verdicts_of(f@, text::views(titles@)),
            Err(e) => !filter::is_empty_filter(f@) && filter::regex_error(f@) == Some(
                e.message@,
            ),
        },
{
    let ready = match filter::compile(f) {
        Ok(c) => c,
        Err(e) => {
            return Err(e);
        },
    };
    let ghost wanted = verdicts_of(f@, text::views(titles@));
    let mut out: Vec<Option<RejectReason>> = Vec::new();
    let mut i: usize = 0;
    while i < titles.len()
        invariant
            i <= titles@.len(),
            wanted == verdicts_of(f@, text::views(titles@)),
            ready is None ==> filter::is_empty_filter(f@),
            ready matches Some(c) ==> !filter::is_empty_filter(f@) && c@ == filter::compiled(f@),
            out@.len() == i,
            forall|j: int| 0 <= j < i ==> filter::reason_view(#[trigger] out@[j]) == wanted[j],
        decreases titles@.len() - i,
    {
        let reason = match &ready {
            Some(c) => filter::reject_reason(c, &titles[i]),
            None => None,
        };
        out.push(reason);
        i = i + 1;
    }
    assert(verdict_views(out@) =~= wanted);
    Ok(out)
}

/// How many titles pass.
pub open spec fn passed_of(verdicts: Seq<Option<RejectReasonView>>) -> nat
    decreases verdicts.len(),
{
    if verdicts.len() == 0 {
        0
    } else if verdicts.last() is None {
        passed_of(verdicts.drop_last()) + 1
    } else {
        passed_of(verdicts.drop_last())
    }
}

/// How many titles pass.
pub fn count_passed(verdicts: &Vec<Option<RejectReason>>) -> (r: usize)
    ensures
        r == passed_of(verdict_views(verdicts@)),
        r <= verdicts@.len(),
{
    let ghost all = verdict_views(verdicts@);
    let mut n: usize = 0;
    let mut i: usize = 0;
    while i < verdicts.len()
        invariant
            i <= verdicts@.len(),
            n <= i,
            all == verdict_views(verdicts@),
            n == passed_of(all.take(i as int)),
        decreases verdicts@.len() - i,
    {
        assert(all.take(i + 1).drop_last() =~= all.take(i as int));
        if verdicts[i].is_none() {
            n = n + 1;
        }
        i = i + 1;
    }
    assert(all.take(all.len() as int) =~= all);
    n
}

// ── Laws ──

/// A title of the filter report passes exactly if the filter accepts it, where the filter's pattern
/// is a regular expression.
pub proof fn law_verdict_is_that_of_the_filter(f: FeedFilterView, titles: Seq<Seq<char>>, i: int)
    requires
        0 <= i < titles.len(),
        filter::regex_error(f) is None,
    ensures
        verdicts_of(f, titles).len() == titles.len(),
        verdicts_of(f, titles)[i] is None <==> filter::accepts(f, titles[i]),
{
}

/// The number of titles that pass is how many of them have no reason against them.
pub proof fn law_passed_titles_are_counted(verdicts: Seq<Option<RejectReasonView>>)
    ensures
        passed_of(verdicts) == verdicts.filter(|v: Option<RejectReasonView>| v is None).len(),
    decreases verdicts.len(),
{
    reveal(Seq::filter);
    if verdicts.len() > 0 {
        law_passed_titles_are_counted(verdicts.drop_last());
    }
}

} // verus!
