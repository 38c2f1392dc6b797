//! Feed previews: what the titles of a feed suggest, with Bangumi metadata.
use vstd::prelude::*;

use crate::encode;
use crate::single;
use crate::text;
use crate::tokenizer::{self, ParsedTitle, ParsedTitleView};
use crate::types::{self, BangumiInfo, BangumiInfoView, FeedPreview, FeedPreviewView};

verus! {

/// What the titles of a feed suggest.
#[derive(Debug, PartialEq)]
pub struct Suggestion {
    pub name: String,
    pub season: u8,
    pub latest_episode: Option<u32>,
    pub group: Option<String>,
}

#[verifier::ext_equal]
pub struct SuggestionView {
    pub name: Seq<char>,
    pub season: u8,
    pub latest_episode: Option<u32>,
    pub group: Option<Seq<char>>,
}

impl View for Suggestion {
    type V = SuggestionView;

    open spec fn view(&self) -> SuggestionView {
        SuggestionView {
            name: self.name@,
            season: self.season,
            latest_episode: self.latest_episode,
            group: text::opt(self.group),
        }
    }
}

/// The views of tokenized titles.
pub open spec fn title_views(parsed: Seq<ParsedTitle>) -> Seq<ParsedTitleView> {
    Seq::new(parsed.len(), |i: int| parsed[i]@)
}

/// The larger of an optional number and a number.
pub open spec fn larger(a: Option<u32>, b: u32) -> Option<u32> {
    match a {
        Some(x) => if x > b {
            Some(x)
        } else {
            Some(b)
        },
        None => Some(b),
    }
}

/// What tokenized titles suggest: the first name with its season, the first group, the largest
/// episode.
pub open spec fn suggested(parsed: Seq<ParsedTitleView>) -> SuggestionView
    decreases parsed.len(),
{
    if parsed.len() == 0 {
        SuggestionView { name: seq![], season: 1, latest_episode: None, group: None }
    } else {
        let s = suggested(parsed.drop_last());
        let p = parsed.last();
        let takes_name = s.name.len() == 0 && p.name is Some;
        SuggestionView {
            name: if takes_name {
                p.name->Some_0
            } else {
                s.name
            },
            season: if takes_name {
                match p.season {
                    Some(n) => n,
                    None => 1,
                }
            } else {
                s.season
            },
            latest_episode: match p.episode {
                Some(e) => larger(s.latest_episode, single::decimal_whole(e)),
                None => s.latest_episode,
            },
            group: if s.group is None {
                p.group
            } else {
                s.group
            },
        }
    }
}

/// What tokenized titles suggest.
pub fn suggest(parsed: &Vec<ParsedTitle>) -> (r: Suggestion)
    ensures
        r@ == suggested(title_views(parsed@)),
{
    let ghost all = title_views(parsed@);
    let mut s = Suggestion { name: String::new(), season: 1, latest_episode: None, group: None };
    let mut i: usize = 0;
    assert(all.take(0) =~= seq![]);
    while i < parsed.len()
        invariant
            i <= parsed@.len(),
            all == title_views(parsed@),
            s@ == suggested(all.take(i as int)),
        decreases parsed@.len() - i,
    {
        assert(all.take(i + 1).drop_last() =~= all.take(i as int));
        let p = &parsed[i];
        assert(all.take(i + 1).last() == p@);
        if s.name.as_str().is_empty() {
            if let Some(name) = &p.name {
                s.name = name.clone();
                s.season = p.season.unwrap_or(1);
            }
        }
        if s.group.is_none() {
            s.group = text::clone_opt(&p.group);
        }
        if let Some(episode) = &p.episode {
            let number: u32 = episode.whole();
            s.latest_episode = match s.latest_episode {
                Some(x) => if x > number {
                    Some(x)
                } else {
                    Some(number)
                },
                None => Some(number),
            };
        }
        i = i + 1;
    }
    assert(all.take(i as int) =~= all);
    s
}

/// The tokens of titles.
pub open spec fn parsed_titles(titles: Seq<Seq<char>>) -> Seq<ParsedTitleView> {
    Seq::new(titles.len(), |i: int| tokenizer::parsed_title(titles[i]))
}

/// A suggestion whose name, where the titles give none, is the first title as it stands.
pub open spec fn with_fallback(s: SuggestionView, titles: Seq<Seq<char>>) -> SuggestionView {
    if s.name.len() == 0 && titles.len() > 0 {
        SuggestionView { name: titles[0], ..s }
    } else {
        s
    }
}

/// What the item titles of a feed suggest; the name falls back on the first title.
pub fn suggest_from_titles(titles: &Vec<String>) -> (r: Suggestion)
    ensures
        r@ == with_fallback(
            suggested(parsed_titles(text::views(titles@))),
            text::views(titles@),
        ),
{
    let ghost all = text::views(titles@);
    let mut parsed: Vec<ParsedTitle> = Vec::new();
    let mut i: usize = 0;
    assert(title_views(parsed@) =~= parsed_titles(all.take(0)));
    while i < titles.len()
        invariant
            i <= titles@.len(),
            all == text::views(titles@),
            title_views(parsed@) == parsed_titles(all.take(i as int)),
        decreases titles@.len() - i,
    {
        let ghost before = title_views(parsed@);
        if let Some(p) = tokenizer::parse_torrent_title(&titles[i]) {
            let ghost v = p@;
            parsed.push(p);
            assert(title_views(parsed@) =~= before.push(v));
        }
        assert(parsed_titles(all.take(i + 1)) =~= parsed_titles(all.take(i as int)).push(
            tokenizer::parsed_title(all[i as int]),
        ));
        i = i + 1;
    }
    assert(all.take(i as int) =~= all);
    let mut s = suggest(&parsed);
    if s.name.as_str().is_empty() && titles.len() > 0 {
        s.name = titles[0].clone();
    }
    s
}

/// The name under which metadata is looked up; there is none without a suggested name.
pub fn keyword(s: &Suggestion) -> (r: Option<&str>)
    ensures
        match r {
            Some(name) => name@ == s@.name && s@.name.len() > 0,
            None => s@.name.len() == 0,
        },
{
    if s.name.as_str().is_empty() {
        None
    } else {
        Some(s.name.as_str())
    }
}

/// Metadata whose cover image, if there is one, goes through the server's image proxy.
pub open spec fn with_proxied_image(info: BangumiInfoView) -> BangumiInfoView {
    if info.image_url.len() == 0 {
        info
    } else {
        BangumiInfoView {
            image_url: "/api/bangumi/image?url="@ + encode::link_encoded(info.image_url),
            ..info
        }
    }
}

/// The preview of a feed.
pub open spec fn preview_of(
    s: SuggestionView,
    titles: Seq<Seq<char>>,
    info: Option<BangumiInfoView>,
) -> FeedPreviewView {
    FeedPreviewView {
        suggested_name: s.name,
        suggested_season: s.season,
        latest_episode: s.latest_episode,
        group: s.group,
        sample_titles: titles,
        bangumi_info: match info {
            Some(i) => Some(with_proxied_image(i)),
            None => None,
        },
    }
}

/// Puts together the preview of a feed from its titles, what they suggest and the metadata that
/// was found under the suggested name.
pub fn finish_preview(s: Suggestion, titles: Vec<String>, info: Option<BangumiInfo>) -> (r:
    FeedPreview)
    ensures
        r@ == preview_of(s@, text::views(titles@), types::info_view(info)),
{
    let bangumi_info = match info {
        Some(found) => {
            let mut i = found;
            if !i.image_url.as_str().is_empty() {
                i.image_url = text::join2(
                    "/api/bangumi/image?url=",
                    &encode::encode_link(&i.image_url),
                );
            }
            Some(i)
        },
        None => None,
    };
    FeedPreview {
        suggested_name: s.name,
        suggested_season: s.season,
        latest_episode: s.latest_episode,
        group: s.group,
        sample_titles: titles,
        bangumi_info,
    }
}

/// The latest episode of a preview is one of the episodes that its titles carry, and none of them
/// is larger.
pub proof fn law_latest_episode_is_the_largest(parsed: Seq<ParsedTitleView>)
    ensures
        match suggested(parsed).latest_episode {
            Some(n) => {
                &&& exists|i: int|
                    0 <= i < parsed.len() && ((#[trigger] parsed[i]).episode matches Some(e)
                        && single::decimal_whole(e) == n)
                &&& forall|i: int|
                    0 <= i < parsed.len() ==> ((#[trigger] parsed[i]).episode matches Some(e)
                        ==> single::decimal_whole(e) <= n)
            },
            None => forall|i: int|
                0 <= i < parsed.len() ==> (#[trigger] parsed[i]).episode is None,
        },
    decreases parsed.len(),
{
    if parsed.len() > 0 {
        let init = parsed.drop_last();
        law_latest_episode_is_the_largest(init);
        let before = suggested(init).latest_episode;
        let last = parsed.last();
        assert(parsed[parsed.len() - 1] == last);
        assert forall|i: int| 0 <= i < parsed.len() - 1 implies #[trigger] parsed[i] == init[i] by {
        }
        if let Some(n) = suggested(parsed).latest_episode {
            if before == Some(n) {
                let i = choose|i: int|
                    0 <= i < init.len() && ((#[trigger] init[i]).episode matches Some(e)
                        && single::decimal_whole(e) == n);
                assert(parsed[i].episode matches Some(e) && single::decimal_whole(e) == n);
            }
            assert forall|i: int| 0 <= i < parsed.len() implies ((
            #[trigger] parsed[i]).episode matches Some(e) ==> single::decimal_whole(e) <= n) by {
                if i < init.len() {
                    assert(init[i] == parsed[i]);
                }
            }
        }
    }
}

/// The title at `i` is the first of the tokenized titles with a name that is not empty.
pub open spec fn is_first_named(parsed: Seq<ParsedTitleView>, i: int) -> bool {
    &&& 0 <= i < parsed.len()
    &&& parsed[i].name matches Some(name) && name.len() > 0
    &&& forall|j: int| 0 <= j < i ==> ((#[trigger] parsed[j]).name matches Some(name) ==> name.len() == 0)
}

/// The suggested name and the suggested season are those of one title, the first with a name: its
/// season is the one that this title carries, and 1 only where it carries none. Without such a
/// title there is no name.
pub proof fn law_name_and_season_come_from_one_title(parsed: Seq<ParsedTitleView>, i: int)
    ensures
        is_first_named(parsed, i) ==> {
            &&& Some(suggested(parsed).name) == parsed[i].name
            &&& parsed[i].season matches Some(n) ==> suggested(parsed).season == n
            &&& parsed[i].season is None ==> suggested(parsed).season == 1
        },
        (forall|j: int| 0 <= j < parsed.len() ==> (#[trigger] parsed[j]).name is None)
            ==> suggested(parsed).name.len() == 0 && suggested(parsed).season == 1,
    decreases parsed.len(),
{
    if parsed.len() > 0 {
        let init = parsed.drop_last();
        let last = parsed.len() - 1;
        assert forall|j: int| 0 <= j < last implies #[trigger] parsed[j] == init[j] by {
        }
        law_name_and_season_come_from_one_title(init, i);
        if is_first_named(parsed, i) {
            if i < last {
                assert forall|j: int| 0 <= j < i implies ((#[trigger] init[j]).name matches Some(name)
                    ==> name.len() == 0) by {
                    assert(init[j] == parsed[j]);
                }
                assert(is_first_named(init, i));
            } else {
                assert forall|j: int| 0 <= j < init.len() implies ((
                #[trigger] init[j]).name matches Some(name) ==> name.len() == 0) by {
                    assert(init[j] == parsed[j]);
                }
                lemma_no_name(init);
            }
        }
        if forall|j: int| 0 <= j < parsed.len() ==> (#[trigger] parsed[j]).name is None {
            assert forall|j: int| 0 <= j < init.len() implies (#[trigger] init[j]).name is None by {
                assert(init[j] == parsed[j]);
            }
            assert(parsed[last].name is None);
        }
    }
}

proof fn lemma_no_name(parsed: Seq<ParsedTitleView>)
    requires
        forall|j: int|
            0 <= j < parsed.len() ==> ((#[trigger] parsed[j]).name matches Some(name)
                ==> name.len() == 0),
    ensures
        suggested(parsed).name.len() == 0,
    decreases parsed.len(),
{
    if parsed.len() > 0 {
        let init = parsed.drop_last();
        assert forall|j: int| 0 <= j < init.len() implies ((#[trigger] init[j]).name matches Some(
            name,
        ) ==> name.len() == 0) by {
            assert(init[j] == parsed[j]);
        }
        lemma_no_name(init);
        assert(parsed.last() == parsed[parsed.len() - 1]);
    }
}

/// The suggested group is that of the first title with a group.
pub proof fn law_group_comes_from_the_first_title_with_one(parsed: Seq<ParsedTitleView>, i: int)
    ensures
        0 <= i < parsed.len() && parsed[i].group is Some && (forall|j: int|
            0 <= j < i ==> (#[trigger] parsed[j]).group is None) ==> suggested(parsed).group
            == parsed[i].group,
        (forall|j: int| 0 <= j < parsed.len() ==> (#[trigger] parsed[j]).group is None)
            ==> suggested(parsed).group is None,
    decreases parsed.len(),
{
    if parsed.len() > 0 {
        let init = parsed.drop_last();
        let last = parsed.len() - 1;
        assert forall|j: int| 0 <= j < last implies #[trigger] init[j] == parsed[j] by {
        }
        law_group_comes_from_the_first_title_with_one(init, i);
        assert(parsed.last() == parsed[last]);
        if forall|j: int| 0 <= j < parsed.len() ==> (#[trigger] parsed[j]).group is None {
            assert(forall|j: int| 0 <= j < init.len() ==> (#[trigger] init[j]).group is None);
        }
        if 0 <= i < parsed.len() && parsed[i].group is Some && (forall|j: int|
            0 <= j < i ==> (#[trigger] parsed[j]).group is None) {
            assert(forall|j: int| 0 <= j < i && j < init.len() ==> (#[trigger] init[j]).group is None);
        }
    }
}

/// The preview of a feed shows the name of the first of its titles that has one, with the season
/// of that title, and the first title as it stands where none has a name; in either case all
/// titles as they stand, the first release group, and the latest episode that a title carries.
pub proof fn law_preview_shows_the_titles(
    titles: Seq<Seq<char>>,
    info: Option<BangumiInfoView>,
    i: int,
)
    ensures
        ({
            let s = with_fallback(suggested(parsed_titles(titles)), titles);
            let shown = preview_of(s, titles, info);
            &&& shown.sample_titles == titles
            &&& 0 <= i < titles.len() && tokenizer::parsed_title(titles[i]).name is Some && (forall|
                j: int,
            |
                0 <= j < i ==> tokenizer::parsed_title(#[trigger] titles[j]).name is None) ==> {
                &&& Some(shown.suggested_name) == tokenizer::parsed_title(titles[i]).name
                &&& tokenizer::parsed_title(titles[i]).season matches Some(n)
                    ==> shown.suggested_season == n
                &&& tokenizer::parsed_title(titles[i]).season is None ==> shown.suggested_season
                    == 1
            }
            &&& titles.len() > 0 && (forall|j: int|
                0 <= j < titles.len() ==> tokenizer::parsed_title(#[trigger] titles[j]).name is None)
                ==> shown.suggested_name == titles[0] && shown.suggested_season == 1
            &&& titles.len() == 0 ==> shown.suggested_name.len() == 0 && shown.suggested_season == 1
            &&& 0 <= i < titles.len() && tokenizer::parsed_title(titles[i]).group is Some && (
            forall|j: int|
                0 <= j < i ==> tokenizer::parsed_title(#[trigger] titles[j]).group is None)
                ==> shown.group == tokenizer::parsed_title(titles[i]).group
            &&& (forall|j: int|
                0 <= j < titles.len() ==> tokenizer::parsed_title(#[trigger] titles[j]).group is None)
                ==> shown.group is None
            &&& shown.latest_episode matches Some(n) ==> exists|j: int|
                0 <= j < titles.len() && (tokenizer::parsed_title(
                    #[trigger] titles[j],
                ).episode matches Some(e) && single::decimal_whole(e) == n)
            &&& 0 <= i < titles.len() ==> (tokenizer::parsed_title(titles[i]).episode matches Some(e)
                ==> (shown.latest_episode matches Some(n) && single::decimal_whole(e) <= n))
        }),
{
    let parsed = parsed_titles(titles);
    assert forall|j: int| 0 <= j < titles.len() implies #[trigger] parsed[j]
        == tokenizer::parsed_title(titles[j]) by {
    }
    law_name_and_season_come_from_one_title(parsed, i);
    law_group_comes_from_the_first_title_with_one(parsed, i);
    law_latest_episode_is_the_largest(parsed);
    if 0 <= i < titles.len() && tokenizer::parsed_title(titles[i]).name is Some && (forall|j: int|
        0 <= j < i ==> tokenizer::parsed_title(#[trigger] titles[j]).name is None) {
        tokenizer::law_names_are_not_blank(titles[i]);
        assert(is_first_named(parsed, i));
    }
    if let Some(n) = suggested(parsed).latest_episode {
        let j = choose|j: int|
            0 <= j < parsed.len() && ((#[trigger] parsed[j]).episode matches Some(e)
                && single::decimal_whole(e) == n);
        assert(parsed[j] == tokenizer::parsed_title(titles[j]));
    }
    if 0 <= i < titles.len() {
        assert(parsed[i] == tokenizer::parsed_title(titles[i]));
    }
}

/// A preview shows metadata exactly if there is any, as it was found but for its cover image: that
/// is shown through the server's image proxy, which is handed the image's own address, and only if
/// there is one.
pub proof fn law_preview_shows_the_metadata(
    s: SuggestionView,
    titles: Seq<Seq<char>>,
    info: Option<BangumiInfoView>,
)
    ensures
        ({
            let shown = preview_of(s, titles, info);
            &&& shown.suggested_name == s.name && shown.suggested_season == s.season
            &&& shown.bangumi_info is Some <==> info is Some
            &&& info matches Some(found) ==> (shown.bangumi_info matches Some(i) && i
                == (BangumiInfoView { image_url: i.image_url, ..found }) && (found.image_url.len()
                == 0 ==> i.image_url.len() == 0) && (found.image_url.len() > 0 ==> i.image_url
                == "/api/bangumi/image?url="@ + encode::link_encoded(found.image_url)))
        }),
{
}

} // verus!
