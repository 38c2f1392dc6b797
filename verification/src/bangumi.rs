//! Bangumi (bgm.tv) API: request URLs and what is made of the replies.
//!
//! - Search: `GET /search/subject/{keyword}?responseGroup=medium&max_results=5`
//! - Detail: `GET /subject/{id}?responseGroup=large`
use vstd::prelude::*;

use crate::encode;
use crate::text;
use crate::types::{self, BangumiInfo, BangumiInfoView};

verus! {

/// The API base URL used where none is configured.
pub const DEFAULT_API_BASE: &'static str = "https://api.bgm.tv";

/// Cover images of a subject, by size.
#[derive(Debug, PartialEq)]
pub struct BgmImages {
    pub large: Option<String>,
    pub common: Option<String>,
    pub medium: Option<String>,
    pub small: Option<String>,
    pub grid: Option<String>,
}

/// The first size that is present, in the order common, large, medium, small, grid.
pub open spec fn best_image(images: BgmImages) -> Seq<char> {
    if images.common is Some {
        images.common->Some_0@
    } else if images.large is Some {
        images.large->Some_0@
    } else if images.medium is Some {
        images.medium->Some_0@
    } else if images.small is Some {
        images.small->Some_0@
    } else if images.grid is Some {
        images.grid->Some_0@
    } else {
        ""@
    }
}

impl BgmImages {
    /// The URL of the preferred size; empty where there is no image.
    pub fn best_url(&self) -> (r: &str)
        ensures
            r@ == best_image(*self),
    {
        if let Some(url) = &self.common {
            return url.as_str();
        }
        if let Some(url) = &self.large {
            return url.as_str();
        }
        if let Some(url) = &self.medium {
            return url.as_str();
        }
        if let Some(url) = &self.small {
            return url.as_str();
        }
        if let Some(url) = &self.grid {
            return url.as_str();
        }
        ""
    }
}

/// Rating of a subject.
#[derive(Debug, PartialEq)]
pub struct BgmRating {
    /// Average score, in decimal notation.
    pub score: Option<String>,
    /// Number of votes.
    pub total: Option<u32>,
}

/// Detail reply for a subject.
#[derive(Debug, PartialEq)]
pub struct BgmSubject {
    pub name_cn: String,
    pub name: String,
    pub summary: String,
    pub eps_count: Option<u32>,
    pub rating: Option<BgmRating>,
    pub air_date: String,
    pub images: Option<BgmImages>,
    pub error: Option<String>,
    pub rank: u32,
    pub air_weekday: Option<u8>,
}

/// The base URL of the API: what it was set to first, the public API until then.
#[derive(Debug)]
pub struct ApiBase {
    url: Option<String>,
}

impl View for ApiBase {
    type V = Option<Seq<char>>;

    closed spec fn view(&self) -> Option<Seq<char>> {
        text::opt(self.url)
    }
}

impl ApiBase {
    /// A base URL that was not set.
    pub fn new() -> (r: ApiBase)
        ensures
            r@ is None,
    {
        ApiBase { url: None }
    }

    /// Sets the base URL. Once it is set, it stays as it is.
    pub fn init_api_base(&mut self, url: String)
        ensures
            final(self)@ == (match old(self)@ {
                Some(set) => Some(set),
                None => Some(url@),
            }),
    {
        if self.url.is_none() {
            self.url = Some(url);
        }
    }

    /// The base URL.
    pub fn base_url(&self) -> (r: &str)
        ensures
            r@ == (match self@ {
                Some(set) => set,
                None => DEFAULT_API_BASE@,
            }),
    {
        match &self.url {
            Some(set) => set.as_str(),
            None => DEFAULT_API_BASE,
        }
    }
}

/// The URL of a search by keyword.
pub fn search_url(base: &str, keyword: &str) -> (r: String)
    ensures
        r@ == base@ + "/search/subject/"@ + encode::keyword_encoded(keyword@)
            + "?responseGroup=medium&max_results=5"@,
{
    let mut out = base.to_owned();
    out.append("/search/subject/");
    out.append(&encode::encode_keyword(keyword));
    out.append("?responseGroup=medium&max_results=5");
    out
}

/// The URL of the detail of a subject.
pub fn detail_url(base: &str, subject_id: u32) -> (r: String)
    ensures
        r@ == base@ + "/subject/"@ + text::decimal(subject_id as nat) + "?responseGroup=large"@,
{
    let mut out = base.to_owned();
    out.append("/subject/");
    out.append(&text::decimal_text(subject_id as u64));
    out.append("?responseGroup=large");
    out
}

/// The subject that a search is answered with: the first of the list.
pub fn search(ids: &Option<Vec<u32>>) -> (r: Option<u32>)
    ensures
        r == (match *ids {
            Some(list) => if list@.len() > 0 {
                Some(list@[0])
            } else {
                None
            },
            None => None,
        }),
{
    match ids {
        Some(list) => if list.len() > 0 {
            Some(list[0])
        } else {
            None
        },
        None => None,
    }
}

/// The first `n` characters of a text.
pub open spec fn at_most(s: Seq<char>, n: int) -> Seq<char> {
    if s.len() <= n {
        s
    } else {
        s.take(n)
    }
}

fn cut(s: &str, n: usize) -> (r: String)
    ensures
        r@ == at_most(s@, n as int),
{
    let chars = text::chars_of(s);
    if chars.len() <= n {
        s.to_owned()
    } else {
        let head = text::text_of(&chars, 0, n);
        assert(head@ =~= s@.take(n as int));
        head
    }
}

/// The metadata that a subject gives; none where the reply carries an error or no name.
pub open spec fn info_of(id: u32, subject: BgmSubject) -> Option<BangumiInfoView> {
    if subject.error is Some || (subject.name_cn@.len() == 0 && subject.name@.len() == 0) {
        None
    } else {
        Some(
            BangumiInfoView {
                bangumi_id: id,
                name_cn: subject.name_cn@,
                name: subject.name@,
                summary: at_most(subject.summary@, 200),
                eps_count: subject.eps_count,
                rating: match subject.rating {
                    Some(r) => text::opt(r.score),
                    None => None,
                },
                score_count: match subject.rating {
                    Some(r) => r.total,
                    None => None,
                },
                air_date: subject.air_date@,
                image_url: match subject.images {
                    Some(images) => best_image(images),
                    None => ""@,
                },
                rank: if subject.rank > 0 {
                    Some(subject.rank)
                } else {
                    None
                },
                air_weekday: subject.air_weekday,
            },
        )
    }
}

/// Turns the detail reply for a subject into metadata.
pub fn detail(id: u32, subject: BgmSubject) -> (r: Option<BangumiInfo>)
    ensures
        types::info_view(r) == info_of(id, subject),
{
    if subject.error.is_some() || (subject.name_cn.as_str().is_empty()
        && subject.name.as_str().is_empty()) {
        return None;
    }
    let image_url = match &subject.images {
        Some(images) => images.best_url().to_owned(),
        None => "".to_owned(),
    };
    let (rating, score_count) = match subject.rating {
        Some(r) => (r.score, r.total),
        None => (None, None),
    };
    Some(
        BangumiInfo {
            bangumi_id: id,
            name_cn: subject.name_cn,
            name: subject.name,
            summary: cut(&subject.summary, 200),
            eps_count: subject.eps_count,
            rating,
            score_count,
            air_date: subject.air_date,
            image_url,
            rank: if subject.rank > 0 {
                Some(subject.rank)
            } else {
                None
            },
            air_weekday: subject.air_weekday,
        },
    )
}

// ── Laws ──

/// A subject is told exactly if it came without an error and has a name, with its own identifier,
/// names, number of episodes, rating, date and weekday. Its summary is at most two hundred
/// characters of the one it has, from the front, and a rank of 0 stands for none.
pub proof fn law_subject_is_told_as_it_is(id: u32, subject: BgmSubject)
    ensures
        info_of(id, subject) is Some <==> subject.error is None && (subject.name_cn@.len() > 0
            || subject.name@.len() > 0),
        info_of(id, subject) matches Some(info) ==> {
            &&& info.bangumi_id == id
            &&& info.name_cn == subject.name_cn@
            &&& info.name == subject.name@
            &&& info.summary.len() <= 200
            &&& info.summary.is_prefix_of(subject.summary@)
            &&& subject.summary@.len() <= 200 ==> info.summary == subject.summary@
            &&& subject.summary@.len() > 200 ==> info.summary.len() == 200
            &&& info.eps_count == subject.eps_count
            &&& subject.rating is None ==> info.rating is None && info.score_count is None
            &&& subject.rating matches Some(rating) ==> info.rating == text::opt(rating.score)
                && info.score_count == rating.total
            &&& info.air_date == subject.air_date@
            &&& info.rank == (if subject.rank == 0 {
                None
            } else {
                Some(subject.rank)
            })
            &&& info.air_weekday == subject.air_weekday
            &&& subject.images is None ==> info.image_url.len() == 0
            &&& subject.images matches Some(images) ==> is_best(images, info.image_url)
        },
{
    reveal_strlit("");
    if let Some(info) = info_of(id, subject) {
        let n = info.summary.len() as int;
        assert(subject.summary@.subrange(0, n) =~= info.summary);
    }
}

/// `url` is the image of the size that is liked best among those there are: common, large,
/// medium, small, grid, in this order. It is empty where there is none.
pub open spec fn is_best(images: BgmImages, url: Seq<char>) -> bool {
    &&& images.common matches Some(image) ==> url == image@
    &&& images.common is None ==> (images.large matches Some(image) ==> url == image@)
    &&& images.common is None && images.large is None ==> (images.medium matches Some(image)
        ==> url == image@)
    &&& images.common is None && images.large is None && images.medium is None ==> (
    images.small matches Some(image) ==> url == image@)
    &&& images.common is None && images.large is None && images.medium is None
        && images.small is None ==> (images.grid matches Some(image) ==> url == image@)
    &&& images.common is None && images.large is None && images.medium is None
        && images.small is None && images.grid is None ==> url.len() == 0
}

} // verus!
