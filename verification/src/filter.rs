//! Title filtering, feed by feed.
//!
//! A feed carries whitelist and blacklist words and an optional regular expression. Words are
//! case-insensitive substrings. [`validate`] checks a filter before it is persisted, [`compile`]
//! makes it ready for use, [`reject_reason`] tests one title.
use vstd::prelude::*;

use crate::pattern;
use crate::text;
use crate::types::{FeedFilter, FeedFilterView};

verus! {

// ── What a filter means ──

/// The first word that does not stand in `title`.
pub open spec fn first_missing(words: Seq<Seq<char>>, title: Seq<char>) -> Option<Seq<char>>
    decreases words.len(),
{
    if words.len() == 0 {
        None
    } else if !text::contains(title, words[0]) {
        Some(words[0])
    } else {
        first_missing(words.skip(1), title)
    }
}

/// The first word that stands in `title`.
pub open spec fn first_present(words: Seq<Seq<char>>, title: Seq<char>) -> Option<Seq<char>>
    decreases words.len(),
{
    if words.len() == 0 {
        None
    } else if text::contains(title, words[0]) {
        Some(words[0])
    } else {
        first_present(words.skip(1), title)
    }
}

/// The lower case of each word.
pub open spec fn lowercase_all(words: Seq<Seq<char>>) -> Seq<Seq<char>> {
    Seq::new(words.len(), |i: int| text::lowercase(words[i]))
}

/// Nothing to check.
pub open spec fn is_empty_filter(filter: FeedFilterView) -> bool {
    filter.includes.len() == 0 && filter.exclude.len() == 0 && filter.regex is None
}

/// A filter made ready for use: words in lower case.
pub open spec fn compiled(filter: FeedFilterView) -> FeedFilterView {
    FeedFilterView {
        includes: lowercase_all(filter.includes),
        exclude: lowercase_all(filter.exclude),
        regex: filter.regex,
    }
}

/// Why a title is rejected, given the title in lower case and whether the pattern matches it:
/// the first failing rule, in the order whitelist, blacklist, pattern.
pub open spec fn rejection(
    filter: FeedFilterView,
    lower: Seq<char>,
    pattern_hit: bool,
) -> Option<RejectReasonView> {
    if first_missing(filter.includes, lower) is Some {
        Some(
            RejectReasonView::IncludeMissing { word: first_missing(filter.includes, lower)->Some_0 },
        )
    } else if first_present(filter.exclude, lower) is Some {
        Some(
            RejectReasonView::ExcludeMatched { word: first_present(filter.exclude, lower)->Some_0 },
        )
    } else if filter.regex is Some && !pattern_hit {
        Some(RejectReasonView::RegexNoMatch { pattern: filter.regex->Some_0 })
    } else {
        None
    }
}

/// Whether the pattern of a filter, if it has one, matches a title.
pub open spec fn regex_hit(filter: FeedFilterView, title: Seq<char>) -> bool {
    match filter.regex {
        Some(p) => pattern::pattern_matches(p, title),
        None => true,
    }
}

/// Whether a filter lets a title pass. One whose pattern is no regular expression lets none.
pub open spec fn accepts(filter: FeedFilterView, title: Seq<char>) -> bool {
    is_empty_filter(filter) || (!(filter.regex matches Some(p) && pattern::pattern_error(p) is Some)
        && rejection(compiled(filter), text::lowercase(title), regex_hit(filter, title)) is None)
}

// ── Types ──

/// A filter ready for use. Build it with [`compile`], test titles with [`reject_reason`].
#[derive(Debug)]
pub struct CompiledFilter {
    /// Whitelist words in lower case.
    includes: Vec<String>,
    /// Blacklist words in lower case.
    exclude: Vec<String>,
    /// A pattern that is a regular expression.
    regex: Option<String>,
}

impl View for CompiledFilter {
    type V = FeedFilterView;

    closed spec fn view(&self) -> FeedFilterView {
        FeedFilterView {
            includes: text::views(self.includes@),
            exclude: text::views(self.exclude@),
            regex: text::opt(self.regex),
        }
    }
}

impl CompiledFilter {
    #[verifier::type_invariant]
    spec fn pattern_is_valid(self) -> bool {
        self.regex matches Some(p) ==> pattern::pattern_error(p@) is None
    }
}

/// A pattern that is no regular expression.
#[derive(Debug, PartialEq)]
pub struct PatternError {
    pub message: String,
}

/// Why a title was rejected: the first failing rule with the word or pattern that triggered it.
#[derive(Debug, PartialEq, Eq)]
pub enum RejectReason {
    /// A whitelist word is missing from the title.
    IncludeMissing { word: String },
    /// A blacklist word was found in the title.
    ExcludeMatched { word: String },
    /// The pattern did not match the title.
    RegexNoMatch { pattern: String },
}

#[verifier::ext_equal]
pub enum RejectReasonView {
    IncludeMissing { word: Seq<char> },
    ExcludeMatched { word: Seq<char> },
    RegexNoMatch { pattern: Seq<char> },
}

impl View for RejectReason {
    type V = RejectReasonView;

    open spec fn view(&self) -> RejectReasonView {
        match self {
            RejectReason::IncludeMissing { word } => RejectReasonView::IncludeMissing {
                word: word@,
            },
            RejectReason::ExcludeMatched { word } => RejectReasonView::ExcludeMatched {
                word: word@,
            },
            RejectReason::RegexNoMatch { pattern } => RejectReasonView::RegexNoMatch {
                pattern: pattern@,
            },
        }
    }
}

/// The view of an optional rejection.
pub open spec fn reason_view(reason: Option<RejectReason>) -> Option<RejectReasonView> {
    match reason {
        Some(x) => Some(x@),
        None => None,
    }
}

/// A reason in words.
pub open spec fn reason_text(reason: RejectReasonView) -> Seq<char> {
    match reason {
        RejectReasonView::IncludeMissing { word } => "missing include word: "@ + word,
        RejectReasonView::ExcludeMatched { word } => "excluded word matched: "@ + word,
        RejectReasonView::RegexNoMatch { pattern } => "regex did not match: "@ + pattern,
    }
}

impl RejectReason {
    /// The reason in words.
    pub fn to_text(&self) -> (r: String)
        ensures
            r@ == reason_text(self@),
    {
        match self {
            RejectReason::IncludeMissing { word } => text::join2("missing include word: ", word),
            RejectReason::ExcludeMatched { word } => text::join2("excluded word matched: ", word),
            RejectReason::RegexNoMatch { pattern } => text::join2("regex did not match: ", pattern),
        }
    }
}

// ── Operations ──

fn lowercase_words(words: &Vec<String>) -> (r: Vec<String>)
    ensures
        text::views(r@) == lowercase_all(text::views(words@)),
{
    let mut out: Vec<String> = Vec::new();
    let mut i: usize = 0;
    while i < words.len()
        invariant
            i <= words@.len(),
            out@.len() == i,
            forall|j: int| 0 <= j < i ==> out@[j]@ == text::lowercase(words@[j]@),
        decreases words@.len() - i,
    {
        out.push(words[i].to_lowercase());
        i = i + 1;
    }
    out
}

/// Makes a filter ready for use. `Ok(None)` when there is nothing to check; an error exactly
/// when the pattern is no regular expression.
pub fn compile(filter: &FeedFilter) -> (r: Result<Option<CompiledFilter>, PatternError>)
    ensures
        is_empty_filter(filter@) ==> r is Ok && r->Ok_0 is None,
        !is_empty_filter(filter@) ==> match r {
            Ok(c) => !(filter@.regex matches Some(p) && pattern::pattern_error(p) is Some) && (
            c matches Some(ready) && ready@ == compiled(filter@)),
            Err(e) => filter@.regex matches Some(p) && pattern::pattern_error(p) == Some(e.message@),
        },
{
    if filter.includes.len() == 0 && filter.exclude.len() == 0 && filter.regex.is_none() {
        return Ok(None);
    }
    if let Some(p) = &filter.regex {
        if let Some(message) = pattern::check_pattern(p) {
            return Err(PatternError { message });
        }
    }
    Ok(
        Some(
            CompiledFilter {
                includes: lowercase_words(&filter.includes),
                exclude: lowercase_words(&filter.exclude),
                regex: text::clone_opt(&filter.regex),
            },
        ),
    )
}

/// Some word of a list is empty once trimmed.
pub open spec fn has_blank(words: Seq<Seq<char>>) -> bool {
    exists|i: int| 0 <= i < words.len() && text::trimmed(#[trigger] words[i]).len() == 0
}

fn any_blank(words: &Vec<String>) -> (r: bool)
    ensures
        r == has_blank(text::views(words@)),
{
    let mut i: usize = 0;
    while i < words.len()
        invariant
            i <= words@.len(),
            forall|j: int|
                0 <= j < i ==> text::trimmed(#[trigger] text::views(words@)[j]).len() > 0,
        decreases words@.len() - i,
    {
        let word = text::trim(&words[i]);
        if word.as_str().is_empty() {
            assert(text::trimmed(text::views(words@)[i as int]).len() == 0);
            return true;
        }
        i = i + 1;
    }
    false
}

/// What is wrong with a filter, given the error of its pattern: a blank word first, then the
/// pattern.
pub open spec fn filter_error(
    filter: FeedFilterView,
    pattern_error: Option<Seq<char>>,
) -> Option<Seq<char>> {
    if has_blank(filter.includes) || has_blank(filter.exclude) {
        Some("filter words must not be empty"@)
    } else if pattern_error is Some {
        Some("invalid regex: "@ + pattern_error->Some_0)
    } else {
        None
    }
}

/// The error of the pattern of a filter, if it has one that is no regular expression.
pub open spec fn regex_error(filter: FeedFilterView) -> Option<Seq<char>> {
    match filter.regex {
        Some(p) => pattern::pattern_error(p),
        None => None,
    }
}

/// Checks a filter given the error of its pattern.
pub fn validate_with(filter: &FeedFilter, pattern_error: Option<String>) -> (r: Result<(), String>)
    ensures
        match r {
            Ok(_) => filter_error(filter@, text::opt(pattern_error)) is None,
            Err(e) => filter_error(filter@, text::opt(pattern_error)) == Some(e@),
        },
{
    if any_blank(&filter.includes) || any_blank(&filter.exclude) {
        return Err("filter words must not be empty".to_owned());
    }
    match pattern_error {
        Some(e) => Err(text::join2("invalid regex: ", &e)),
        None => Ok(()),
    }
}

/// Checks a filter before it is persisted: rejects blank words, which would stand in every title,
/// and a pattern that is no regular expression.
pub fn validate(filter: &FeedFilter) -> (r: Result<(), String>)
    ensures
        match r {
            Ok(_) => filter_error(filter@, regex_error(filter@)) is None,
            Err(e) => filter_error(filter@, regex_error(filter@)) == Some(e@),
        },
{
    let error = match &filter.regex {
        Some(p) => pattern::check_pattern(p),
        None => None,
    };
    validate_with(filter, error)
}

fn find_missing(words: &Vec<String>, title: &str) -> (r: Option<String>)
    ensures
        text::opt(r) == first_missing(text::views(words@), title@),
{
    let ghost all = text::views(words@);
    let mut i: usize = 0;
    assert(all.skip(0) =~= all);
    while i < words.len()
        invariant
            i <= words@.len(),
            all == text::views(words@),
            first_missing(all, title@) == first_missing(all.skip(i as int), title@),
        decreases words@.len() - i,
    {
        if !text::has_text(title, &words[i]) {
            return Some(words[i].clone());
        }
        assert(all.skip(i as int).skip(1) =~= all.skip(i + 1));
        i = i + 1;
    }
    None
}

fn find_present(words: &Vec<String>, title: &str) -> (r: Option<String>)
    ensures
        text::opt(r) == first_present(text::views(words@), title@),
{
    let ghost all = text::views(words@);
    let mut i: usize = 0;
    assert(all.skip(0) =~= all);
    while i < words.len()
        invariant
            i <= words@.len(),
            all == text::views(words@),
            first_present(all, title@) == first_present(all.skip(i as int), title@),
        decreases words@.len() - i,
    {
        if text::has_text(title, &words[i]) {
            return Some(words[i].clone());
        }
        assert(all.skip(i as int).skip(1) =~= all.skip(i + 1));
        i = i + 1;
    }
    None
}

/// Tests a title given in lower case against the words, and the outcome of the pattern.
pub fn reject_with(compiled: &CompiledFilter, lower: &str, pattern_hit: bool) -> (r: Option<
    RejectReason,
>)
    ensures
        reason_view(r) == rejection(compiled@, lower@, pattern_hit),
{
    if let Some(word) = find_missing(&compiled.includes, lower) {
        return Some(RejectReason::IncludeMissing { word });
    }
    if let Some(word) = find_present(&compiled.exclude, lower) {
        return Some(RejectReason::ExcludeMatched { word });
    }
    if let Some(pattern) = &compiled.regex {
        if !pattern_hit {
            return Some(RejectReason::RegexNoMatch { pattern: pattern.clone() });
        }
    }
    None
}

/// Tests one title: the first failing rule with its word or pattern, or `None` when the title
/// passes.
pub fn reject_reason(compiled: &CompiledFilter, title: &str) -> (r: Option<RejectReason>)
    ensures
        reason_view(r) == rejection(
            compiled@,
            text::lowercase(title@),
            regex_hit(compiled@, title@),
        ),
{
    proof {
        use_type_invariant(compiled);
    }
    let lower = title.to_lowercase();
    let hit = match &compiled.regex {
        Some(p) => pattern::is_match(p, title).unwrap_or(false),
        None => true,
    };
    reject_with(compiled, &lower, hit)
}

// ── Laws ──

proof fn lemma_first_missing(words: Seq<Seq<char>>, title: Seq<char>)
    ensures
        match first_missing(words, title) {
            Some(w) => exists|i: int|
                0 <= i < words.len() && #[trigger] words[i] == w && !text::contains(title, w)
                    && forall|j: int|
                    0 <= j < i ==> text::contains(title, #[trigger] words[j]),
            None => forall|j: int|
                0 <= j < words.len() ==> text::contains(title, #[trigger] words[j]),
        },
    decreases words.len(),
{
    if words.len() > 0 && text::contains(title, words[0]) {
        let rest = words.skip(1);
        lemma_first_missing(rest, title);
        match first_missing(rest, title) {
            Some(w) => {
                let i = choose|i: int|
                    0 <= i < rest.len() && #[trigger] rest[i] == w && !text::contains(title, w)
                        && forall|j: int|
                        0 <= j < i ==> text::contains(title, #[trigger] rest[j]);
                assert(words[i + 1] == w);
                assert forall|j: int| 0 <= j < i + 1 implies text::contains(
                    title,
                    #[trigger] words[j],
                ) by {
                    if j > 0 {
                        assert(rest[j - 1] == words[j]);
                    }
                }
            },
            None => {
                assert forall|j: int| 0 <= j < words.len() implies text::contains(
                    title,
                    #[trigger] words[j],
                ) by {
                    if j > 0 {
                        assert(rest[j - 1] == words[j]);
                    }
                }
            },
        }
    } else if words.len() > 0 {
        assert(words[0] == first_missing(words, title)->Some_0);
    }
}

proof fn lemma_first_present(words: Seq<Seq<char>>, title: Seq<char>)
    ensures
        match first_present(words, title) {
            Some(w) => exists|i: int|
                0 <= i < words.len() && #[trigger] words[i] == w && text::contains(title, w)
                    && forall|j: int|
                    0 <= j < i ==> !text::contains(title, #[trigger] words[j]),
            None => forall|j: int|
                0 <= j < words.len() ==> !text::contains(title, #[trigger] words[j]),
        },
    decreases words.len(),
{
    if words.len() > 0 && !text::contains(title, words[0]) {
        let rest = words.skip(1);
        lemma_first_present(rest, title);
        match first_present(rest, title) {
            Some(w) => {
                let i = choose|i: int|
                    0 <= i < rest.len() && #[trigger] rest[i] == w && text::contains(title, w)
                        && forall|j: int|
                        0 <= j < i ==> !text::contains(title, #[trigger] rest[j]);
                assert(words[i + 1] == w);
                assert forall|j: int| 0 <= j < i + 1 implies !text::contains(
                    title,
                    #[trigger] words[j],
                ) by {
                    if j > 0 {
                        assert(rest[j - 1] == words[j]);
                    }
                }
            },
            None => {
                assert forall|j: int| 0 <= j < words.len() implies !text::contains(
                    title,
                    #[trigger] words[j],
                ) by {
                    if j > 0 {
                        assert(rest[j - 1] == words[j]);
                    }
                }
            },
        }
    } else if words.len() > 0 {
        assert(words[0] == first_present(words, title)->Some_0);
    }
}

/// An empty filter accepts everything.
pub proof fn law_empty_filter_accepts(filter: FeedFilterView, title: Seq<char>)
    requires
        is_empty_filter(filter),
    ensures
        accepts(filter, title),
{
}

/// A title passes a filter whose pattern is valid exactly when it contains every whitelist word,
/// contains no blacklist word, both regardless of case, and matches the pattern.
pub proof fn law_rules_combine_with_and(filter: FeedFilterView, title: Seq<char>)
    requires
        regex_error(filter) is None,
    ensures
        accepts(filter, title) <==> {
            &&& forall|i: int|
                0 <= i < filter.includes.len() ==> text::contains(
                    text::lowercase(title),
                    text::lowercase(#[trigger] filter.includes[i]),
                )
            &&& forall|i: int|
                0 <= i < filter.exclude.len() ==> !text::contains(
                    text::lowercase(title),
                    text::lowercase(#[trigger] filter.exclude[i]),
                )
            &&& regex_hit(filter, title)
        },
{
    let lower = text::lowercase(title);
    let ready = compiled(filter);
    lemma_first_missing(ready.includes, lower);
    lemma_first_present(ready.exclude, lower);
    if first_missing(ready.includes, lower) is Some {
        let w = first_missing(ready.includes, lower)->Some_0;
        let i = choose|i: int|
            0 <= i < ready.includes.len() && #[trigger] ready.includes[i] == w && !text::contains(
                lower,
                w,
            );
        assert(!text::contains(lower, text::lowercase(filter.includes[i])));
    } else {
        assert forall|i: int| 0 <= i < filter.includes.len() implies text::contains(
            lower,
            text::lowercase(#[trigger] filter.includes[i]),
        ) by {
            assert(text::contains(lower, ready.includes[i]));
        }
        if first_present(ready.exclude, lower) is Some {
            let w = first_present(ready.exclude, lower)->Some_0;
            let i = choose|i: int|
                0 <= i < ready.exclude.len() && #[trigger] ready.exclude[i] == w && text::contains(
                    lower,
                    w,
                );
            assert(text::contains(lower, text::lowercase(filter.exclude[i])));
        } else {
            assert forall|i: int| 0 <= i < filter.exclude.len() implies !text::contains(
                lower,
                text::lowercase(#[trigger] filter.exclude[i]),
            ) by {
                assert(!text::contains(lower, ready.exclude[i]));
            }
        }
    }
}

/// The first failing rule wins, and it carries the first word that triggers it: a missing
/// whitelist word before any blacklist word, a blacklist word before the pattern.
pub proof fn law_first_failing_rule_wins(filter: FeedFilterView, lower: Seq<char>, hit: bool)
    ensures
        match rejection(filter, lower, hit) {
            Some(RejectReasonView::IncludeMissing { word }) => exists|i: int|
                0 <= i < filter.includes.len() && #[trigger] filter.includes[i] == word
                    && !text::contains(lower, word) && forall|j: int|
                    0 <= j < i ==> text::contains(lower, #[trigger] filter.includes[j]),
            Some(RejectReasonView::ExcludeMatched { word }) => {
                &&& forall|j: int|
                    0 <= j < filter.includes.len() ==> text::contains(
                        lower,
                        #[trigger] filter.includes[j],
                    )
                &&& exists|i: int|
                    0 <= i < filter.exclude.len() && #[trigger] filter.exclude[i] == word
                        && text::contains(lower, word) && forall|j: int|
                        0 <= j < i ==> !text::contains(lower, #[trigger] filter.exclude[j])
            },
            Some(RejectReasonView::RegexNoMatch { pattern }) => {
                &&& forall|j: int|
                    0 <= j < filter.includes.len() ==> text::contains(
                        lower,
                        #[trigger] filter.includes[j],
                    )
                &&& forall|j: int|
                    0 <= j < filter.exclude.len() ==> !text::contains(
                        lower,
                        #[trigger] filter.exclude[j],
                    )
                &&& filter.regex == Some(pattern)
                &&& !hit
            },
            None => filter.regex is Some ==> hit,
        },
{
    lemma_first_missing(filter.includes, lower);
    lemma_first_present(filter.exclude, lower);
}

/// A title passes a filter with a pattern only if the pattern matches the title as it stands; a
/// filter whose pattern is no regular expression lets no title pass.
pub proof fn law_pattern_decides(filter: FeedFilterView, p: Seq<char>, title: Seq<char>)
    requires
        filter.regex == Some(p),
    ensures
        pattern::pattern_error(p) is Some ==> !accepts(filter, title),
        accepts(filter, title) ==> pattern::pattern_matches(p, title),
        pattern::pattern_error(p) is None && pattern::pattern_matches(p, title)
            && filter.includes.len() == 0 && filter.exclude.len() == 0 ==> accepts(filter, title),
{
    if pattern::pattern_error(p) is None {
        law_rules_combine_with_and(filter, title);
    }
}

/// A filter is in order exactly if none of its words is blank and its pattern, if it has one, is a
/// regular expression; else the error says which of the two is wrong, blank words first.
pub proof fn law_filters_are_checked(filter: FeedFilterView)
    ensures
        ({
            let blank = (exists|i: int|
                0 <= i < filter.includes.len() && is_blank(#[trigger] filter.includes[i])) || (
            exists|i: int|
                0 <= i < filter.exclude.len() && is_blank(#[trigger] filter.exclude[i]));
            let error = filter_error(filter, regex_error(filter));
            &&& blank ==> error == Some("filter words must not be empty"@)
            &&& !blank ==> (match filter.regex {
                Some(p) => match pattern::pattern_error(p) {
                    Some(why) => error == Some("invalid regex: "@ + why),
                    None => error is None,
                },
                None => error is None,
            })
        }),
{
    assert forall|words: Seq<Seq<char>>| #[trigger] has_blank(words) == (exists|i: int|
        0 <= i < words.len() && is_blank(#[trigger] words[i])) by {
        if has_blank(words) {
            let i = choose|i: int|
                0 <= i < words.len() && text::trimmed(#[trigger] words[i]).len() == 0;
            text::law_blank_text_is_trimmed_away(words[i]);
            assert(is_blank(words[i]));
        }
        if exists|i: int| 0 <= i < words.len() && is_blank(#[trigger] words[i]) {
            let i = choose|i: int| 0 <= i < words.len() && is_blank(#[trigger] words[i]);
            text::law_blank_text_is_trimmed_away(words[i]);
            assert(text::trimmed(words[i]).len() == 0);
        }
    }
    let a = filter.includes;
    let b = filter.exclude;
    if has_blank(a) {
        let i = choose|i: int| 0 <= i < a.len() && is_blank(#[trigger] a[i]);
        assert(is_blank(filter.includes[i]));
    }
    if has_blank(b) {
        let i = choose|i: int| 0 <= i < b.len() && is_blank(#[trigger] b[i]);
        assert(is_blank(filter.exclude[i]));
    }
}

/// A word of nothing but white space.
pub open spec fn is_blank(word: Seq<char>) -> bool {
    forall|i: int| 0 <= i < word.len() ==> text::white(#[trigger] word[i])
}

} // verus!
