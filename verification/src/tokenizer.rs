//! Tokenizes anime torrent titles:
//!
//! - `[Group] Name 第二季 / English Name - 01 [Tags]`
//! - `[Group]Name - 01 [Tags]`
//! - `[Group] Name - 01v2 [Tags]`
use vstd::prelude::*;

use crate::pattern;
use crate::single;
use crate::text;

verus! {

// ── Patterns ──

/// `[Group]` or `【Group】` at the front.
pub const GROUP: &'static str = r"^[\[【]([^\]】]+)[\]】]";

/// `★…★` metadata blocks.
pub const STARS: &'static str = r"★[^★]+★\s*";

/// Season markers.
pub const SEASON: &'static str =
    r"(?:第([零一二两三四五六七八九十百\d]+)[季期]|(\d)(?:nd|rd|th)?\s*Season|S(\d))\s*";

/// Episode number with an optional revision, followed by a bracket or the end.
pub const EPISODE: &'static str =
    r"(?:[-–—\s]+|\[)(\d+(?:\.\d+)?)(?:v(\d+))?\s*(?:\]|\[|\(|$)";

/// Bracketed tags, and a parenthesis at the end.
pub const TAGS: &'static str = r"\[[^\]]+\]|【[^】]+】|\([^)]*\)$";

/// A range of episode numbers such as `01-12` or `01~12`.
pub const BATCH: &'static str = r"\b(\d{1,3})[-~～](\d{1,3})\b";

/// The groups of the leftmost match of a pattern, if it is a regular expression with a match.
pub open spec fn groups_in(pattern: Seq<char>, s: Seq<char>) -> Option<Seq<Option<Seq<char>>>> {
    if pattern::pattern_error(pattern) is None {
        pattern::pattern_groups(pattern, s)
    } else {
        None
    }
}

/// A text without the matches of a pattern, if it is a regular expression.
pub open spec fn without_matches(pattern: Seq<char>, s: Seq<char>) -> Seq<char> {
    if pattern::pattern_error(pattern) is None {
        pattern::pattern_removed(pattern, s)
    } else {
        s
    }
}

/// What group `i` of a match holds.
pub open spec fn group(found: Option<Seq<Option<Seq<char>>>>, i: int) -> Option<Seq<char>> {
    match found {
        Some(groups) => if 0 <= i < groups.len() {
            groups[i]
        } else {
            None
        },
        None => None,
    }
}

fn get_group(found: &Option<Vec<Option<String>>>, i: usize) -> (r: Option<String>)
    ensures
        text::opt(r) == group(pattern::match_view(*found), i as int),
{
    match found {
        Some(groups) => if i < groups.len() {
            text::clone_opt(&groups[i])
        } else {
            None
        },
        None => None,
    }
}

fn remove_matches(pattern: &str, s: &str) -> (r: String)
    ensures
        r@ == without_matches(pattern@, s@),
{
    match pattern::remove_matches(pattern, s) {
        Some(rest) => rest,
        None => s.to_owned(),
    }
}

// ── Episode numbers ──

/// The decimal literal that an episode number is read as; 0 where the text is none.
pub open spec fn read_number(s: Seq<char>) -> Seq<char> {
    if single::is_decimal(s) {
        s
    } else {
        "0"@
    }
}

/// An episode number as it stands in a title: a decimal literal such as `01` or `12.5`.
#[derive(Debug, PartialEq, Eq)]
pub struct EpisodeNumber {
    literal: String,
}

impl View for EpisodeNumber {
    type V = Seq<char>;

    closed spec fn view(&self) -> Seq<char> {
        self.literal@
    }
}

impl EpisodeNumber {
    #[verifier::type_invariant]
    spec fn literal_is_decimal(self) -> bool {
        single::is_decimal(self.literal@)
    }

    /// Reads an episode number; 0 where the text is no decimal literal.
    pub fn read(s: &str) -> (r: EpisodeNumber)
        ensures
            r@ == read_number(s@),
    {
        if is_decimal_text(s) {
            EpisodeNumber { literal: s.to_owned() }
        } else {
            proof {
                reveal_strlit("0");
                let zero = "0"@;
                text::lemma_find_from(zero, seq!['.'], 0);
                assert forall|i: int| !text::occurs_at(zero, seq!['.'], i) by {
                    if text::occurs_at(zero, seq!['.'], i) {
                        assert(zero.subrange(i, i + 1)[0] == '.');
                    }
                }
                assert(text::is_digit(zero[0]));
            }
            EpisodeNumber { literal: "0".to_owned() }
        }
    }

    /// The literal.
    pub fn as_text(&self) -> (r: &str)
        ensures
            r@ == self@,
            single::is_decimal(r@),
    {
        proof {
            use_type_invariant(self);
        }
        self.literal.as_str()
    }

    /// The whole part of the number, as single precision holds it.
    pub fn whole(&self) -> (r: u32)
        ensures
            r == single::decimal_whole(self@),
    {
        proof {
            use_type_invariant(self);
        }
        single::single_from_decimal(&self.literal)
    }
}

fn digits_between(chars: &Vec<char>, from: usize, to: usize) -> (r: bool)
    requires
        from <= to <= chars@.len(),
    ensures
        r == text::all_digits(chars@.subrange(from as int, to as int)),
{
    let mut i: usize = from;
    while i < to
        invariant
            from <= i <= to <= chars@.len(),
            forall|j: int| from <= j < i ==> text::is_digit(#[trigger] chars@[j]),
        decreases to - i,
    {
        if chars[i] < '0' || '9' < chars[i] {
            assert(!text::is_digit(chars@.subrange(from as int, to as int)[i - from]));
            return false;
        }
        i = i + 1;
    }
    true
}

fn is_decimal_text(s: &str) -> (r: bool)
    ensures
        r == single::is_decimal(s@),
{
    let chars = text::chars_of(s);
    let n: usize = chars.len();
    let mut point: Vec<char> = Vec::new();
    point.push('.');
    assert(point@ =~= seq!['.']);
    match text::find_chars(&chars, &point) {
        Some(i) => {
            assert(chars@.subrange(0, i as int) =~= s@.take(i as int));
            assert(chars@.subrange(i + 1, n as int) =~= s@.skip(i + 1));
            0 < i && i < n - 1 && digits_between(&chars, 0, i) && digits_between(&chars, i + 1, n)
        },
        None => {
            assert(chars@.subrange(0, n as int) =~= s@);
            n > 0 && digits_between(&chars, 0, n)
        },
    }
}

// ── Parts of a title ──

/// A tokenized title.
#[derive(Debug, PartialEq)]
pub struct ParsedTitle {
    pub group: Option<String>,
    /// Chinese or original name.
    pub name: Option<String>,
    /// Japanese or romaji name (after the slash).
    pub name_jp: Option<String>,
    pub season: Option<u8>,
    pub episode: Option<EpisodeNumber>,
    /// Revision, such as 2 in `01v2`.
    pub revision: Option<u8>,
}

#[verifier::ext_equal]
pub struct ParsedTitleView {
    pub group: Option<Seq<char>>,
    pub name: Option<Seq<char>>,
    pub name_jp: Option<Seq<char>>,
    pub season: Option<u8>,
    pub episode: Option<Seq<char>>,
    pub revision: Option<u8>,
}

/// The view of an optional episode number.
pub open spec fn episode_view(episode: Option<EpisodeNumber>) -> Option<Seq<char>> {
    match episode {
        Some(e) => Some(e@),
        None => None,
    }
}

impl View for ParsedTitle {
    type V = ParsedTitleView;

    open spec fn view(&self) -> ParsedTitleView {
        ParsedTitleView {
            group: text::opt(self.group),
            name: text::opt(self.name),
            name_jp: text::opt(self.name_jp),
            season: self.season,
            episode: episode_view(self.episode),
            revision: self.revision,
        }
    }
}

/// The release group, and what is left of the title behind it.
pub open spec fn after_group(
    raw: Seq<char>,
    found: Option<Seq<Option<Seq<char>>>>,
) -> (Option<Seq<char>>, Seq<char>) {
    match (group(found, 0), group(found, 1)) {
        (Some(whole), Some(name)) => (Some(name), text::trimmed(raw.skip(whole.len() as int))),
        _ => (None, raw),
    }
}

/// Takes the release group off the front of a title, given the match of [`GROUP`] in it.
pub fn split_group(raw: &str, found: &Option<Vec<Option<String>>>) -> (r: (Option<String>, String))
    requires
        group(pattern::match_view(*found), 0) matches Some(whole) ==> whole.len() <= raw@.len(),
    ensures
        (text::opt(r.0), r.1@) == after_group(raw@, pattern::match_view(*found)),
{
    let whole = get_group(found, 0);
    let name = get_group(found, 1);
    match (whole, name) {
        (Some(w), Some(g)) => {
            let chars = text::chars_of(raw);
            let n: usize = text::chars_of(&w).len();
            let rest = text::text_of(&chars, n, chars.len());
            assert(rest@ =~= raw@.skip(n as int));
            (Some(g), text::trim(&rest))
        },
        _ => (None, raw.to_owned()),
    }
}

/// The names before and behind a spaced slash.
pub open spec fn names(rest: Seq<char>) -> (Seq<char>, Option<Seq<char>>) {
    match text::find(rest, seq![' ', '/', ' ']) {
        Some(i) => (text::trimmed(rest.take(i)), Some(text::trimmed(rest.skip(i + 3)))),
        None => (rest, None),
    }
}

/// Splits a title at its first spaced slash: Chinese name before, romaji behind.
pub fn split_names(rest: &str) -> (r: (String, Option<String>))
    ensures
        (r.0@, text::opt(r.1)) == names(rest@),
{
    let chars = text::chars_of(rest);
    let mut slash: Vec<char> = Vec::new();
    slash.push(' ');
    slash.push('/');
    slash.push(' ');
    assert(slash@ =~= seq![' ', '/', ' ']);
    let n: usize = chars.len();
    match text::find_chars(&chars, &slash) {
        Some(i) => {
            let left = text::text_of(&chars, 0, i);
            let right = text::text_of(&chars, i + 3, n);
            assert(left@ =~= rest@.take(i as int));
            assert(right@ =~= rest@.skip(i + 3));
            (text::trim(&left), Some(text::trim(&right)))
        },
        None => (rest.to_owned(), None),
    }
}

/// A season number in Chinese numerals up to ten, or in digits.
pub open spec fn cn_number(s: Seq<char>) -> Option<u8> {
    if s == "零"@ || s == "〇"@ {
        Some(0)
    } else if s == "一"@ {
        Some(1)
    } else if s == "二"@ || s == "两"@ {
        Some(2)
    } else if s == "三"@ {
        Some(3)
    } else if s == "四"@ {
        Some(4)
    } else if s == "五"@ {
        Some(5)
    } else if s == "六"@ {
        Some(6)
    } else if s == "七"@ {
        Some(7)
    } else if s == "八"@ {
        Some(8)
    } else if s == "九"@ {
        Some(9)
    } else if s == "十"@ {
        Some(10)
    } else {
        small_number(s)
    }
}

/// A number from 0 to 255 in digits.
pub open spec fn small_number(s: Seq<char>) -> Option<u8> {
    match text::parsed_uint(s, 255) {
        Some(n) => Some(n as u8),
        None => None,
    }
}

fn parse_small(s: &str) -> (r: Option<u8>)
    ensures
        r == small_number(s@),
{
    match text::parse_uint(s, 255) {
        Some(n) => Some(n as u8),
        None => None,
    }
}

/// Reads a season number in Chinese numerals up to ten, or in digits.
pub fn parse_cn_number(s: &str) -> (r: Option<u8>)
    ensures
        r == cn_number(s@),
{
    if *s == *"零" || *s == *"〇" {
        Some(0)
    } else if *s == *"一" {
        Some(1)
    } else if *s == *"二" || *s == *"两" {
        Some(2)
    } else if *s == *"三" {
        Some(3)
    } else if *s == *"四" {
        Some(4)
    } else if *s == *"五" {
        Some(5)
    } else if *s == *"六" {
        Some(6)
    } else if *s == *"七" {
        Some(7)
    } else if *s == *"八" {
        Some(8)
    } else if *s == *"九" {
        Some(9)
    } else if *s == *"十" {
        Some(10)
    } else {
        parse_small(s)
    }
}

/// The first of three groups that took part in a match.
pub open spec fn first_group(found: Option<Seq<Option<Seq<char>>>>) -> Option<Seq<char>> {
    if group(found, 1) is Some {
        group(found, 1)
    } else if group(found, 2) is Some {
        group(found, 2)
    } else {
        group(found, 3)
    }
}

/// The season, and the name without the season marker.
pub open spec fn after_season(
    left: Seq<char>,
    found: Option<Seq<Option<Seq<char>>>>,
) -> (Option<u8>, Seq<char>) {
    match (group(found, 0), first_group(found)) {
        (Some(whole), Some(number)) => (
            cn_number(number),
            text::trimmed(text::replaced(left, whole, seq![])),
        ),
        _ => (None, left),
    }
}

/// Takes the season marker out of a name, given the match of [`SEASON`] in it.
pub fn split_season(left: &str, found: &Option<Vec<Option<String>>>) -> (r: (Option<u8>, String))
    ensures
        (r.0, r.1@) == after_season(left@, pattern::match_view(*found)),
{
    let whole = get_group(found, 0);
    let first = get_group(found, 1);
    let number = match first {
        Some(s) => Some(s),
        None => match get_group(found, 2) {
            Some(s) => Some(s),
            None => get_group(found, 3),
        },
    };
    match (whole, number) {
        (Some(w), Some(s)) => {
            let rest = if w.as_str().is_empty() {
                left.to_owned()
            } else {
                let none = String::new();
                text::replace_text(left, &w, &none)
            };
            (parse_cn_number(&s), text::trim(&rest))
        },
        _ => (None, left.to_owned()),
    }
}

/// The episode number and the revision.
pub open spec fn episode_of(found: Option<Seq<Option<Seq<char>>>>) -> (
    Option<Seq<char>>,
    Option<u8>,
) {
    match group(found, 1) {
        Some(number) => (
            Some(read_number(number)),
            match group(found, 2) {
                Some(revision) => small_number(revision),
                None => None,
            },
        ),
        None => (None, None),
    }
}

/// The episode number and the revision, given the match of [`EPISODE`].
pub fn read_episode(found: &Option<Vec<Option<String>>>) -> (r: (
    Option<EpisodeNumber>,
    Option<u8>,
))
    ensures
        (episode_view(r.0), r.1) == episode_of(pattern::match_view(*found)),
{
    match get_group(found, 1) {
        Some(number) => {
            let revision = match get_group(found, 2) {
                Some(s) => parse_small(&s),
                None => None,
            };
            (Some(EpisodeNumber::read(&number)), revision)
        },
        None => (None, None),
    }
}

/// A text without a `[` in front, a `]` at the end and the white space around what is left.
pub open spec fn without_brackets(s: Seq<char>) -> Seq<char> {
    let a = match text::without_prefix(s, seq!['[']) {
        Some(rest) => rest,
        None => s,
    };
    let b = match text::without_suffix(a, seq![']']) {
        Some(rest) => rest,
        None => a,
    };
    text::trimmed(b)
}

/// Strips a leading `[` and a trailing `]` left over from splitting inside brackets.
pub fn clean_bracket_remnants(s: &str) -> (r: String)
    ensures
        r@ == without_brackets(s@),
{
    proof {
        reveal_strlit("[");
        reveal_strlit("]");
        assert("["@ =~= seq!['[']);
        assert("]"@ =~= seq![']']);
    }
    let a = match text::strip_prefix(s, "[") {
        Some(rest) => rest,
        None => s.to_owned(),
    };
    let b = match text::strip_suffix(&a, "]") {
        Some(rest) => rest,
        None => a,
    };
    text::trim(&b)
}

/// A text without its tags and the white space around what is left.
pub open spec fn without_tags(s: Seq<char>) -> Seq<char> {
    text::trimmed(without_matches(TAGS@, s))
}

fn strip_tags(s: &str) -> (r: String)
    ensures
        r@ == without_tags(s@),
{
    text::trim(&remove_matches(TAGS, s))
}

/// The forms in which an episode number may end a name.
pub open spec fn episode_suffixes(episode: u32) -> Seq<Seq<char>> {
    seq![
        seq![' ', '-', ' '] + text::decimal(episode as nat),
        seq![' ', '-', ' '] + text::decimal2(episode as nat),
        seq![' '] + text::decimal(episode as nat),
        seq![' '] + text::decimal2(episode as nat),
    ]
}

/// A name cut at the last occurrence of the first suffix that stands in it.
pub open spec fn cut_at(name: Seq<char>, suffixes: Seq<Seq<char>>) -> Seq<char>
    decreases suffixes.len(),
{
    if suffixes.len() == 0 {
        name
    } else {
        match text::rfind(name, suffixes[0]) {
            Some(i) => name.take(i),
            None => cut_at(name, suffixes.skip(1)),
        }
    }
}

/// Cuts a name at its episode number: ` - 2`, ` - 02`, ` 2` or ` 02`, whichever is found first
/// in this order, at its last occurrence.
pub fn strip_episode(name: &str, episode: u32) -> (r: String)
    ensures
        r@ == cut_at(name@, episode_suffixes(episode)),
{
    let chars = text::chars_of(name);
    let plain = text::decimal_text(episode as u64);
    let padded = text::decimal2_text(episode as u64);
    proof {
        reveal_strlit(" - ");
        reveal_strlit(" ");
        assert(" - "@ =~= seq![' ', '-', ' ']);
        assert(" "@ =~= seq![' ']);
    }
    let mut suffixes: Vec<String> = Vec::new();
    suffixes.push(text::join2(" - ", &plain));
    suffixes.push(text::join2(" - ", &padded));
    suffixes.push(text::join2(" ", &plain));
    suffixes.push(text::join2(" ", &padded));
    let ghost all = episode_suffixes(episode);
    assert(text::views(suffixes@) =~= all);
    let mut i: usize = 0;
    assert(all.skip(0) =~= all);
    while i < suffixes.len()
        invariant
            i <= suffixes@.len(),
            chars@ == name@,
            all == text::views(suffixes@),
            all == episode_suffixes(episode),
            cut_at(name@, all) == cut_at(name@, all.skip(i as int)),
        decreases suffixes@.len() - i,
    {
        let part = text::chars_of(&suffixes[i]);
        assert(all.skip(i as int)[0] == part@);
        if let Some(at) = text::rfind_chars(&chars, &part) {
            let head = text::text_of(&chars, 0, at);
            assert(head@ =~= name@.take(at as int));
            return head;
        }
        assert(all.skip(i as int).skip(1) =~= all.skip(i + 1));
        i = i + 1;
    }
    name.to_owned()
}

/// The name, once the left part is freed of brackets and tags and, in a title without a slash, of
/// its episode number.
pub open spec fn clean_name(
    stripped: Seq<char>,
    right: Option<Seq<char>>,
    episode: Option<Seq<char>>,
) -> Option<Seq<char>> {
    let name = if right is None && episode is Some {
        cut_at(stripped, episode_suffixes(single::decimal_whole(episode->Some_0)))
    } else {
        stripped
    };
    if text::trimmed(name).len() == 0 {
        None
    } else {
        Some(text::trimmed(name))
    }
}

fn finish_name(
    stripped: &str,
    right: &Option<String>,
    episode: &Option<EpisodeNumber>,
) -> (r: Option<String>)
    ensures
        text::opt(r) == clean_name(stripped@, text::opt(*right), episode_view(*episode)),
{
    let name = match (right, episode) {
        (None, Some(e)) => strip_episode(stripped, e.whole()),
        _ => stripped.to_owned(),
    };
    let name = text::trim(&name);
    if name.as_str().is_empty() {
        None
    } else {
        Some(name)
    }
}

/// The tokens of a title.
pub open spec fn parsed_title(raw: Seq<char>) -> ParsedTitleView {
    let (group, behind) = after_group(raw, groups_in(GROUP@, raw));
    let (left, right) = names(without_matches(STARS@, behind));
    let (season, name) = after_season(left, groups_in(SEASON@, left));
    let place = match right {
        Some(r) => r,
        None => name,
    };
    let (episode, revision) = episode_of(groups_in(EPISODE@, place));
    ParsedTitleView {
        group,
        name: clean_name(without_tags(without_brackets(name)), right, episode),
        name_jp: match right {
            Some(r) => Some(without_brackets(without_tags(text::trimmed(r)))),
            None => None,
        },
        season,
        episode,
        revision,
    }
}

/// Tokenizes an anime torrent title.
pub fn parse_torrent_title(raw: &str) -> (r: Option<ParsedTitle>)
    ensures
        r matches Some(title) && title@ == parsed_title(raw@),
{
    let found = pattern::captures(GROUP, raw);
    proof {
        if let Some(whole) = group(pattern::match_view(found), 0) {
            assert(text::contains(raw@, whole));
        }
    }
    let (group, behind) = split_group(raw, &found);
    let rest = remove_matches(STARS, &behind);
    let (left, right) = split_names(&rest);
    let found = pattern::captures(SEASON, &left);
    let (season, name) = split_season(&left, &found);
    let found = match &right {
        Some(s) => pattern::captures(EPISODE, s),
        None => pattern::captures(EPISODE, &name),
    };
    let (episode, revision) = read_episode(&found);
    let stripped = strip_tags(&clean_bracket_remnants(&name));
    let name = finish_name(&stripped, &right, &episode);
    let name_jp = match &right {
        Some(s) => Some(clean_bracket_remnants(&strip_tags(&text::trim(s)))),
        None => None,
    };
    Some(ParsedTitle { group, name, name_jp, season, episode, revision })
}

/// Whether a title names a range of episodes.
pub open spec fn names_batch(title: Seq<char>) -> bool {
    pattern::pattern_error(BATCH@) is None && pattern::pattern_matches(BATCH@, title)
}

/// Whether a title looks like a batch release (such as `01-12` or `01~12`).
pub fn is_batch_title(title: &str) -> (r: bool)
    ensures
        r == names_batch(title@),
{
    pattern::is_match(BATCH, title).unwrap_or(false)
}

// ── Laws ──

/// Every pattern of a title is a regular expression.
pub open spec fn patterns_are_valid() -> bool {
    &&& pattern::pattern_error(r"^[\[【]([^\]】]+)[\]】]"@) is None
    &&& pattern::pattern_error(r"★[^★]+★\s*"@) is None
    &&& pattern::pattern_error(
        r"(?:第([零一二两三四五六七八九十百\d]+)[季期]|(\d)(?:nd|rd|th)?\s*Season|S(\d))\s*"@,
    ) is None
    &&& pattern::pattern_error(
        r"(?:[-–—\s]+|\[)(\d+(?:\.\d+)?)(?:v(\d+))?\s*(?:\]|\[|\(|$)"@,
    ) is None
    &&& pattern::pattern_error(r"\[[^\]]+\]|【[^】]+】|\([^)]*\)$"@) is None
}

/// `body` is what a title says behind the release group, `tail` being the text behind the closing
/// bracket, and without the starred blocks; in a title with no group in front, all of it.
pub open spec fn is_body(raw: Seq<char>, tail: Seq<char>, body: Seq<char>) -> bool {
    match pattern::pattern_groups(r"^[\[【]([^\]】]+)[\]】]"@, raw) {
        Some(g) => g.len() > 1 && g[0] is Some && g[1] is Some && raw == g[0]->0 + tail && body
            == pattern::pattern_removed(r"★[^★]+★\s*"@, text::trimmed(tail)),
        None => body == pattern::pattern_removed(r"★[^★]+★\s*"@, raw),
    }
}

/// `body` has its first spaced slash between `left` and `right`.
pub open spec fn is_split(body: Seq<char>, left: Seq<char>, right: Seq<char>) -> bool {
    &&& body == left + " / "@ + right
    &&& forall|i: int| 0 <= i < left.len() ==> !text::occurs_at(body, " / "@, i)
}

/// A match gives these readings: the episode is its first group where that is a decimal literal,
/// the revision its second group where that is a number up to 255.
pub open spec fn reads_as(
    g: Option<Seq<Option<Seq<char>>>>,
    episode: Option<Seq<char>>,
    revision: Option<u8>,
) -> bool {
    match g {
        Some(groups) => groups.len() == 3 ==> {
            &&& groups[1] is None ==> episode is None && revision is None
            &&& groups[1] matches Some(number) ==> {
                &&& episode is Some
                &&& single::is_decimal(number) ==> episode == Some(number)
                &&& !single::is_decimal(number) ==> episode == Some("0"@)
                &&& groups[2] is None ==> revision is None
                &&& groups[2] matches Some(digits) ==> revision == (match text::parsed_uint(
                    digits,
                    255,
                ) {
                    Some(n) => Some(n as u8),
                    None => None,
                })
            }
        },
        None => episode is None && revision is None,
    }
}

proof fn lemma_spaced_slash()
    ensures
        " / "@ == seq![' ', '/', ' '],
{
    reveal_strlit(" / ");
    assert(" / "@ =~= seq![' ', '/', ' ']);
}

proof fn lemma_body(raw: Seq<char>, tail: Seq<char>, body: Seq<char>)
    requires
        patterns_are_valid(),
        is_body(raw, tail, body),
    ensures
        without_matches(STARS@, after_group(raw, groups_in(GROUP@, raw)).1) == body,
{
    if let Some(g) = pattern::pattern_groups(GROUP@, raw) {
        assert(raw.skip(g[0]->0.len() as int) =~= tail);
    }
}

proof fn lemma_first_slash(body: Seq<char>, left: Seq<char>, right: Seq<char>)
    requires
        is_split(body, left, right),
    ensures
        text::find(body, seq![' ', '/', ' ']) == Some(left.len() as int),
{
    lemma_spaced_slash();
    let at = left.len() as int;
    assert(body.subrange(at, at + 3) =~= " / "@);
    text::lemma_find_first(body, " / "@, at);
}

proof fn lemma_split(body: Seq<char>, left: Seq<char>, right: Seq<char>)
    requires
        is_split(body, left, right),
    ensures
        names(body).0 == text::trimmed(left),
        names(body).1 == Some(text::trimmed(right)),
{
    lemma_first_slash(body, left, right);
    lemma_spaced_slash();
    let at = left.len() as int;
    assert(body.take(at) =~= left);
    assert(body.skip(at + 3) =~= right);
}

proof fn lemma_no_slash(body: Seq<char>)
    requires
        !text::contains(body, " / "@),
    ensures
        names(body) == (body, None::<Seq<char>>),
{
    lemma_spaced_slash();
    text::lemma_find_iff_contains(body, seq![' ', '/', ' ']);
}

/// In a title with a spaced slash, the episode and its revision stand behind the first such slash:
/// they are those of the leftmost episode number there, whatever stands in front of the slash, and
/// there are none where the text behind the slash has no episode number.
pub proof fn law_episode_stands_behind_the_slash(
    raw: Seq<char>,
    tail: Seq<char>,
    body: Seq<char>,
    left: Seq<char>,
    right: Seq<char>,
)
    requires
        patterns_are_valid(),
        is_body(raw, tail, body),
        is_split(body, left, right),
    ensures
        reads_as(
            pattern::pattern_groups(
                r"(?:[-–—\s]+|\[)(\d+(?:\.\d+)?)(?:v(\d+))?\s*(?:\]|\[|\(|$)"@,
                text::trimmed(right),
            ),
            parsed_title(raw).episode,
            parsed_title(raw).revision,
        ),
{
    lemma_body(raw, tail, body);
    lemma_split(body, left, right);
}

/// Titles that say the same behind their first spaced slashes have the same episode, revision and
/// second name, whatever their groups and first names are.
pub proof fn law_text_behind_the_slash_fixes_the_episode(
    raw: Seq<char>,
    tail: Seq<char>,
    body: Seq<char>,
    left: Seq<char>,
    other: Seq<char>,
    other_tail: Seq<char>,
    other_body: Seq<char>,
    other_left: Seq<char>,
    right: Seq<char>,
)
    requires
        patterns_are_valid(),
        is_body(raw, tail, body),
        is_body(other, other_tail, other_body),
        is_split(body, left, right),
        is_split(other_body, other_left, right),
    ensures
        parsed_title(raw).episode == parsed_title(other).episode,
        parsed_title(raw).revision == parsed_title(other).revision,
        parsed_title(raw).name_jp == parsed_title(other).name_jp,
{
    lemma_body(raw, tail, body);
    lemma_body(other, other_tail, other_body);
    lemma_split(body, left, right);
    lemma_split(other_body, other_left, right);
}

/// Titles that say the same in front of their first spaced slashes have the same name and season,
/// whatever their groups, second names and episodes are.
pub proof fn law_text_before_the_slash_fixes_the_name(
    raw: Seq<char>,
    tail: Seq<char>,
    body: Seq<char>,
    right: Seq<char>,
    other: Seq<char>,
    other_tail: Seq<char>,
    other_body: Seq<char>,
    other_right: Seq<char>,
    left: Seq<char>,
)
    requires
        patterns_are_valid(),
        is_body(raw, tail, body),
        is_body(other, other_tail, other_body),
        is_split(body, left, right),
        is_split(other_body, left, other_right),
    ensures
        parsed_title(raw).name == parsed_title(other).name,
        parsed_title(raw).season == parsed_title(other).season,
{
    lemma_body(raw, tail, body);
    lemma_body(other, other_tail, other_body);
    lemma_split(body, left, right);
    lemma_split(other_body, left, other_right);
}

/// In a title without a spaced slash there is no second name, and the episode and its revision are
/// those of the leftmost episode number in it, once its season marker is taken out.
pub proof fn law_episode_without_a_slash(
    raw: Seq<char>,
    tail: Seq<char>,
    body: Seq<char>,
    marker: Seq<char>,
    number: Seq<char>,
)
    requires
        patterns_are_valid(),
        is_body(raw, tail, body),
        !text::contains(body, " / "@),
    ensures
        parsed_title(raw).name_jp is None,
        pattern::pattern_groups(
            r"(?:第([零一二两三四五六七八九十百\d]+)[季期]|(\d)(?:nd|rd|th)?\s*Season|S(\d))\s*"@,
            body,
        ) is None ==> reads_as(
            pattern::pattern_groups(
                r"(?:[-–—\s]+|\[)(\d+(?:\.\d+)?)(?:v(\d+))?\s*(?:\]|\[|\(|$)"@,
                body,
            ),
            parsed_title(raw).episode,
            parsed_title(raw).revision,
        ),
        is_season_match(body, marker, number) ==> reads_as(
            pattern::pattern_groups(
                r"(?:[-–—\s]+|\[)(\d+(?:\.\d+)?)(?:v(\d+))?\s*(?:\]|\[|\(|$)"@,
                text::trimmed(text::replaced(body, marker, seq![])),
            ),
            parsed_title(raw).episode,
            parsed_title(raw).revision,
        ),
{
    lemma_body(raw, tail, body);
    lemma_no_slash(body);
}

/// The leftmost season marker in `left` is `marker`, and its number is `number`.
pub open spec fn is_season_match(left: Seq<char>, marker: Seq<char>, number: Seq<char>) -> bool {
    match pattern::pattern_groups(
        r"(?:第([零一二两三四五六七八九十百\d]+)[季期]|(\d)(?:nd|rd|th)?\s*Season|S(\d))\s*"@,
        left,
    ) {
        Some(g) => g.len() == 4 && g[0] == Some(marker) && (g == seq![
            Some(marker),
            Some(number),
            None,
            None,
        ] || g == seq![Some(marker), None, Some(number), None] || g == seq![
            Some(marker),
            None,
            None,
            Some(number),
        ]),
        None => false,
    }
}

/// `left` is the part of a title that holds its name: what stands in front of its first spaced
/// slash, else all of it.
pub open spec fn is_left(body: Seq<char>, left: Seq<char>) -> bool {
    if text::contains(body, " / "@) {
        exists|front: Seq<char>, right: Seq<char>|
            is_split(body, front, right) && left == text::trimmed(front)
    } else {
        left == body
    }
}

proof fn lemma_left(body: Seq<char>, left: Seq<char>)
    requires
        is_left(body, left),
    ensures
        names(body).0 == left,
        names(body).1 is Some <==> text::contains(body, " / "@),
{
    if text::contains(body, " / "@) {
        let (front, right) = choose|front: Seq<char>, right: Seq<char>|
            is_split(body, front, right) && left == text::trimmed(front);
        lemma_split(body, front, right);
    } else {
        lemma_no_slash(body);
    }
}

/// The season of a title is the number of the leftmost season marker in the part that holds its
/// name, in digits or as a Chinese numeral up to ten; a title has no season where that part has no
/// marker. It has a second name exactly if it has a spaced slash.
pub proof fn law_season_is_the_number_of_its_marker(
    raw: Seq<char>,
    tail: Seq<char>,
    body: Seq<char>,
    left: Seq<char>,
    marker: Seq<char>,
    number: Seq<char>,
    n: nat,
)
    requires
        patterns_are_valid(),
        is_body(raw, tail, body),
        is_left(body, left),
    ensures
        parsed_title(raw).name_jp is Some <==> text::contains(body, " / "@),
        pattern::pattern_groups(
            r"(?:第([零一二两三四五六七八九十百\d]+)[季期]|(\d)(?:nd|rd|th)?\s*Season|S(\d))\s*"@,
            left,
        ) is None ==> parsed_title(raw).season is None,
        is_season_match(left, marker, number) && n <= 255 && number == text::decimal(n)
            ==> parsed_title(raw).season == Some(n as u8),
        is_season_match(left, marker, number) && n <= 10 && number == seq![
            "零一二三四五六七八九十"@[n as int],
        ] ==> parsed_title(raw).season == Some(n as u8),
        is_season_match(left, marker, number) && number == "两"@ ==> parsed_title(raw).season
            == Some(2u8),
{
    lemma_body(raw, tail, body);
    lemma_left(body, left);
    if n <= 10 {
        law_numerals_count_to_ten(n);
    }
    if n <= 255 {
        law_season_in_digits(n);
    }
    law_two_is_written_in_two_ways();
}

proof fn lemma_numerals()
    ensures
        "零一二三四五六七八九十"@ == seq!['零', '一', '二', '三', '四', '五', '六', '七', '八', '九', '十'],
        "零"@ == seq!['零'],
        "〇"@ == seq!['〇'],
        "一"@ == seq!['一'],
        "二"@ == seq!['二'],
        "两"@ == seq!['两'],
        "三"@ == seq!['三'],
        "四"@ == seq!['四'],
        "五"@ == seq!['五'],
        "六"@ == seq!['六'],
        "七"@ == seq!['七'],
        "八"@ == seq!['八'],
        "九"@ == seq!['九'],
        "十"@ == seq!['十'],
{
    reveal_strlit("零一二三四五六七八九十");
    reveal_strlit("零");
    reveal_strlit("〇");
    reveal_strlit("一");
    reveal_strlit("二");
    reveal_strlit("两");
    reveal_strlit("三");
    reveal_strlit("四");
    reveal_strlit("五");
    reveal_strlit("六");
    reveal_strlit("七");
    reveal_strlit("八");
    reveal_strlit("九");
    reveal_strlit("十");
}

/// Each Chinese numeral from zero to ten is read as its place in the row of numerals.
pub proof fn law_numerals_count_to_ten(n: nat)
    requires
        n <= 10,
    ensures
        cn_number(seq!["零一二三四五六七八九十"@[n as int]]) == Some(n as u8),
{
    lemma_numerals();
    let c = "零一二三四五六七八九十"@[n as int];
    assert(seq![c][0] == c);
    assert(seq!['零'][0] == '零' && seq!['〇'][0] == '〇' && seq!['一'][0] == '一' && seq!['二'][0]
        == '二' && seq!['两'][0] == '两' && seq!['三'][0] == '三' && seq!['四'][0] == '四' && seq![
        '五',
    ][0] == '五' && seq!['六'][0] == '六' && seq!['七'][0] == '七' && seq!['八'][0] == '八' && seq![
        '九',
    ][0] == '九' && seq!['十'][0] == '十');
}

/// A season number in digits is read as the number, up to 255.
pub proof fn law_season_in_digits(n: nat)
    requires
        n <= 255,
    ensures
        cn_number(text::decimal(n)) == Some(n as u8),
{
    lemma_numerals();
    text::law_decimal_round_trip(n, 255);
    text::lemma_decimal(n);
    let t = text::decimal(n);
    assert(text::is_digit(t[0]));
    assert(seq!['零'][0] == '零' && seq!['〇'][0] == '〇' && seq!['一'][0] == '一' && seq!['二'][0]
        == '二' && seq!['两'][0] == '两' && seq!['三'][0] == '三' && seq!['四'][0] == '四' && seq![
        '五',
    ][0] == '五' && seq!['六'][0] == '六' && seq!['七'][0] == '七' && seq!['八'][0] == '八' && seq![
        '九',
    ][0] == '九' && seq!['十'][0] == '十');
}

/// Both Chinese numerals for two, and both for zero, are read alike.
pub proof fn law_two_is_written_in_two_ways()
    ensures
        cn_number("两"@) == Some(2u8),
        cn_number("两"@) == cn_number("二"@),
        cn_number("〇"@) == Some(0u8),
        cn_number("〇"@) == cn_number("零"@),
{
    lemma_numerals();
    assert(seq!['零'][0] == '零' && seq!['〇'][0] == '〇' && seq!['一'][0] == '一' && seq!['二'][0]
        == '二' && seq!['两'][0] == '两');
}

/// The release group of a title is what stands between the brackets in front of it, and the rest
/// of the title is read as if the group were not there.
pub proof fn law_group_stands_in_front(
    raw: Seq<char>,
    bracketed: Seq<char>,
    group: Seq<char>,
    tail: Seq<char>,
)
    requires
        patterns_are_valid(),
        pattern::pattern_groups(r"^[\[【]([^\]】]+)[\]】]"@, raw) == Some(
            seq![Some(bracketed), Some(group)],
        ),
        raw == bracketed + tail,
    ensures
        parsed_title(raw).group == Some(group),
        pattern::pattern_groups(
            r"^[\[【]([^\]】]+)[\]】]"@,
            text::trimmed(tail),
        ) is None ==> parsed_title(raw) == (ParsedTitleView {
            group: Some(group),
            ..parsed_title(text::trimmed(tail))
        }),
{
    assert(raw.skip(bracketed.len() as int) =~= tail);
}

/// A title with no brackets in front has no release group; starred blocks change nothing of what
/// such a title is read as.
pub proof fn law_stars_do_not_matter(raw: Seq<char>, bare: Seq<char>)
    requires
        patterns_are_valid(),
        pattern::pattern_groups(r"^[\[【]([^\]】]+)[\]】]"@, raw) is None,
        pattern::pattern_groups(r"^[\[【]([^\]】]+)[\]】]"@, bare) is None,
        bare == pattern::pattern_removed(r"★[^★]+★\s*"@, raw),
        bare == pattern::pattern_removed(r"★[^★]+★\s*"@, bare),
    ensures
        parsed_title(raw).group is None,
        parsed_title(raw) == parsed_title(bare),
{
}

/// A name is never empty and has no white space at its ends.
pub proof fn law_names_are_not_blank(raw: Seq<char>)
    ensures
        parsed_title(raw).name matches Some(name) ==> name.len() > 0 && !text::white(name[0])
            && !text::white(name.last()),
{
    let (_, behind) = after_group(raw, groups_in(GROUP@, raw));
    let (left, right) = names(without_matches(STARS@, behind));
    let (season, name) = after_season(left, groups_in(SEASON@, left));
    let place = match right {
        Some(r) => r,
        None => name,
    };
    let (episode, revision) = episode_of(groups_in(EPISODE@, place));
    let stripped = without_tags(without_brackets(name));
    let cut = if right is None && episode is Some {
        cut_at(stripped, episode_suffixes(single::decimal_whole(episode->Some_0)))
    } else {
        stripped
    };
    text::law_trimmed_text_is_trimmed(cut);
}

/// `front` is a part of a title without its season marker, if it has one.
pub open spec fn is_seasonless(
    left: Seq<char>,
    marker: Seq<char>,
    number: Seq<char>,
    front: Seq<char>,
) -> bool {
    ||| pattern::pattern_groups(
        r"(?:第([零一二两三四五六七八九十百\d]+)[季期]|(\d)(?:nd|rd|th)?\s*Season|S(\d))\s*"@,
        left,
    ) is None && front == left
    ||| is_season_match(left, marker, number) && front == text::trimmed(
        text::replaced(left, marker, seq![]),
    )
}

/// `name` is what is left of a text without its tags and the white space at its ends, if that is
/// anything at all.
pub open spec fn is_name_in(s: Seq<char>, name: Option<Seq<char>>) -> bool {
    let rest = text::trimmed(pattern::pattern_removed(r"\[[^\]]+\]|【[^】]+】|\([^)]*\)$"@, s));
    if rest.len() == 0 {
        name is None
    } else {
        name == Some(rest)
    }
}

/// In a title with a spaced slash, the name is what stands in front of the slash without its
/// season marker and its tags, and the second name what stands behind it without its tags; neither
/// keeps a bracket at its ends nor white space. There is no name where nothing is left.
pub proof fn law_names_stand_around_the_slash(
    raw: Seq<char>,
    tail: Seq<char>,
    body: Seq<char>,
    left: Seq<char>,
    right: Seq<char>,
    marker: Seq<char>,
    number: Seq<char>,
    front: Seq<char>,
)
    requires
        patterns_are_valid(),
        is_body(raw, tail, body),
        is_split(body, left, right),
        is_seasonless(text::trimmed(left), marker, number, front),
    ensures
        front.len() > 0 && front[0] != '[' && front.last() != ']' ==> is_name_in(
            front,
            parsed_title(raw).name,
        ),
        forall|inner: Seq<char>|
            front == #[trigger] (seq!['['] + inner) && inner.len() > 0 && inner.last() != ']'
                ==> is_name_in(text::trimmed(inner), parsed_title(raw).name),
        ({
            let second = text::trimmed(
                pattern::pattern_removed(r"\[[^\]]+\]|【[^】]+】|\([^)]*\)$"@, text::trimmed(right)),
            );
            &&& second.len() > 0 && second[0] != '[' && second.last() != ']' ==> parsed_title(
                raw,
            ).name_jp == Some(second)
            &&& forall|inner: Seq<char>|
                second == #[trigger] (seq!['['] + inner + seq![']']) ==> parsed_title(raw).name_jp
                    == Some(text::trimmed(inner))
        }),
{
    lemma_body(raw, tail, body);
    lemma_split(body, left, right);
    text::law_trimmed_text_is_trimmed(left);
    text::law_trimmed_text_is_trimmed(right);
    text::law_trimmed_text_is_trimmed(text::replaced(text::trimmed(left), marker, seq![]));
    text::law_trimmed_text_is_trimmed(pattern::pattern_removed(TAGS@, front));
    if front.len() > 0 && front[0] != '[' && front.last() != ']' {
        lemma_no_brackets(front);
    }
    assert forall|inner: Seq<char>|
        front == #[trigger] (seq!['['] + inner) && inner.len() > 0 && inner.last() != ']' implies
        is_name_in(text::trimmed(inner), parsed_title(raw).name) by {
        text::law_trimmed_text_is_trimmed(pattern::pattern_removed(TAGS@, text::trimmed(inner)));
        let open = seq!['['];
        assert(open.is_prefix_of(front));
        assert(front.skip(1) =~= inner);
        if seq![']'].is_suffix_of(inner) {
            assert(inner.last() == seq![']'][0]);
        }
    }
    let second = text::trimmed(pattern::pattern_removed(TAGS@, text::trimmed(right)));
    text::law_trimmed_text_is_trimmed(pattern::pattern_removed(TAGS@, text::trimmed(right)));
    if second.len() > 0 && second[0] != '[' && second.last() != ']' {
        lemma_no_brackets(second);
    }
    assert forall|inner: Seq<char>|
        second == #[trigger] (seq!['['] + inner + seq![']']) implies parsed_title(raw).name_jp
        == Some(text::trimmed(inner)) by {
        let open = seq!['['];
        assert(open.is_prefix_of(second));
        assert(second.skip(1) =~= inner + seq![']']);
        assert(seq![']'].is_suffix_of(inner + seq![']']));
        assert((inner + seq![']']).take(inner.len() as int) =~= inner);
    }
}

proof fn lemma_no_brackets(s: Seq<char>)
    requires
        s.len() > 0,
        s[0] != '[',
        s.last() != ']',
    ensures
        without_brackets(s) == text::trimmed(s),
{
    if seq!['['].is_prefix_of(s) {
        assert(s[0] == seq!['['][0]);
    }
    if seq![']'].is_suffix_of(s) {
        assert(s.last() == seq![']'][0]);
    }
}

/// In a title without group, stars, slash and season, the name ends before ` - ` and the number of
/// the episode in two digits.
pub proof fn law_name_ends_before_the_episode(raw: Seq<char>, base: Seq<char>, k: nat)
    requires
        patterns_are_valid(),
        pattern::pattern_groups(r"^[\[【]([^\]】]+)[\]】]"@, raw) is None,
        pattern::pattern_removed(r"★[^★]+★\s*"@, raw) == raw,
        pattern::pattern_groups(
            r"(?:第([零一二两三四五六七八九十百\d]+)[季期]|(\d)(?:nd|rd|th)?\s*Season|S(\d))\s*"@,
            raw,
        ) is None,
        !text::contains(raw, " / "@),
        raw.len() > 0,
        raw[0] != '[',
        raw.last() != ']',
        text::trimmed(raw) == raw,
        text::trimmed(pattern::pattern_removed(r"\[[^\]]+\]|【[^】]+】|\([^)]*\)$"@, raw)) == base
            + " - "@ + text::decimal2(k),
        0 < k < 100,
        !text::contains(base, " - "@),
        pattern::pattern_groups(
            r"(?:[-–—\s]+|\[)(\d+(?:\.\d+)?)(?:v(\d+))?\s*(?:\]|\[|\(|$)"@,
            raw,
        ) matches Some(g) && g.len() == 3 && g[1] == Some(text::decimal2(k)),
    ensures
        parsed_title(raw).episode == Some(text::decimal2(k)),
        text::trimmed(base).len() > 0 ==> parsed_title(raw).name == Some(text::trimmed(base)),
        text::trimmed(base).len() == 0 ==> parsed_title(raw).name is None,
{
    lemma_no_slash(raw);
    lemma_no_brackets(raw);
    let number = text::decimal2(k);
    text::law_two_digits(k);
    text::lemma_decimal(k);
    single::law_small_whole_numbers_are_exact(number);
    let dash = seq![' ', '-', ' '];
    reveal_strlit(" - ");
    assert(" - "@ =~= dash);
    let stripped = base + dash + number;
    let all = episode_suffixes(k as u32);
    let n = base.len() as int;
    assert forall|i: int, d: Seq<char>|
        i != n && d.len() > 0 && text::all_digits(d) implies !#[trigger] text::occurs_at(
        stripped,
        dash + d,
        i,
    ) by {
        if text::occurs_at(stripped, dash + d, i) {
            let part = stripped.subrange(i, i + 3 + d.len());
            assert(part[0] == (dash + d)[0] && part[1] == (dash + d)[1] && part[2] == (dash + d)[2]
                && part[3] == (dash + d)[3]);
            assert(part[0] == stripped[i] && part[1] == stripped[i + 1] && part[2] == stripped[i
                + 2] && part[3] == stripped[i + 3]);
            assert(text::is_digit(d[0]));
            if i + 3 <= n {
                assert(base.subrange(i, i + 3) =~= dash);
                assert(text::occurs_at(base, " - "@, i));
            } else if i < n {
                assert(stripped[n] == ' ' && stripped[n + 1] == '-');
            } else {
                assert(stripped[n] == ' ' && stripped[n + 1] == '-' && stripped[n + 2] == ' ');
                if i + 1 >= n + 3 {
                    assert(text::is_digit(number[i + 1 - n - 3]));
                }
            }
        }
    }
    let plain = dash + text::decimal(k);
    let padded = dash + number;
    text::lemma_rfind_upto(stripped, plain, stripped.len() - plain.len());
    text::lemma_rfind_upto(stripped, padded, stripped.len() - padded.len());
    assert(all[0] == plain && all[1] == padded);
    assert(stripped.subrange(n, n + 5) =~= padded);
    assert(text::occurs_at(stripped, padded, n));
    assert(text::rfind(stripped, padded) == Some(n));
    assert(stripped.take(n) =~= base);
    assert(all.skip(1)[0] == padded);
    reveal_with_fuel(cut_at, 3);
    assert(cut_at(stripped, all) == base);
}

/// A title names a batch exactly if two numbers of up to three digits stand in it with `-`, `~` or
/// a wide tilde between them, as words of their own.
pub proof fn law_batches_are_ranges(title: Seq<char>)
    requires
        pattern::pattern_error(r"\b(\d{1,3})[-~～](\d{1,3})\b"@) is None,
    ensures
        names_batch(title) <==> pattern::pattern_matches(r"\b(\d{1,3})[-~～](\d{1,3})\b"@, title),
{
}

/// `name` is what a text says before the number of the episode, if that stands at the end of it in
/// one of four forms, the first of these that stands in it; it is all that the text says where none
/// of them stands in it.
pub open spec fn is_name_before(
    said: Seq<char>,
    base: Seq<char>,
    k: nat,
    name: Option<Seq<char>>,
) -> bool {
    let one = " - "@ + text::decimal(k);
    let two = " - "@ + text::decimal2(k);
    let three = " "@ + text::decimal(k);
    let four = " "@ + text::decimal2(k);
    &&& said == base + one ==> is_trimmed_name(base, name)
    &&& said == base + two && !text::contains(said, one) ==> is_trimmed_name(base, name)
    &&& said == base + three && !text::contains(said, one) && !text::contains(said, two)
        ==> is_trimmed_name(base, name)
    &&& said == base + four && !text::contains(said, one) && !text::contains(said, two)
        && !text::contains(said, three) ==> is_trimmed_name(base, name)
    &&& !text::contains(said, one) && !text::contains(said, two) && !text::contains(said, three)
        && !text::contains(said, four) ==> is_trimmed_name(said, name)
}

/// `name` is a text without the white space at its ends, if that is anything at all.
pub open spec fn is_trimmed_name(s: Seq<char>, name: Option<Seq<char>>) -> bool {
    if text::trimmed(s).len() == 0 {
        name is None
    } else {
        name == Some(text::trimmed(s))
    }
}

proof fn lemma_name_before(said: Seq<char>, digits: Seq<char>, base: Seq<char>)
    requires
        digits.len() > 0,
        text::all_digits(digits),
        text::value_of(digits) < 16_777_216,
    ensures
        is_name_before(
            said,
            base,
            text::value_of(digits),
            clean_name(said, None, Some(read_number(digits))),
        ),
{
    let k = text::value_of(digits);
    reveal_strlit(" - ");
    reveal_strlit(" ");
    assert(" - "@ =~= seq![' ', '-', ' ']);
    assert(" "@ =~= seq![' ']);
    let one = " - "@ + text::decimal(k);
    let two = " - "@ + text::decimal2(k);
    let three = " "@ + text::decimal(k);
    let four = " "@ + text::decimal2(k);
    single::law_small_whole_numbers_are_exact(digits);
    let all = episode_suffixes(k as u32);
    assert(all == seq![one, two, three, four]);
    lemma_cut(said, base, one, two, three, four);
}

proof fn lemma_slashless(
    raw: Seq<char>,
    tail: Seq<char>,
    body: Seq<char>,
    marker: Seq<char>,
    number: Seq<char>,
    front: Seq<char>,
)
    requires
        patterns_are_valid(),
        is_body(raw, tail, body),
        !text::contains(body, " / "@),
        is_seasonless(body, marker, number, front),
        text::trimmed(front) == front,
        front.len() > 0,
        front[0] != '[',
        front.last() != ']',
    ensures
        parsed_title(raw).name == clean_name(
            text::trimmed(pattern::pattern_removed(TAGS@, front)),
            None,
            episode_of(pattern::pattern_groups(EPISODE@, front)).0,
        ),
{
    lemma_body(raw, tail, body);
    lemma_no_slash(body);
    lemma_no_brackets(front);
}

/// In a title without a spaced slash and without an episode, the name is what the title says
/// without its season marker and its tags. With an episode, the name ends before the number of the
/// episode, if that stands at the end of it: behind ` - ` or behind a space, as it is or in two
/// digits.
pub proof fn law_name_without_a_slash(
    raw: Seq<char>,
    tail: Seq<char>,
    body: Seq<char>,
    marker: Seq<char>,
    number: Seq<char>,
    front: Seq<char>,
    base: Seq<char>,
    digits: Seq<char>,
)
    requires
        patterns_are_valid(),
        is_body(raw, tail, body),
        !text::contains(body, " / "@),
        is_seasonless(body, marker, number, front),
        text::trimmed(front) == front,
        front.len() > 0,
        front[0] != '[',
        front.last() != ']',
    ensures
        pattern::pattern_groups(
            r"(?:[-–—\s]+|\[)(\d+(?:\.\d+)?)(?:v(\d+))?\s*(?:\]|\[|\(|$)"@,
            front,
        ) is None ==> is_trimmed_name(
            text::trimmed(pattern::pattern_removed(r"\[[^\]]+\]|【[^】]+】|\([^)]*\)$"@, front)),
            parsed_title(raw).name,
        ),
        (pattern::pattern_groups(
            r"(?:[-–—\s]+|\[)(\d+(?:\.\d+)?)(?:v(\d+))?\s*(?:\]|\[|\(|$)"@,
            front,
        ) matches Some(g) && g.len() == 3 && g[1] == Some(digits)) && digits.len() > 0
            && text::all_digits(digits) && text::value_of(digits) < 16_777_216 ==> is_name_before(
            text::trimmed(pattern::pattern_removed(r"\[[^\]]+\]|【[^】]+】|\([^)]*\)$"@, front)),
            base,
            text::value_of(digits),
            parsed_title(raw).name,
        ),
{
    lemma_slashless(raw, tail, body, marker, number, front);
    let said = text::trimmed(pattern::pattern_removed(TAGS@, front));
    let name = parsed_title(raw).name;
    let found = pattern::pattern_groups(EPISODE@, front);
    if (found matches Some(g) && g.len() == 3 && g[1] == Some(digits)) && digits.len() > 0
        && text::all_digits(digits) && text::value_of(digits) < 16_777_216 {
        lemma_name_before(said, digits, base);
        assert(episode_of(found).0 == Some(read_number(digits)));
    }
}

proof fn lemma_last_place(s: Seq<char>, base: Seq<char>, part: Seq<char>)
    ensures
        s == base + part ==> text::rfind(s, part) == Some(base.len() as int) && s.take(
            base.len() as int,
        ) == base,
        !text::contains(s, part) ==> text::rfind(s, part) is None,
{
    let n = base.len() as int;
    text::lemma_rfind_upto(s, part, s.len() - part.len());
    if s == base + part {
        assert(s.subrange(n, n + part.len()) =~= part);
        assert(text::occurs_at(s, part, n));
        assert(s.take(n) =~= base);
    }
}

proof fn lemma_cut(
    s: Seq<char>,
    base: Seq<char>,
    one: Seq<char>,
    two: Seq<char>,
    three: Seq<char>,
    four: Seq<char>,
)
    ensures
        ({
            let cut = cut_at(s, seq![one, two, three, four]);
            &&& s == base + one ==> cut == base
            &&& s == base + two && !text::contains(s, one) ==> cut == base
            &&& s == base + three && !text::contains(s, one) && !text::contains(s, two) ==> cut
                == base
            &&& s == base + four && !text::contains(s, one) && !text::contains(s, two)
                && !text::contains(s, three) ==> cut == base
            &&& !text::contains(s, one) && !text::contains(s, two) && !text::contains(s, three)
                && !text::contains(s, four) ==> cut == s
        }),
{
    lemma_last_place(s, base, one);
    lemma_last_place(s, base, two);
    lemma_last_place(s, base, three);
    lemma_last_place(s, base, four);
    let all = seq![one, two, three, four];
    assert(all.skip(1) =~= seq![two, three, four]);
    assert(seq![two, three, four].skip(1) =~= seq![three, four]);
    assert(seq![three, four].skip(1) =~= seq![four]);
    assert(seq![four].skip(1) =~= Seq::<Seq<char>>::empty());
    reveal_with_fuel(cut_at, 5);
}

} // verus!
