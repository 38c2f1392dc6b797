//! How often the reader of RSS documents calls itself at a time.
//!
//! The `rss` crate reads an element with a prefix, such as `itunes:owner`, that stands directly in
//! the channel or in an item by a function that calls itself for each element inside. All other
//! elements take no such call, however deeply they are nested. A document is scanned character by
//! character to find out how many of these calls it takes.
use vstd::prelude::*;

use crate::text;

verus! {

// ── Markup ──

/// Where a character of a tag stands: in a quoted value or outside of one.
#[derive(Debug, Clone, Copy, PartialEq, Eq, Structural)]
pub enum Quote {
    Outside,
    Single,
    Double,
}

/// What the scan of a document is in.
#[derive(Debug, Clone, Copy, PartialEq, Eq, Structural)]
pub enum Mode {
    Text,
    /// Behind a `<`.
    Markup,
    /// Behind `<!`.
    Bang,
    /// In `<![CDATA[ .. ]]>`, with the number of `]` just read, at most two.
    Cdata { brackets: u8 },
    /// In `<!-- .. -->`, with the number of characters read behind the `<`, at most five, and the
    /// number of dashes just read, at most two.
    Comment { read: u8, dashes: u8 },
    /// In `<? .. ?>`, with whether a `?` was just read.
    Instruction { question: bool },
    /// In `<!DOCTYPE .. >`.
    Doctype { quote: Quote },
    /// In the declarations of a document type, `<!DOCTYPE .. [ .. ]>`.
    Subset,
    /// Behind a `<` among these declarations.
    SubsetMarkup,
    /// In a comment among them, with the number of dashes just read, at most two.
    SubsetComment { dashes: u8 },
    /// In an instruction among them, with whether a `?` was just read.
    SubsetInstruction { question: bool },
    /// In a declaration that ends with the next `>`.
    SubsetDeclaration,
    /// In a declaration with quoted values.
    SubsetQuoted { quote: Quote },
    /// Behind the `]` of the declarations.
    SubsetEnd,
    /// In a start tag, with whether a `/` was just read.
    Start { quote: Quote, slash: bool },
    /// In an end tag.
    End { quote: Quote },
    /// Behind markup for which a document is refused.
    Broken,
}

/// Where the next character of a tag stands.
pub open spec fn quote_after(quote: Quote, c: char) -> Quote {
    match quote {
        Quote::Outside => if c == '\'' {
            Quote::Single
        } else if c == '"' {
            Quote::Double
        } else {
            Quote::Outside
        },
        Quote::Single => if c == '\'' {
            Quote::Outside
        } else {
            Quote::Single
        },
        Quote::Double => if c == '"' {
            Quote::Outside
        } else {
            Quote::Double
        },
    }
}

/// Whether a character ends the tag that it stands in.
pub open spec fn ends_tag(quote: Quote, c: char) -> bool {
    quote == Quote::Outside && c == '>'
}

/// One more, up to a limit.
pub open spec fn one_more(n: u8, limit: u8) -> u8 {
    if n < limit {
        (n + 1) as u8
    } else {
        limit
    }
}

/// Whether the declarations that begin with a word have quoted values.
pub open spec fn is_quoted_keyword(word: Seq<char>) -> bool {
    word == "!ENTITY"@ || word == "!ATTLIST"@ || word == "!NOTATION"@
}

/// Whether a word may still become one by which declarations are told apart.
pub open spec fn begins_keyword(word: Seq<char>) -> bool {
    word.is_prefix_of("!--"@) || word.is_prefix_of("!ENTITY"@) || word.is_prefix_of("!ATTLIST"@)
        || word.is_prefix_of("!NOTATION"@)
}

/// What the scan is in after a character behind a `<` among declarations.
pub open spec fn subset_markup_after(word: Seq<char>, c: char) -> Mode {
    if word == "?"@ {
        Mode::SubsetInstruction { question: false }
    } else if word == "!--"@ {
        Mode::SubsetComment { dashes: 0 }
    } else if is_quoted_keyword(word) {
        Mode::SubsetQuoted { quote: Quote::Outside }
    } else if begins_keyword(word) {
        Mode::SubsetMarkup
    } else if c == '>' {
        Mode::Subset
    } else {
        Mode::SubsetDeclaration
    }
}

/// What the scan is in after a character. `word` is what was read since the last `<`, the character
/// included.
pub open spec fn mode_after(mode: Mode, word: Seq<char>, c: char) -> Mode {
    match mode {
        Mode::Text => if c == '<' {
            Mode::Markup
        } else {
            Mode::Text
        },
        Mode::Markup => if c == '!' {
            Mode::Bang
        } else if c == '?' {
            Mode::Instruction { question: true }
        } else if c == '/' {
            Mode::End { quote: Quote::Outside }
        } else if c == '>' {
            Mode::Text
        } else {
            Mode::Start { quote: quote_after(Quote::Outside, c), slash: false }
        },
        Mode::Bang => if c == '[' {
            Mode::Cdata { brackets: 0 }
        } else if c == '-' {
            Mode::Comment { read: 2, dashes: 1 }
        } else if c == 'D' || c == 'd' {
            Mode::Doctype { quote: Quote::Outside }
        } else {
            Mode::Broken
        },
        Mode::Cdata { brackets } => if c == '>' && brackets >= 2 {
            Mode::Text
        } else if c == ']' {
            Mode::Cdata { brackets: one_more(brackets, 2) }
        } else {
            Mode::Cdata { brackets: 0 }
        },
        Mode::Comment { read, dashes } => if c == '>' && dashes >= 2 && read >= 5 {
            Mode::Text
        } else if c == '-' {
            Mode::Comment { read: one_more(read, 5), dashes: one_more(dashes, 2) }
        } else {
            Mode::Comment { read: one_more(read, 5), dashes: 0 }
        },
        Mode::Instruction { question } => if c == '>' && question {
            Mode::Text
        } else {
            Mode::Instruction { question: c == '?' }
        },
        Mode::Doctype { quote } => if ends_tag(quote, c) {
            Mode::Text
        } else if quote == Quote::Outside && c == '[' {
            Mode::Subset
        } else {
            Mode::Doctype { quote: quote_after(quote, c) }
        },
        Mode::Subset => if c == '<' {
            Mode::SubsetMarkup
        } else if c == ']' {
            Mode::SubsetEnd
        } else {
            Mode::Subset
        },
        Mode::SubsetMarkup => subset_markup_after(word, c),
        Mode::SubsetComment { dashes } => if c == '>' && dashes >= 2 {
            Mode::Subset
        } else if c == '-' {
            Mode::SubsetComment { dashes: one_more(dashes, 2) }
        } else {
            Mode::SubsetComment { dashes: 0 }
        },
        Mode::SubsetInstruction { question } => if c == '>' && question {
            Mode::Subset
        } else {
            Mode::SubsetInstruction { question: c == '?' }
        },
        Mode::SubsetDeclaration => if c == '>' {
            Mode::Subset
        } else {
            Mode::SubsetDeclaration
        },
        Mode::SubsetQuoted { quote } => if ends_tag(quote, c) {
            Mode::Subset
        } else {
            Mode::SubsetQuoted { quote: quote_after(quote, c) }
        },
        Mode::SubsetEnd => if c == '>' {
            Mode::Text
        } else {
            Mode::SubsetEnd
        },
        Mode::Start { quote, .. } => if ends_tag(quote, c) {
            Mode::Text
        } else {
            Mode::Start {
                quote: quote_after(quote, c),
                slash: quote == Quote::Outside && c == '/',
            }
        },
        Mode::End { quote } => if ends_tag(quote, c) {
            Mode::Text
        } else {
            Mode::End { quote: quote_after(quote, c) }
        },
        Mode::Broken => Mode::Broken,
    }
}

/// Whether a character ends a start tag.
pub open spec fn opens(mode: Mode, c: char) -> bool {
    match mode {
        Mode::Markup => c == '>',
        Mode::Start { quote, .. } => ends_tag(quote, c),
        _ => false,
    }
}

/// Whether the start tag that a character ends is that of an empty element, `<name/>`.
pub open spec fn is_empty_tag(mode: Mode) -> bool {
    mode matches Mode::Start { quote, slash } && slash
}

/// Whether a character ends an end tag.
pub open spec fn closes(mode: Mode, c: char) -> bool {
    mode matches Mode::End { quote } && ends_tag(quote, c)
}

// ── Elements ──

/// Whether a character ends the name in a tag.
pub open spec fn is_blank(c: char) -> bool {
    c == ' ' || c == '\t' || c == '\n' || c == '\r'
}

/// What stands before the first blank.
pub open spec fn first_word(s: Seq<char>) -> Seq<char>
    decreases s.len(),
{
    if s.len() == 0 {
        s
    } else {
        let word = first_word(s.drop_last());
        if word.len() == s.len() - 1 && !is_blank(s.last()) {
            s
        } else {
            word
        }
    }
}

/// The name in a start tag, given what stands between `<` and `>`.
pub open spec fn name_in(tag: Seq<char>, empty: bool) -> Seq<char> {
    first_word(
        if empty && tag.len() > 0 {
            tag.drop_last()
        } else {
            tag
        },
    )
}

/// Whether a name has a prefix.
pub open spec fn has_prefix(name: Seq<char>) -> bool {
    name.contains(':') && name[0] != ':'
}

/// Whether a name holds a control character. Such a name may stand for any other where the
/// document declares an encoding that is not an extension of ASCII.
pub open spec fn is_unclear(name: Seq<char>) -> bool {
    exists|i: int| 0 <= i < name.len() && #[trigger] name[i] < ' '
}

/// Where a document is read.
#[derive(Debug, Clone, Copy, PartialEq, Eq, Structural)]
pub enum Place {
    /// Before the outermost element.
    Before,
    /// Directly in the outermost element.
    Root,
    /// Directly in the channel.
    Channel,
    /// Directly in an item beside the channel.
    RootItem,
    /// Directly in an item of the channel.
    ChannelItem,
    /// Behind the outermost element, or in a document that is refused. What follows is not read.
    Behind,
}

/// The elements that are open.
pub struct Opened {
    pub place: Place,
    /// How many are open inside of that place.
    pub depth: nat,
    /// Whether the outermost of these has a prefix.
    pub prefixed: bool,
}

/// The elements that are open behind a start tag.
pub open spec fn after_start(o: Opened, name: Seq<char>) -> Opened {
    let plain = Opened { depth: 1, prefixed: false, ..o };
    let prefixed = Opened { depth: 1, prefixed: true, ..o };
    let entered = |place: Place| Opened { place, ..o };
    if o.place == Place::Behind {
        o
    } else if o.depth > 0 {
        Opened { depth: o.depth + 1, ..o }
    } else if is_unclear(name) {
        prefixed
    } else {
        match o.place {
            Place::Before => if name == "rss"@ || name == "rdf:RDF"@ {
                entered(Place::Root)
            } else {
                entered(Place::Behind)
            },
            Place::Root => if name == "channel"@ {
                entered(Place::Channel)
            } else if name == "item"@ {
                entered(Place::RootItem)
            } else {
                plain
            },
            Place::Channel => if name == "item"@ {
                entered(Place::ChannelItem)
            } else if has_prefix(name) {
                prefixed
            } else {
                plain
            },
            _ => if has_prefix(name) && name != "content:encoded"@ {
                prefixed
            } else {
                plain
            },
        }
    }
}

/// The elements that are open behind an end tag.
pub open spec fn after_end(o: Opened) -> Opened {
    if o.depth > 1 || (o.depth == 1 && o.place != Place::Before) {
        Opened { depth: (o.depth - 1) as nat, prefixed: o.prefixed && o.depth > 1, ..o }
    } else {
        Opened {
            place: match o.place {
                Place::Channel => Place::Root,
                Place::RootItem => Place::Root,
                Place::ChannelItem => Place::Channel,
                _ => Place::Behind,
            },
            depth: 0,
            prefixed: false,
        }
    }
}

// ── The scan ──

/// How far a document has been scanned.
pub struct Scan {
    pub mode: Mode,
    /// Where the markup that was read last begins, behind its `<`.
    pub tag: nat,
    pub opened: Opened,
    /// How many calls were open at most.
    pub most: nat,
}

/// The calls that the open elements take.
pub open spec fn calls(o: Opened) -> nat {
    if o.prefixed {
        o.depth
    } else {
        0
    }
}

/// The scan of a text after its last character, given the scan of the text before.
pub open spec fn scan_after(scan: Scan, s: Seq<char>) -> Scan {
    let n = s.len() as int;
    let c = s.last();
    let empty = is_empty_tag(scan.mode);
    let started = if opens(scan.mode, c) {
        after_start(scan.opened, name_in(s.subrange(scan.tag as int, n - 1), empty))
    } else {
        scan.opened
    };
    Scan {
        mode: mode_after(scan.mode, s.subrange(scan.tag as int, n), c),
        tag: if c == '<' && (scan.mode == Mode::Text || scan.mode == Mode::Subset) {
            s.len()
        } else {
            scan.tag
        },
        opened: if closes(scan.mode, c) || (opens(scan.mode, c) && empty) {
            after_end(started)
        } else {
            started
        },
        most: if calls(started) > scan.most {
            calls(started)
        } else {
            scan.most
        },
    }
}

/// The scan of a text.
pub open spec fn scanned(s: Seq<char>) -> Scan
    decreases s.len(),
{
    if s.len() == 0 {
        Scan {
            mode: Mode::Text,
            tag: 0,
            opened: Opened { place: Place::Before, depth: 0, prefixed: false },
            most: 0,
        }
    } else {
        scan_after(scanned(s.drop_last()), s)
    }
}

/// How many calls of the reader to itself are open at a time for a document. It is never too small,
/// and exact for a document that is read as far as the scan goes, if no name of its elements holds
/// a control character and its encoding is an extension of ASCII.
pub open spec fn nesting(body: Seq<char>) -> nat {
    scanned(body).most
}

// ── Execution ──

fn next_quote(quote: Quote, c: char) -> (r: Quote)
    ensures
        r == quote_after(quote, c),
{
    match quote {
        Quote::Outside => if c == '\'' {
            Quote::Single
        } else if c == '"' {
            Quote::Double
        } else {
            Quote::Outside
        },
        Quote::Single => if c == '\'' {
            Quote::Outside
        } else {
            Quote::Single
        },
        Quote::Double => if c == '"' {
            Quote::Outside
        } else {
            Quote::Double
        },
    }
}

fn tag_ends(quote: Quote, c: char) -> (r: bool)
    ensures
        r == ends_tag(quote, c),
{
    quote == Quote::Outside && c == '>'
}

fn count_up(n: u8, limit: u8) -> (r: u8)
    ensures
        r == one_more(n, limit),
{
    if n < limit {
        n + 1
    } else {
        limit
    }
}

fn begins(word: &str, keyword: &'static str) -> (r: bool)
    ensures
        r == word@.is_prefix_of(keyword@),
{
    text::begins_with(keyword, word)
}

fn next_subset_markup(word: &str, c: char) -> (r: Mode)
    ensures
        r == subset_markup_after(word@, c),
{
    if *word == *"?" {
        Mode::SubsetInstruction { question: false }
    } else if *word == *"!--" {
        Mode::SubsetComment { dashes: 0 }
    } else if *word == *"!ENTITY" || *word == *"!ATTLIST" || *word == *"!NOTATION" {
        Mode::SubsetQuoted { quote: Quote::Outside }
    } else if begins(word, "!--") || begins(word, "!ENTITY") || begins(word, "!ATTLIST")
        || begins(word, "!NOTATION") {
        Mode::SubsetMarkup
    } else if c == '>' {
        Mode::Subset
    } else {
        Mode::SubsetDeclaration
    }
}

/// What the scan is in after a character, anywhere but behind a `<` among declarations.
fn next_mode(mode: Mode, c: char) -> (r: Mode)
    ensures
        mode != Mode::SubsetMarkup ==> forall|word: Seq<char>| r == #[trigger] mode_after(mode, word, c),
{
    match mode {
        Mode::Text => if c == '<' {
            Mode::Markup
        } else {
            Mode::Text
        },
        Mode::Markup => if c == '!' {
            Mode::Bang
        } else if c == '?' {
            Mode::Instruction { question: true }
        } else if c == '/' {
            Mode::End { quote: Quote::Outside }
        } else if c == '>' {
            Mode::Text
        } else {
            Mode::Start { quote: next_quote(Quote::Outside, c), slash: false }
        },
        Mode::Bang => if c == '[' {
            Mode::Cdata { brackets: 0 }
        } else if c == '-' {
            Mode::Comment { read: 2, dashes: 1 }
        } else if c == 'D' || c == 'd' {
            Mode::Doctype { quote: Quote::Outside }
        } else {
            Mode::Broken
        },
        Mode::Cdata { brackets } => if c == '>' && brackets >= 2 {
            Mode::Text
        } else if c == ']' {
            Mode::Cdata { brackets: count_up(brackets, 2) }
        } else {
            Mode::Cdata { brackets: 0 }
        },
        Mode::Comment { read, dashes } => if c == '>' && dashes >= 2 && read >= 5 {
            Mode::Text
        } else if c == '-' {
            Mode::Comment { read: count_up(read, 5), dashes: count_up(dashes, 2) }
        } else {
            Mode::Comment { read: count_up(read, 5), dashes: 0 }
        },
        Mode::Instruction { question } => if c == '>' && question {
            Mode::Text
        } else {
            Mode::Instruction { question: c == '?' }
        },
        Mode::Doctype { quote } => if tag_ends(quote, c) {
            Mode::Text
        } else if quote == Quote::Outside && c == '[' {
            Mode::Subset
        } else {
            Mode::Doctype { quote: next_quote(quote, c) }
        },
        Mode::Subset => if c == '<' {
            Mode::SubsetMarkup
        } else if c == ']' {
            Mode::SubsetEnd
        } else {
            Mode::Subset
        },
        Mode::SubsetMarkup => Mode::SubsetMarkup,
        Mode::SubsetComment { dashes } => if c == '>' && dashes >= 2 {
            Mode::Subset
        } else if c == '-' {
            Mode::SubsetComment { dashes: count_up(dashes, 2) }
        } else {
            Mode::SubsetComment { dashes: 0 }
        },
        Mode::SubsetInstruction { question } => if c == '>' && question {
            Mode::Subset
        } else {
            Mode::SubsetInstruction { question: c == '?' }
        },
        Mode::SubsetDeclaration => if c == '>' {
            Mode::Subset
        } else {
            Mode::SubsetDeclaration
        },
        Mode::SubsetQuoted { quote } => if tag_ends(quote, c) {
            Mode::Subset
        } else {
            Mode::SubsetQuoted { quote: next_quote(quote, c) }
        },
        Mode::SubsetEnd => if c == '>' {
            Mode::Text
        } else {
            Mode::SubsetEnd
        },
        Mode::Start { quote, slash: _ } => if tag_ends(quote, c) {
            Mode::Text
        } else {
            Mode::Start {
                quote: next_quote(quote, c),
                slash: quote == Quote::Outside && c == '/',
            }
        },
        Mode::End { quote } => if tag_ends(quote, c) {
            Mode::Text
        } else {
            Mode::End { quote: next_quote(quote, c) }
        },
        Mode::Broken => Mode::Broken,
    }
}

fn is_opened(mode: Mode, c: char) -> (r: bool)
    ensures
        r == opens(mode, c),
{
    match mode {
        Mode::Markup => c == '>',
        Mode::Start { quote, slash: _ } => tag_ends(quote, c),
        _ => false,
    }
}

fn is_closed(mode: Mode, c: char) -> (r: bool)
    ensures
        r == closes(mode, c),
{
    match mode {
        Mode::End { quote } => tag_ends(quote, c),
        _ => false,
    }
}

fn is_empty(mode: Mode) -> (r: bool)
    ensures
        r == is_empty_tag(mode),
{
    match mode {
        Mode::Start { quote: _, slash } => slash,
        _ => false,
    }
}

/// The name in the start tag that stands between two positions.
fn read_name(chars: &Vec<char>, from: usize, to: usize, empty: bool) -> (r: Vec<char>)
    requires
        from <= to <= chars@.len(),
    ensures
        r@ == name_in(chars@.subrange(from as int, to as int), empty),
{
    let end: usize = if empty && from < to {
        to - 1
    } else {
        to
    };
    let ghost tag = chars@.subrange(from as int, end as int);
    assert(empty && from < to ==> chars@.subrange(from as int, to as int).drop_last() =~= tag);
    let mut out: Vec<char> = Vec::new();
    let mut i: usize = from;
    assert(tag.take(0) =~= out@);
    assert(from == end ==> tag.take(0) =~= tag);
    while i < end
        invariant_except_break
            from <= i <= end <= chars@.len(),
            tag == chars@.subrange(from as int, end as int),
            out@ == tag.take(i - from),
            out@ == first_word(tag.take(i - from)),
            i == end ==> out@ == first_word(tag),
        ensures
            out@ == first_word(tag),
        decreases end - i,
    {
        let c = chars[i];
        let ghost k = i - from;
        assert(tag.take(k + 1).drop_last() =~= tag.take(k));
        assert(tag.take(k + 1).last() == c);
        if c == ' ' || c == '\t' || c == '\n' || c == '\r' {
            proof {
                lemma_word_stays(tag, k + 1, tag.len() as int);
                assert(tag.take(tag.len() as int) =~= tag);
            }
            break;
        }
        out.push(c);
        assert(out@ =~= tag.take(k + 1));
        i = i + 1;
        assert(i == end ==> tag.take(k + 1) =~= tag);
    }
    out
}

/// Behind a blank the first word does not change any more.
proof fn lemma_word_stays(s: Seq<char>, from: int, to: int)
    requires
        0 < from <= to <= s.len(),
        first_word(s.take(from)).len() < from,
    ensures
        first_word(s.take(to)) == first_word(s.take(from)),
    decreases to - from,
{
    if from < to {
        lemma_word_stays(s, from, to - 1);
        assert(s.take(to).drop_last() =~= s.take(to - 1));
    }
}

fn is_prefixed(name: &Vec<char>) -> (r: bool)
    ensures
        r == has_prefix(name@),
{
    if name.len() == 0 || name[0] == ':' {
        return false;
    }
    let mut i: usize = 0;
    while i < name.len()
        invariant
            i <= name@.len(),
            name@.len() > 0,
            name@[0] != ':',
            forall|j: int| 0 <= j < i ==> name@[j] != ':',
        decreases name@.len() - i,
    {
        if name[i] == ':' {
            assert(name@[i as int] == ':');
            return true;
        }
        i = i + 1;
    }
    false
}

fn has_control(name: &Vec<char>) -> (r: bool)
    ensures
        r == is_unclear(name@),
{
    let mut i: usize = 0;
    while i < name.len()
        invariant
            i <= name@.len(),
            forall|j: int| 0 <= j < i ==> #[trigger] name@[j] >= ' ',
        decreases name@.len() - i,
    {
        let c = name[i];
        if ' ' > c {
            assert(name@[i as int] == c);
            return true;
        }
        i = i + 1;
    }
    false
}

/// How many elements are open, and where.
struct Level {
    place: Place,
    depth: usize,
    prefixed: bool,
}

impl Level {
    spec fn opened(self) -> Opened {
        Opened { place: self.place, depth: self.depth as nat, prefixed: self.prefixed }
    }
}

fn start(o: Level, name: &Vec<char>) -> (r: Level)
    requires
        o.depth < usize::MAX,
    ensures
        r.opened() == after_start(o.opened(), name@),
        r.depth <= o.depth + 1,
{
    if o.place == Place::Behind {
        return o;
    }
    if o.depth > 0 {
        return Level { place: o.place, depth: o.depth + 1, prefixed: o.prefixed };
    }
    if has_control(name) {
        return Level { place: o.place, depth: 1, prefixed: true };
    }
    let word = text::text_of(name, 0, name.len());
    assert(word@ =~= name@);
    let known = word.as_str();
    match o.place {
        Place::Before => {
            let place = if *known == *"rss" || *known == *"rdf:RDF" {
                Place::Root
            } else {
                Place::Behind
            };
            Level { place, depth: o.depth, prefixed: o.prefixed }
        },
        Place::Root => if *known == *"channel" {
            Level { place: Place::Channel, depth: o.depth, prefixed: o.prefixed }
        } else if *known == *"item" {
            Level { place: Place::RootItem, depth: o.depth, prefixed: o.prefixed }
        } else {
            Level { place: o.place, depth: 1, prefixed: false }
        },
        Place::Channel => if *known == *"item" {
            Level { place: Place::ChannelItem, depth: o.depth, prefixed: o.prefixed }
        } else {
            Level { place: o.place, depth: 1, prefixed: is_prefixed(name) }
        },
        _ => {
            let prefixed = is_prefixed(name) && *known != *"content:encoded";
            Level { place: o.place, depth: 1, prefixed }
        },
    }
}

fn end(o: Level) -> (r: Level)
    ensures
        r.opened() == after_end(o.opened()),
        r.depth <= o.depth,
{
    if o.depth > 1 || (o.depth == 1 && o.place != Place::Before) {
        let prefixed = o.prefixed && o.depth > 1;
        Level { place: o.place, depth: o.depth - 1, prefixed }
    } else {
        let place = match o.place {
            Place::Channel => Place::Root,
            Place::RootItem => Place::Root,
            Place::ChannelItem => Place::Channel,
            _ => Place::Behind,
        };
        Level { place, depth: 0, prefixed: false }
    }
}

/// How many calls of the reader to itself are open at a time for a document, or more.
pub fn nesting_of(body: &str) -> (r: usize)
    ensures
        r == nesting(body@),
{
    let chars = text::chars_of(body);
    let mut mode = Mode::Text;
    let mut tag: usize = 0;
    let mut level = Level { place: Place::Before, depth: 0, prefixed: false };
    let mut most: usize = 0;
    let mut i: usize = 0;
    assert(chars@.take(0) =~= seq![]);
    while i < chars.len()
        invariant
            i <= chars@.len(),
            tag <= i,
            level.depth <= i,
            scanned(chars@.take(i as int)) == (Scan {
                mode,
                tag: tag as nat,
                opened: level.opened(),
                most: most as nat,
            }),
        decreases chars@.len() - i,
    {
        let c = chars[i];
        let ghost s = chars@.take(i + 1);
        assert(s.drop_last() =~= chars@.take(i as int));
        assert(s.last() == c);
        assert(s.subrange(tag as int, i as int) =~= chars@.subrange(tag as int, i as int));
        let empty = is_empty(mode);
        let opened = is_opened(mode, c);
        if opened {
            let name = read_name(&chars, tag, i, empty);
            level = start(level, &name);
        }
        if level.prefixed && level.depth > most {
            most = level.depth;
        }
        if is_closed(mode, c) || (opened && empty) {
            level = end(level);
        }
        let next = if mode == Mode::SubsetMarkup {
            let word = text::text_of(&chars, tag, i + 1);
            assert(word@ =~= s.subrange(tag as int, i + 1));
            next_subset_markup(&word, c)
        } else {
            next_mode(mode, c)
        };
        if c == '<' && (mode == Mode::Text || mode == Mode::Subset) {
            tag = i + 1;
        }
        mode = next;
        i = i + 1;
    }
    assert(chars@.take(i as int) =~= body@);
    most
}

} // verus!
