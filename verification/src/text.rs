//! Text building blocks over `Seq<char>`: searching, splitting, trimming, replacing and
//! decimal numbers.
use vstd::prelude::*;
use vstd::utf8::*;

verus! {

// ── What the standard library does with text ──

/// `String::push` appends the character at the end.
pub assume_specification[ String::push ](s: &mut String, c: char)
    ensures
        final(s)@ == old(s)@.push(c),
;

/// `==` on `str` compares the characters.
pub assume_specification[ <str as PartialEq>::eq ](a: &str, b: &str) -> (r: bool)
    ensures
        r == (a@ == b@),
;

/// Whether a character is white space: whether it has the Unicode `White_Space` property.
pub open spec fn white(c: char) -> bool {
    let n = c as int;
    9 <= n <= 13 || n == 0x20 || n == 0x85 || n == 0xa0 || n == 0x1680 || 0x2000 <= n <= 0x200a || n
        == 0x2028 || n == 0x2029 || n == 0x202f || n == 0x205f || n == 0x3000
}

/// `char::is_whitespace` tells whether a character has the Unicode `White_Space` property, which is
/// that of the characters listed.
pub assume_specification[ char::is_whitespace ](c: char) -> (r: bool)
    ensures
        r == white(c),
;

/// Whether `char::is_alphanumeric` holds of a character (Unicode `Alphabetic` or `Numeric`).
pub uninterp spec fn alphanumeric(c: char) -> bool;

/// `char::is_alphanumeric` tells whether a character is a letter or a number in Unicode.
pub assume_specification[ char::is_alphanumeric ](c: char) -> (r: bool)
    ensures
        r == alphanumeric(c),
;

/// The lower-case text that `str::to_lowercase` gives.
pub uninterp spec fn lowercase(text: Seq<char>) -> Seq<char>;

/// `str::to_lowercase` maps a text to its Unicode lower case, whatever the locale.
pub assume_specification[ str::to_lowercase ](s: &str) -> (r: String)
    ensures
        r@ == lowercase(s@),
;

/// The text of the error that `String::from_utf8` gives for bytes that are no UTF-8 text.
pub uninterp spec fn utf8_error(bytes: Seq<u8>) -> Seq<char>;

/// `String::from_utf8` gives the text of which bytes are the UTF-8 encoding, and an error for bytes
/// that encode no text. The text of the error depends on the bytes alone.
#[verifier::external_body]
pub(crate) fn from_utf8(bytes: Vec<u8>) -> (r: Result<String, String>)
    ensures
        match r {
            Ok(text) => valid_utf8(bytes@) && encode_utf8(text@) == bytes@,
            Err(error) => !valid_utf8(bytes@) && error@ == utf8_error(bytes@),
        },
{
    String::from_utf8(bytes).map_err(|e| e.to_string())
}

// ── Views of text inside standard containers ──

/// The view of an optional text.
pub open spec fn opt(text: Option<String>) -> Option<Seq<char>> {
    match text {
        Some(t) => Some(t@),
        None => None,
    }
}

/// The view of an optional borrowed text.
pub open spec fn opt_str(text: Option<&str>) -> Option<Seq<char>> {
    match text {
        Some(t) => Some(t@),
        None => None,
    }
}

/// The views of a list of texts.
pub open spec fn views(list: Seq<String>) -> Seq<Seq<char>> {
    Seq::new(list.len(), |i: int| list[i]@)
}

/// The views of a list of borrowed texts.
pub open spec fn str_views(list: Seq<&'static str>) -> Seq<Seq<char>> {
    Seq::new(list.len(), |i: int| list[i]@)
}

/// A copy of an optional text.
pub fn clone_opt(text: &Option<String>) -> (r: Option<String>)
    ensures
        opt(r) == opt(*text),
{
    match text {
        Some(t) => Some(t.clone()),
        None => None,
    }
}

/// A copy of a list of texts.
pub fn clone_list(list: &Vec<String>) -> (r: Vec<String>)
    ensures
        views(r@) == views(list@),
{
    let mut out: Vec<String> = Vec::new();
    let mut i: usize = 0;
    while i < list.len()
        invariant
            i <= list@.len(),
            out@.len() == i,
            forall|j: int| 0 <= j < i ==> out@[j]@ == list@[j]@,
        decreases list@.len() - i,
    {
        out.push(list[i].clone());
        i = i + 1;
    }
    out
}

// ── Characters ──

/// The characters of `text`, in order.
pub fn chars_of(text: &str) -> (r: Vec<char>)
    ensures
        r@ == text@,
{
    let mut out: Vec<char> = Vec::new();
    for c in it: text.chars()
        invariant
            out@ == it.seq().take(it.index()),
            it.seq() == text@,
    {
        out.push(c);
    }
    out
}

/// The text made of `chars[from..to]`.
pub fn text_of(chars: &Vec<char>, from: usize, to: usize) -> (r: String)
    requires
        from <= to <= chars@.len(),
    ensures
        r@ == chars@.subrange(from as int, to as int),
{
    let mut out = String::new();
    let mut i: usize = from;
    while i < to
        invariant
            from <= i <= to <= chars@.len(),
            out@ == chars@.subrange(from as int, i as int),
        decreases to - i,
    {
        out.push(chars[i]);
        i = i + 1;
    }
    out
}

/// The concatenation of two texts.
pub fn join2(a: &str, b: &str) -> (r: String)
    ensures
        r@ == a@ + b@,
{
    let mut out = a.to_owned();
    out.append(b);
    out
}

/// The concatenation of three texts.
pub fn join3(a: &str, b: &str, c: &str) -> (r: String)
    ensures
        r@ == a@ + b@ + c@,
{
    let mut out = join2(a, b);
    out.append(c);
    out
}

// ── Searching ──

/// `part` stands in `text` at position `i`.
pub open spec fn occurs_at(text: Seq<char>, part: Seq<char>, i: int) -> bool {
    0 <= i && i + part.len() <= text.len() && text.subrange(i, i + part.len()) == part
}

/// `part` stands somewhere in `text`.
pub open spec fn contains(text: Seq<char>, part: Seq<char>) -> bool {
    exists|i: int| occurs_at(text, part, i)
}

/// The first position from `from` on at which `part` stands in `text`.
pub open spec fn find_from(text: Seq<char>, part: Seq<char>, from: int) -> Option<int>
    decreases text.len() - part.len() - from + 1,
{
    if from + part.len() > text.len() {
        None
    } else if occurs_at(text, part, from) {
        Some(from)
    } else {
        find_from(text, part, from + 1)
    }
}

/// The first position at which `part` stands in `text`.
pub open spec fn find(text: Seq<char>, part: Seq<char>) -> Option<int> {
    find_from(text, part, 0)
}

/// The last position up to `upto` at which `part` stands in `text`.
pub open spec fn rfind_upto(text: Seq<char>, part: Seq<char>, upto: int) -> Option<int>
    decreases upto + 1,
{
    if upto < 0 {
        None
    } else if occurs_at(text, part, upto) {
        Some(upto)
    } else {
        rfind_upto(text, part, upto - 1)
    }
}

/// The last position at which `part` stands in `text`.
pub open spec fn rfind(text: Seq<char>, part: Seq<char>) -> Option<int> {
    rfind_upto(text, part, text.len() - part.len())
}

/// `find_from` gives the least position at or after `from`, and gives one exactly when there is
/// one.
pub proof fn lemma_find_from(text: Seq<char>, part: Seq<char>, from: int)
    requires
        0 <= from,
    ensures
        match find_from(text, part, from) {
            Some(i) => from <= i && occurs_at(text, part, i) && forall|j: int|
                from <= j < i ==> !occurs_at(text, part, j),
            None => forall|j: int| from <= j ==> !occurs_at(text, part, j),
        },
    decreases text.len() - part.len() - from + 1,
{
    if from + part.len() <= text.len() && !occurs_at(text, part, from) {
        lemma_find_from(text, part, from + 1);
    }
}

/// A text is found at the first of the positions at which it stands.
pub proof fn lemma_find_first(text: Seq<char>, part: Seq<char>, at: int)
    requires
        occurs_at(text, part, at),
        forall|j: int| 0 <= j < at ==> !occurs_at(text, part, j),
    ensures
        find(text, part) == Some(at),
{
    lemma_find_from(text, part, 0);
}

/// `rfind_upto` gives the greatest position up to `upto`, and gives one exactly when there is one.
pub proof fn lemma_rfind_upto(text: Seq<char>, part: Seq<char>, upto: int)
    ensures
        match rfind_upto(text, part, upto) {
            Some(i) => i <= upto && occurs_at(text, part, i) && forall|j: int|
                i < j <= upto ==> !occurs_at(text, part, j),
            None => forall|j: int| j <= upto ==> !occurs_at(text, part, j),
        },
    decreases upto + 1,
{
    if 0 <= upto && !occurs_at(text, part, upto) {
        lemma_rfind_upto(text, part, upto - 1);
    }
}

/// A character that a text behind it does not hold is found last in front of that text.
pub proof fn lemma_rfind_char(head: Seq<char>, c: char, tail: Seq<char>)
    requires
        !tail.contains(c),
    ensures
        rfind(head + seq![c] + tail, seq![c]) == Some(head.len() as int),
{
    let all = head + seq![c] + tail;
    let part = seq![c];
    lemma_rfind_upto(all, part, all.len() - 1);
    assert(all.subrange(head.len() as int, head.len() as int + 1) =~= part);
    assert(occurs_at(all, part, head.len() as int));
    assert forall|j: int| head.len() < j < all.len() implies !occurs_at(all, part, j) by {
        if occurs_at(all, part, j) {
            assert(all.subrange(j, j + 1)[0] == c);
            assert(tail[j - head.len() - 1] == c);
        }
    }
}

/// A text is found exactly when it stands somewhere in the other.
pub proof fn lemma_find_iff_contains(text: Seq<char>, part: Seq<char>)
    ensures
        find(text, part) is Some <==> contains(text, part),
{
    lemma_find_from(text, part, 0);
}

/// Whether `part` stands in `chars` at `i`.
pub fn matches_at(chars: &Vec<char>, part: &Vec<char>, i: usize) -> (r: bool)
    requires
        i <= chars@.len(),
    ensures
        r == occurs_at(chars@, part@, i as int),
{
    if chars.len() - i < part.len() {
        return false;
    }
    let mut k: usize = 0;
    while k < part.len()
        invariant
            i + part.len() <= chars.len(),
            k <= part@.len(),
            forall|j: int| 0 <= j < k ==> chars@[i + j] == part@[j],
        decreases part@.len() - k,
    {
        if chars[i + k] != part[k] {
            assert(chars@.subrange(i as int, i + part@.len())[k as int] != part@[k as int]);
            return false;
        }
        k = k + 1;
    }
    assert(chars@.subrange(i as int, i + part@.len()) =~= part@);
    true
}

/// The first position at which `part` stands in `chars`.
pub fn find_chars(chars: &Vec<char>, part: &Vec<char>) -> (r: Option<usize>)
    ensures
        match r {
            Some(i) => find(chars@, part@) == Some(i as int) && i + part@.len() <= chars@.len(),
            None => find(chars@, part@) is None,
        },
{
    if chars.len() < part.len() {
        return None;
    }
    let last: usize = chars.len() - part.len();
    let mut i: usize = 0;
    loop
        invariant
            last == chars@.len() - part@.len(),
            i <= last,
            find(chars@, part@) == find_from(chars@, part@, i as int),
        decreases last - i,
    {
        if matches_at(chars, part, i) {
            return Some(i);
        }
        if i == last {
            assert(find_from(chars@, part@, last + 1) is None);
            return None;
        }
        i = i + 1;
    }
}

/// The last position at which `part` stands in `chars`.
pub fn rfind_chars(chars: &Vec<char>, part: &Vec<char>) -> (r: Option<usize>)
    ensures
        match r {
            Some(i) => rfind(chars@, part@) == Some(i as int) && i + part@.len() <= chars@.len(),
            None => rfind(chars@, part@) is None,
        },
{
    if chars.len() < part.len() {
        return None;
    }
    let mut i: usize = chars.len() - part.len();
    loop
        invariant
            i + part@.len() <= chars@.len(),
            rfind(chars@, part@) == rfind_upto(chars@, part@, i as int),
        decreases i,
    {
        if matches_at(chars, part, i) {
            return Some(i);
        }
        if i == 0 {
            assert(rfind_upto(chars@, part@, -1) is None);
            return None;
        }
        i = i - 1;
    }
}

/// Whether `part` stands somewhere in `text`.
pub fn has_text(text: &str, part: &str) -> (r: bool)
    ensures
        r == contains(text@, part@),
{
    proof {
        lemma_find_iff_contains(text@, part@);
    }
    find_chars(&chars_of(text), &chars_of(part)).is_some()
}

/// Whether `text` begins with `part`.
pub fn begins_with(text: &str, part: &str) -> (r: bool)
    ensures
        r == part@.is_prefix_of(text@),
{
    matches_at(&chars_of(text), &chars_of(part), 0)
}

/// Whether `text` ends with `part`.
pub fn ends_with(text: &str, part: &str) -> (r: bool)
    ensures
        r == part@.is_suffix_of(text@),
{
    let chars = chars_of(text);
    let tail = chars_of(part);
    if chars.len() < tail.len() {
        return false;
    }
    matches_at(&chars, &tail, chars.len() - tail.len())
}

/// What follows `part` at the front of `text`.
pub open spec fn without_prefix(text: Seq<char>, part: Seq<char>) -> Option<Seq<char>> {
    if part.is_prefix_of(text) {
        Some(text.skip(part.len() as int))
    } else {
        None
    }
}

/// What follows `part` at the front of `text`, if `text` begins with it.
pub fn strip_prefix(text: &str, part: &str) -> (r: Option<String>)
    ensures
        opt(r) == without_prefix(text@, part@),
{
    let chars = chars_of(text);
    let head = chars_of(part);
    if matches_at(&chars, &head, 0) {
        Some(text_of(&chars, head.len(), chars.len()))
    } else {
        None
    }
}

/// What stands before `part` at the end of `text`.
pub open spec fn without_suffix(text: Seq<char>, part: Seq<char>) -> Option<Seq<char>> {
    if part.is_suffix_of(text) {
        Some(text.take(text.len() - part.len()))
    } else {
        None
    }
}

/// What stands before `part` at the end of `text`, if `text` ends with it.
pub fn strip_suffix(text: &str, part: &str) -> (r: Option<String>)
    ensures
        opt(r) == without_suffix(text@, part@),
{
    if ends_with(text, part) {
        let chars = chars_of(text);
        let tail = chars_of(part);
        Some(text_of(&chars, 0, chars.len() - tail.len()))
    } else {
        None
    }
}

// ── Trimming ──

/// `text` without the white space at its front.
pub open spec fn trimmed_start(text: Seq<char>) -> Seq<char>
    decreases text.len(),
{
    if text.len() > 0 && white(text[0]) {
        trimmed_start(text.skip(1))
    } else {
        text
    }
}

/// `text` without the white space at its end.
pub open spec fn trimmed_end(text: Seq<char>) -> Seq<char>
    decreases text.len(),
{
    if text.len() > 0 && white(text.last()) {
        trimmed_end(text.drop_last())
    } else {
        text
    }
}

/// `text` without the white space at its two ends.
pub open spec fn trimmed(text: Seq<char>) -> Seq<char> {
    trimmed_end(trimmed_start(text))
}

/// `text` without the white space at its two ends.
pub fn trim(text: &str) -> (r: String)
    ensures
        r@ == trimmed(text@),
{
    let chars = chars_of(text);
    let n: usize = chars.len();
    let mut from: usize = 0;
    assert(chars@.skip(0) =~= chars@);
    while from < n && chars[from].is_whitespace()
        invariant
            n == chars@.len(),
            from <= n,
            trimmed_start(chars@) == trimmed_start(chars@.skip(from as int)),
        decreases n - from,
    {
        assert(chars@.skip(from as int).skip(1) =~= chars@.skip(from + 1));
        from = from + 1;
    }
    assert(trimmed_start(chars@) == chars@.skip(from as int));
    let ghost rest = chars@.skip(from as int);
    let mut to: usize = n;
    assert(chars@.subrange(from as int, to as int) =~= rest);
    while from < to && chars[to - 1].is_whitespace()
        invariant
            n == chars@.len(),
            from <= to <= n,
            rest == chars@.skip(from as int),
            trimmed_end(rest) == trimmed_end(chars@.subrange(from as int, to as int)),
        decreases to,
    {
        assert(chars@.subrange(from as int, to as int).drop_last() =~= chars@.subrange(
            from as int,
            to - 1,
        ));
        to = to - 1;
    }
    text_of(&chars, from, to)
}

/// Nothing is left of a text once it is trimmed exactly if all of it is white space.
pub proof fn law_blank_text_is_trimmed_away(text: Seq<char>)
    ensures
        trimmed(text).len() == 0 <==> forall|i: int| 0 <= i < text.len() ==> white(#[trigger] text[i]),
{
    lemma_trimmed_start(text);
    lemma_trimmed_end(trimmed_start(text));
}

/// A text that was trimmed has no white space at its ends; trimming it again changes nothing, and
/// it stands in the text that it was trimmed from, with white space alone around it.
pub proof fn law_trimmed_text_is_trimmed(text: Seq<char>)
    ensures
        trimmed(trimmed(text)) == trimmed(text),
        trimmed(text).len() > 0 ==> !white(trimmed(text)[0]) && !white(trimmed(text).last()),
        exists|before: Seq<char>, behind: Seq<char>|
            text == #[trigger] (before + trimmed(text) + behind) && (forall|i: int|
                0 <= i < before.len() ==> white(#[trigger] before[i])) && (forall|i: int|
                0 <= i < behind.len() ==> white(#[trigger] behind[i])),
{
    let start = trimmed_start(text);
    let t = trimmed(text);
    lemma_trimmed_start(text);
    lemma_trimmed_end(start);
    let before = text.take(text.len() - start.len());
    let behind = start.skip(t.len() as int);
    assert(text =~= before + t + behind);
    assert forall|i: int| 0 <= i < before.len() implies white(#[trigger] before[i]) by {
        assert(before[i] == text[i]);
    }
    assert forall|i: int| 0 <= i < behind.len() implies white(#[trigger] behind[i]) by {
        assert(behind[i] == start[t.len() + i]);
    }
}

proof fn lemma_trimmed_start(text: Seq<char>)
    ensures
        trimmed_start(text).len() > 0 ==> !white(trimmed_start(text)[0]),
        trimmed_start(text).len() <= text.len(),
        trimmed_start(text) == text.skip(text.len() - trimmed_start(text).len()),
        forall|i: int|
            0 <= i < text.len() - trimmed_start(text).len() ==> white(#[trigger] text[i]),
    decreases text.len(),
{
    if text.len() > 0 && white(text[0]) {
        let rest = text.skip(1);
        lemma_trimmed_start(rest);
        let k = rest.len() - trimmed_start(rest).len();
        assert(text.skip(k + 1) =~= rest.skip(k));
        assert forall|i: int| 0 <= i < k + 1 implies white(#[trigger] text[i]) by {
            if i > 0 {
                assert(rest[i - 1] == text[i]);
            }
        }
    } else {
        assert(text.skip(0) =~= text);
    }
}

proof fn lemma_trimmed_end(text: Seq<char>)
    ensures
        text.len() > 0 && !white(text[0]) ==> trimmed_end(text).len() > 0,
        text.len() == 0 ==> trimmed_end(text).len() == 0,
        trimmed_end(text).len() > 0 ==> !white(trimmed_end(text).last()),
        trimmed_end(text).len() <= text.len(),
        trimmed_end(text) == text.take(trimmed_end(text).len() as int),
        forall|i: int|
            trimmed_end(text).len() <= i < text.len() ==> white(#[trigger] text[i]),
    decreases text.len(),
{
    if text.len() > 0 && white(text.last()) {
        let init = text.drop_last();
        lemma_trimmed_end(init);
        let k = trimmed_end(init).len() as int;
        assert(text.take(k) =~= init.take(k));
        assert forall|i: int| k <= i < text.len() implies white(#[trigger] text[i]) by {
            if i < init.len() {
                assert(init[i] == text[i]);
            }
        }
    } else {
        assert(text.take(text.len() as int) =~= text);
    }
}

// ── Replacing ──

/// `text` with each occurrence of `part`, taken from the left, replaced by `by`.
pub open spec fn replaced(text: Seq<char>, part: Seq<char>, by: Seq<char>) -> Seq<char>
    decreases text.len(),
{
    if part.len() == 0 || text.len() < part.len() {
        text
    } else if part.is_prefix_of(text) {
        by + replaced(text.skip(part.len() as int), part, by)
    } else {
        seq![text[0]] + replaced(text.skip(1), part, by)
    }
}

/// `text` with each occurrence of the non-empty `part`, taken from the left, replaced by `by`.
pub fn replace_text(text: &str, part: &str, by: &str) -> (r: String)
    requires
        part@.len() > 0,
    ensures
        r@ == replaced(text@, part@, by@),
{
    let chars = chars_of(text);
    let pat = chars_of(part);
    let n: usize = chars.len();
    let m: usize = pat.len();
    let mut out = String::new();
    let mut i: usize = 0;
    assert(chars@.skip(0) =~= chars@);
    while n - i >= m
        invariant
            n == chars@.len(),
            m == pat@.len(),
            pat@ == part@,
            m > 0,
            i <= n,
            replaced(chars@, pat@, by@) == out@ + replaced(chars@.skip(i as int), pat@, by@),
        decreases n - i,
    {
        let ghost rest = chars@.skip(i as int);
        let ghost before = out@;
        if matches_at(&chars, &pat, i) {
            proof {
                assert(rest.subrange(0, m as int) =~= chars@.subrange(i as int, i + m));
                assert(rest.skip(m as int) =~= chars@.skip(i + m));
                let tail = replaced(chars@.skip(i + m), pat@, by@);
                assert(before + (by@ + tail) =~= (before + by@) + tail);
            }
            out.append(by);
            i = i + m;
        } else {
            proof {
                assert(rest.subrange(0, m as int) =~= chars@.subrange(i as int, i + m));
                assert(rest.skip(1) =~= chars@.skip(i + 1));
                let tail = replaced(chars@.skip(i + 1), pat@, by@);
                assert(before + (seq![rest[0]] + tail) =~= before.push(rest[0]) + tail);
            }
            out.push(chars[i]);
            i = i + 1;
        }
    }
    let tail = text_of(&chars, i, n);
    proof {
        assert(chars@.subrange(i as int, n as int) =~= chars@.skip(i as int));
    }
    out.append(tail.as_str());
    out
}

// ── Splitting ──

/// The pieces of `text` between the occurrences of `sep`.
pub open spec fn split_on(text: Seq<char>, sep: char) -> Seq<Seq<char>>
    decreases text.len(),
{
    match find(text, seq![sep]) {
        Some(i) => if 0 <= i < text.len() {
            seq![text.take(i)] + split_on(text.skip(i + 1), sep)
        } else {
            seq![text]
        },
        None => seq![text],
    }
}

/// A text without the separator is its only piece.
pub proof fn lemma_split_one(text: Seq<char>, sep: char)
    requires
        !text.contains(sep),
    ensures
        split_on(text, sep) == seq![text],
{
    lemma_find_from(text, seq![sep], 0);
    if let Some(i) = find(text, seq![sep]) {
        assert(text.subrange(i, i + 1)[0] == sep);
        assert(text[i] == sep);
    }
}

/// The pieces of a text with a separator in it are those before and those behind that separator.
pub proof fn lemma_split_joined(head: Seq<char>, sep: char, tail: Seq<char>)
    ensures
        split_on(head + seq![sep] + tail, sep) == split_on(head, sep) + split_on(tail, sep),
    decreases head.len(),
{
    let part = seq![sep];
    let all = head + part + tail;
    lemma_find_from(all, part, 0);
    lemma_find_from(head, part, 0);
    assert(all.subrange(head.len() as int, head.len() as int + 1) =~= part);
    assert(occurs_at(all, part, head.len() as int));
    assert forall|j: int| 0 <= j < head.len() implies occurs_at(all, part, j) == occurs_at(
        head,
        part,
        j,
    ) by {
        assert(all.subrange(j, j + 1) =~= head.subrange(j, j + 1));
    }
    match find(head, part) {
        Some(i) => {
            assert(i < head.len());
            assert(occurs_at(all, part, i));
            assert(find(all, part) == Some(i));
            assert(all.take(i) =~= head.take(i));
            assert(all.skip(i + 1) =~= head.skip(i + 1) + part + tail);
            lemma_split_joined(head.skip(i + 1), sep, tail);
            assert(split_on(all, sep) =~= split_on(head, sep) + split_on(tail, sep));
        },
        None => {
            assert(find(all, part) == Some(head.len() as int));
            assert(all.take(head.len() as int) =~= head);
            assert(all.skip(head.len() as int + 1) =~= tail);
            assert(split_on(all, sep) =~= split_on(head, sep) + split_on(tail, sep));
        },
    }
}

/// The pieces of `text` between the occurrences of `sep`.
pub fn split(text: &str, sep: char) -> (r: Vec<String>)
    ensures
        views(r@) == split_on(text@, sep),
        r@.len() > 0,
{
    let chars = chars_of(text);
    let n: usize = chars.len();
    let mut out: Vec<String> = Vec::new();
    let mut from: usize = 0;
    let mut i: usize = 0;
    assert(chars@.skip(0) =~= chars@);
    while i < n
        invariant
            n == chars@.len(),
            from <= i <= n,
            split_on(chars@, sep) == views(out@) + split_on(chars@.skip(from as int), sep),
            find(chars@.skip(from as int), seq![sep]) == find_from(
                chars@.skip(from as int),
                seq![sep],
                i - from,
            ),
        decreases n - i,
    {
        let ghost rest = chars@.skip(from as int);
        let ghost before = views(out@);
        assert(rest.subrange(i - from, i - from + 1) =~= seq![chars@[i as int]]);
        if chars[i] == sep {
            proof {
                assert(occurs_at(rest, seq![sep], i - from));
                assert(rest.take(i - from) =~= chars@.subrange(from as int, i as int));
                assert(rest.skip(i - from + 1) =~= chars@.skip(i + 1));
                let piece = chars@.subrange(from as int, i as int);
                let tail = split_on(chars@.skip(i + 1), sep);
                assert(before + (seq![piece] + tail) =~= before.push(piece) + tail);
            }
            out.push(text_of(&chars, from, i));
            assert(views(out@) =~= before.push(chars@.subrange(from as int, i as int)));
            from = i + 1;
        } else {
            assert(rest.subrange(i - from, i - from + 1)[0] != sep);
            assert(!occurs_at(rest, seq![sep], i - from));
        }
        i = i + 1;
    }
    let ghost before = views(out@);
    assert(chars@.subrange(from as int, n as int) =~= chars@.skip(from as int));
    out.push(text_of(&chars, from, n));
    assert(views(out@) =~= before.push(chars@.skip(from as int)));
    out
}

/// Words with a comma and a space between them.
pub open spec fn comma_separated(words: Seq<Seq<char>>) -> Seq<char>
    decreases words.len(),
{
    if words.len() == 0 {
        seq![]
    } else if words.len() == 1 {
        words[0]
    } else {
        comma_separated(words.drop_last()) + ", "@ + words.last()
    }
}

// ── Decimal numbers ──

/// The character of a decimal digit.
pub open spec fn digit_char(d: nat) -> char {
    (48 + d) as char
}

/// Whether a character is a decimal digit `0`–`9`.
pub open spec fn is_digit(c: char) -> bool {
    '0' <= c <= '9'
}

/// Whether every character is a decimal digit `0`–`9`.
pub open spec fn all_digits(text: Seq<char>) -> bool {
    forall|i: int| 0 <= i < text.len() ==> is_digit(#[trigger] text[i])
}

/// The decimal text of a number, without leading zeros.
pub open spec fn decimal(n: nat) -> Seq<char>
    decreases n,
{
    if n < 10 {
        seq![digit_char(n)]
    } else {
        decimal(n / 10).push(digit_char(n % 10))
    }
}

/// The decimal text of a number, of at least two digits.
pub open spec fn decimal2(n: nat) -> Seq<char> {
    if n < 10 {
        seq!['0'] + decimal(n)
    } else {
        decimal(n)
    }
}

/// The number that a text of digits stands for.
pub open spec fn value_of(digits: Seq<char>) -> nat
    decreases digits.len(),
{
    if digits.len() == 0 {
        0
    } else {
        value_of(digits.drop_last()) * 10 + (digits.last() as nat - 48) as nat
    }
}

/// The unsigned number that a text stands for, up to `max`: digits, with at most one `+` before
/// them.
pub open spec fn parsed_uint(text: Seq<char>, max: nat) -> Option<nat> {
    let digits = if text.len() > 1 && text[0] == '+' {
        text.skip(1)
    } else {
        text
    };
    if digits.len() > 0 && all_digits(digits) && value_of(digits) <= max {
        Some(value_of(digits))
    } else {
        None
    }
}

/// Appends the decimal text of `n`.
pub fn push_decimal(out: &mut String, n: u64)
    ensures
        final(out)@ == old(out)@ + decimal(n as nat),
    decreases n,
{
    if n >= 10 {
        push_decimal(out, n / 10);
    }
    let d: u8 = (n % 10) as u8;
    out.push((48u8 + d) as char);
    proof {
        let rest = if n >= 10 { decimal((n / 10) as nat) } else { Seq::<char>::empty() };
        assert(old(out)@ + rest.push(digit_char((n % 10) as nat)) =~= (old(out)@ + rest).push(
            digit_char((n % 10) as nat),
        ));
        assert(rest.push(digit_char((n % 10) as nat)) =~= decimal(n as nat));
    }
}

/// The decimal text of `n`.
pub fn decimal_text(n: u64) -> (r: String)
    ensures
        r@ == decimal(n as nat),
{
    let mut out = String::new();
    push_decimal(&mut out, n);
    out
}

/// The decimal text of `n`, of at least two digits.
pub fn decimal2_text(n: u64) -> (r: String)
    ensures
        r@ == decimal2(n as nat),
{
    let mut out = String::new();
    if n < 10 {
        out.push('0');
    }
    push_decimal(&mut out, n);
    out
}

/// The first digits of a text stand for no larger a number than all of them.
pub proof fn lemma_value_of_prefix(digits: Seq<char>, k: int)
    requires
        0 <= k <= digits.len(),
    ensures
        value_of(digits.take(k)) <= value_of(digits),
    decreases digits.len() - k,
{
    if k < digits.len() {
        lemma_value_of_prefix(digits.drop_last(), k);
        assert(digits.drop_last().take(k) =~= digits.take(k));
    } else {
        assert(digits.take(k) =~= digits);
    }
}

/// The unsigned number that `text` stands for, up to `max`.
pub fn parse_uint(text: &str, max: u64) -> (r: Option<u64>)
    ensures
        match r {
            Some(n) => parsed_uint(text@, max as nat) == Some(n as nat),
            None => parsed_uint(text@, max as nat) is None,
        },
{
    let chars = chars_of(text);
    let n: usize = chars.len();
    let from: usize = if n > 1 && chars[0] == '+' {
        1
    } else {
        0
    };
    let ghost digits = chars@.skip(from as int);
    assert(from == 0 ==> digits =~= text@);
    if from == n {
        return None;
    }
    let mut value: u64 = 0;
    let mut i: usize = from;
    assert(digits.take(0) =~= Seq::<char>::empty());
    while i < n
        invariant
            n == chars@.len(),
            from <= i <= n,
            digits == chars@.skip(from as int),
            value <= max,
            value == value_of(digits.take(i - from)),
            all_digits(digits.take(i - from)),
            parsed_uint(text@, max as nat) == (if digits.len() > 0 && all_digits(digits)
                && value_of(digits) <= max {
                Some(value_of(digits))
            } else {
                None
            }),
        decreases n - i,
    {
        let c: char = chars[i];
        assert(digits[i - from] == c);
        if c < '0' || '9' < c {
            assert(!is_digit(digits[i - from]));
            return None;
        }
        let d: u64 = (c as u32 - 48) as u64;
        let ghost next = digits.take(i - from + 1);
        proof {
            assert(next.drop_last() =~= digits.take(i - from));
            assert(next.last() == c);
            assert(value_of(next) == value * 10 + d);
            lemma_value_of_prefix(digits, i - from + 1);
            assert(all_digits(next)) by {
                assert forall|j: int| 0 <= j < next.len() implies is_digit(#[trigger] next[j]) by {
                    if j < i - from {
                        assert(digits.take(i - from)[j] == next[j]);
                    }
                }
            }
        }
        if value > (u64::MAX - d) / 10 {
            return None;
        }
        value = value * 10 + d;
        if value > max {
            return None;
        }
        i = i + 1;
    }
    assert(digits.take(n - from) =~= digits);
    Some(value)
}

/// The text of a number in two digits or more is made of digits that stand for the number; it has
/// two digits below 100, and begins with no `0` from there on.
pub proof fn law_two_digits(n: nat)
    ensures
        all_digits(decimal2(n)),
        value_of(decimal2(n)) == n,
        n < 100 ==> decimal2(n).len() == 2,
        n >= 100 ==> decimal2(n).len() > 2 && decimal2(n)[0] != '0',
{
    lemma_decimal(n);
    if n < 10 {
        let t = decimal2(n);
        assert(t.drop_last() =~= seq!['0']);
        assert(seq!['0'].drop_last() =~= Seq::<char>::empty());
        assert(value_of(seq!['0']) == 0) by {
            reveal_with_fuel(value_of, 2);
        }
        assert forall|i: int| 0 <= i < t.len() implies is_digit(#[trigger] t[i]) by {
            if i == 1 {
                assert(t[i] == decimal(n)[0]);
            }
        }
    } else {
        lemma_leading_digit(n);
        if n < 100 {
            assert(decimal(n / 10).len() == 1);
        } else {
            lemma_leading_digit(n / 10);
            assert(decimal(n / 10).len() >= 2);
        }
    }
}

/// The decimal text of a number other than 0 begins with no `0`; it has a digit more than that of
/// a tenth of the number.
proof fn lemma_leading_digit(n: nat)
    requires
        n > 0,
    ensures
        decimal(n).len() > 0,
        decimal(n)[0] != '0',
        n >= 10 ==> decimal(n).len() == decimal(n / 10).len() + 1,
    decreases n,
{
    if n >= 10 {
        lemma_leading_digit(n / 10);
    }
}

/// Printing a number and reading it back gives the number.
pub proof fn law_decimal_round_trip(n: nat, max: nat)
    requires
        n <= max,
    ensures
        parsed_uint(decimal(n), max) == Some(n),
{
    lemma_decimal(n);
    let text = decimal(n);
    assert(is_digit(text[0]));
}

/// The decimal text of a number is made of digits that stand for it.
pub proof fn lemma_decimal(n: nat)
    ensures
        decimal(n).len() > 0,
        all_digits(decimal(n)),
        value_of(decimal(n)) == n,
    decreases n,
{
    if n < 10 {
        assert(decimal(n).drop_last() =~= Seq::<char>::empty());
        assert(value_of(decimal(n).drop_last()) == 0);
    } else {
        lemma_decimal(n / 10);
        let head = decimal(n / 10);
        assert(decimal(n).drop_last() =~= head);
        assert forall|i: int| 0 <= i < decimal(n).len() implies is_digit(
            #[trigger] decimal(n)[i],
        ) by {
            if i < head.len() {
                assert(head[i] == decimal(n)[i]);
            }
        }
    }
}

} // verus!
