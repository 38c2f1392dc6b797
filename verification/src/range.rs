//! HTTP range requests.
use vstd::prelude::*;

use crate::http_code;
use crate::problem_type;
use crate::response::{self, Body, BodyView, Header, Response, ResponseView};
use crate::text;

verus! {

/// The number behind the dash of a suffix range such as `-500`.
pub open spec fn suffix_length(range: Seq<char>) -> Option<nat> {
    if range.len() > 0 && range[0] == '-' {
        text::parsed_uint(range.skip(1), u64::MAX as nat)
    } else {
        None
    }
}

/// The inclusive byte range that a text such as `0-499`, `500-` or `-500` asks of a file.
pub open spec fn requested_range(range: Seq<char>, file_size: u64) -> Option<(u64, u64)> {
    if range.len() > 0 && range[0] == '-' {
        match suffix_length(range) {
            Some(n) => if n == 0 || file_size == 0 {
                None
            } else if n >= file_size {
                Some((0, (file_size - 1) as u64))
            } else {
                Some(((file_size - n) as u64, (file_size - 1) as u64))
            },
            None => None,
        }
    } else {
        match text::find(range, seq!['-']) {
            Some(i) => match text::parsed_uint(range.take(i), u64::MAX as nat) {
                Some(start) => if start >= file_size {
                    None
                } else if range.skip(i + 1).len() == 0 {
                    Some((start as u64, (file_size - 1) as u64))
                } else {
                    match text::parsed_uint(range.skip(i + 1), u64::MAX as nat) {
                        Some(end) => if start <= end < file_size {
                            Some((start as u64, end as u64))
                        } else {
                            None
                        },
                        None => None,
                    }
                },
                None => None,
            },
            None => None,
        }
    }
}

/// Parses a range such as `0-499`, `500-` or `-500` into an inclusive byte range; `None` if it is
/// malformed or not within the file. No range lies within an empty file.
pub fn parse_range(range: &str, file_size: u64) -> (r: Option<(u64, u64)>)
    ensures
        r == requested_range(range@, file_size),
{
    let chars = text::chars_of(range);
    let len: usize = chars.len();
    if len > 0 && chars[0] == '-' {
        let digits = text::text_of(&chars, 1, len);
        assert(digits@ =~= range@.skip(1));
        let n: u64 = match text::parse_uint(&digits, u64::MAX) {
            Some(n) => n,
            None => {
                return None;
            },
        };
        if n == 0 || file_size == 0 {
            return None;
        }
        let start: u64 = if n >= file_size {
            0
        } else {
            file_size - n
        };
        return Some((start, file_size - 1));
    }
    let mut dash: Vec<char> = Vec::new();
    dash.push('-');
    assert(dash@ =~= seq!['-']);
    let at: usize = match text::find_chars(&chars, &dash) {
        Some(i) => i,
        None => {
            return None;
        },
    };
    let first = text::text_of(&chars, 0, at);
    let second = text::text_of(&chars, at + 1, len);
    assert(first@ =~= range@.take(at as int));
    assert(second@ =~= range@.skip(at + 1));
    let start: u64 = match text::parse_uint(&first, u64::MAX) {
        Some(n) => n,
        None => {
            return None;
        },
    };
    if start >= file_size {
        return None;
    }
    if second.as_str().is_empty() {
        return Some((start, file_size - 1));
    }
    match text::parse_uint(&second, u64::MAX) {
        Some(end) => if end >= file_size || end < start {
            None
        } else {
            Some((start, end))
        },
        None => None,
    }
}

/// The answer to a range that cannot be served.
pub open spec fn not_satisfiable(file_size: u64) -> ResponseView {
    response::with_header(
        response::problem_reply(
            416,
            problem_type::RANGE_NOT_SATISFIABLE@,
            "Range Not Satisfiable"@,
            "requested range is not satisfiable (file size "@ + text::decimal(file_size as nat)
                + ")"@,
        ),
        "Content-Range"@,
        "bytes */"@ + text::decimal(file_size as nat),
    )
}

/// The answer to a range that cannot be served.
pub fn build_416(file_size: u64) -> (r: Response)
    ensures
        r@ == not_satisfiable(file_size),
{
    let size = text::decimal_text(file_size);
    let detail = text::join3("requested range is not satisfiable (file size ", &size, ")");
    let r = response::problem_response(
        http_code::RANGE_NOT_SATISFIABLE,
        problem_type::RANGE_NOT_SATISFIABLE,
        "Range Not Satisfiable",
        &detail,
    );
    r.add_header("Content-Range", text::join2("bytes */", &size))
}

/// The range behind `bytes=` in a `Range` header; `None` where the header is of another unit or
/// asks for several ranges.
pub open spec fn single_range(header: Seq<char>) -> Option<Seq<char>> {
    match text::without_prefix(header, "bytes="@) {
        Some(rest) => if text::contains(text::trimmed(rest), seq![',']) {
            None
        } else {
            Some(text::trimmed(rest))
        },
        None => None,
    }
}

/// The range that a `Range` header asks of a file; the whole file without a header. A header that
/// cannot be served is refused.
pub open spec fn resolved(header: Option<Seq<char>>, file_size: u64) -> Result<
    Option<(u64, u64)>,
    ResponseView,
> {
    match header {
        None => Ok(None),
        Some(h) => match single_range(h) {
            None => Err(not_satisfiable(file_size)),
            Some(range) => match requested_range(range, file_size) {
                Some(found) => Ok(Some(found)),
                None => Err(not_satisfiable(file_size)),
            },
        },
    }
}

/// The range that a `Range` header asks of a file. Without a header the whole file is served
/// (`Ok(None)`); a header that cannot be served is answered with 416.
pub fn resolve_range(header: Option<&str>, file_size: u64) -> (r: Result<
    Option<(u64, u64)>,
    Response,
>)
    ensures
        match r {
            Ok(found) => resolved(text::opt_str(header), file_size) == Ok::<
                Option<(u64, u64)>,
                ResponseView,
            >(found),
            Err(refusal) => resolved(text::opt_str(header), file_size) == Err::<
                Option<(u64, u64)>,
                ResponseView,
            >(refusal@),
        },
{
    let given = match header {
        Some(h) => h,
        None => {
            return Ok(None);
        },
    };
    let range = match text::strip_prefix(given, "bytes=") {
        Some(rest) => text::trim(&rest),
        None => {
            return Err(build_416(file_size));
        },
    };
    proof {
        reveal_strlit(",");
        assert(","@ =~= seq![',']);
    }
    if text::has_text(&range, ",") {
        return Err(build_416(file_size));
    }
    match parse_range(&range, file_size) {
        Some(found) => Ok(Some(found)),
        None => Err(build_416(file_size)),
    }
}

/// The part of a file that is read: its first byte and its length. Nothing of an empty file.
pub open spec fn part(file_size: u64, range: Option<(u64, u64)>) -> Option<(u64, u64)> {
    if file_size == 0 {
        None
    } else {
        match range {
            None => Some((0, file_size)),
            Some((start, end)) => Some((start, (end - start + 1) as u64)),
        }
    }
}

/// The part of a file to read for a range.
pub fn part_to_read(file_size: u64, range: Option<(u64, u64)>) -> (r: Option<(u64, u64)>)
    requires
        file_size > 0 ==> (range matches Some((start, end)) ==> start <= end && end - start
            < u64::MAX),
    ensures
        r == part(file_size, range),
{
    if file_size == 0 {
        return None;
    }
    match range {
        None => Some((0, file_size)),
        Some((start, end)) => Some((start, end - start + 1)),
    }
}

/// The response that serves a file, whole (200) or in part (206); 500 if the part could not be
/// reached. An empty file is always served whole.
pub open spec fn file_response(
    file_size: u64,
    content_type: Seq<char>,
    range: Option<(u64, u64)>,
    reached: bool,
) -> ResponseView {
    if file_size == 0 {
        ResponseView {
            status_code: 200,
            headers: seq![("Content-Type"@, content_type), ("Accept-Ranges"@, "bytes"@)],
            body: BodyView::Empty,
        }
    } else if !reached {
        response::problem_reply(
            500,
            problem_type::INTERNAL@,
            "Internal error"@,
            "internal server error"@,
        )
    } else {
        match range {
            None => ResponseView {
                status_code: 200,
                headers: seq![("Content-Type"@, content_type), ("Accept-Ranges"@, "bytes"@)],
                body: BodyView::FilePart { start: 0, length: file_size },
            },
            Some((start, end)) => ResponseView {
                status_code: 206,
                headers: seq![
                    ("Content-Type"@, content_type),
                    (
                        "Content-Range"@,
                        "bytes "@ + text::decimal(start as nat) + "-"@ + text::decimal(end as nat)
                            + "/"@ + text::decimal(file_size as nat),
                    ),
                    ("Accept-Ranges"@, "bytes"@),
                ],
                body: BodyView::FilePart { start, length: (end - start + 1) as u64 },
            },
        }
    }
}

fn header(name: &str, value: &str) -> (r: Header)
    ensures
        r.name@ == name@,
        r.value@ == value@,
{
    Header { name: name.to_owned(), value: value.to_owned() }
}

/// Builds the response that serves a byte range of a file, or the whole file. `reached` tells
/// whether the start of the part could be reached in the file.
pub fn serve_file_range(
    file_size: u64,
    content_type: &str,
    range: Option<(u64, u64)>,
    reached: bool,
) -> (r: Response)
    requires
        file_size > 0 ==> (range matches Some((start, end)) ==> start <= end && end - start
            < u64::MAX),
    ensures
        r@ == file_response(file_size, content_type@, range, reached),
{
    let mut headers: Vec<Header> = Vec::new();
    headers.push(header("Content-Type", content_type));
    if file_size == 0 {
        headers.push(header("Accept-Ranges", "bytes"));
        let r = Response { status_code: http_code::OK, headers, body: Body::Empty };
        assert(r@.headers =~= file_response(file_size, content_type@, range, reached).headers);
        return r;
    }
    if !reached {
        return response::problem_response(
            http_code::INTERNAL,
            problem_type::INTERNAL,
            "Internal error",
            "internal server error",
        );
    }
    match range {
        None => {
            headers.push(header("Accept-Ranges", "bytes"));
            let r = Response {
                status_code: http_code::OK,
                headers,
                body: Body::FilePart { start: 0, length: file_size },
            };
            assert(r@.headers =~= file_response(file_size, content_type@, range, reached).headers);
            r
        },
        Some((start, end)) => {
            let mut value = "bytes ".to_owned();
            value.append(&text::decimal_text(start));
            value.append("-");
            value.append(&text::decimal_text(end));
            value.append("/");
            value.append(&text::decimal_text(file_size));
            headers.push(header("Content-Range", &value));
            headers.push(header("Accept-Ranges", "bytes"));
            let r = Response {
                status_code: http_code::PARTIAL_CONTENT,
                headers,
                body: Body::FilePart { start, length: end - start + 1 },
            };
            assert(r@.headers =~= file_response(file_size, content_type@, range, reached).headers);
            r
        },
    }
}

/// A range that is resolved lies within the file.
pub proof fn lemma_resolved_lies_within(header: Option<Seq<char>>, file_size: u64)
    ensures
        resolved(header, file_size) matches Ok(Some((start, end))) ==> start <= end < file_size,
{
}

// ── Laws ──

/// A range that is served lies within the file and is not empty.
pub proof fn law_range_lies_within_file(range: Seq<char>, file_size: u64)
    ensures
        requested_range(range, file_size) matches Some((start, end)) ==> start <= end < file_size,
{
}

/// The part that is served for a range is the bytes from its start up to and including its end,
/// and nothing outside the file.
pub proof fn law_served_part_is_the_range(
    range: Seq<char>,
    file_size: u64,
    content_type: Seq<char>,
)
    requires
        requested_range(range, file_size) is Some,
    ensures
        ({
            let (start, end) = requested_range(range, file_size)->Some_0;
            let r = file_response(file_size, content_type, Some((start, end)), true);
            &&& r.status_code == 206
            &&& r.body matches BodyView::FilePart { start: from, length } && from == start && from
                + length == end + 1 && from + length <= file_size
            &&& part(file_size, Some((start, end))) == Some((start, (end - start + 1) as u64))
        }),
{
}

/// Asking for the range that a start and an end in the file print to gives exactly that range.
pub proof fn law_printed_range_is_served(start: u64, end: u64, file_size: u64)
    requires
        start <= end < file_size,
    ensures
        requested_range(
            text::decimal(start as nat) + seq!['-'] + text::decimal(end as nat),
            file_size,
        ) == Some((start, end)),
{
    let a = text::decimal(start as nat);
    let b = text::decimal(end as nat);
    let s = a + seq!['-'] + b;
    text::law_decimal_round_trip(start as nat, u64::MAX as nat);
    text::law_decimal_round_trip(end as nat, u64::MAX as nat);
    text::lemma_decimal(start as nat);
    text::lemma_decimal(end as nat);
    assert(text::is_digit(a[0]));
    assert(s[0] == a[0]);
    assert(s.subrange(a.len() as int, a.len() as int + 1) =~= seq!['-']);
    assert(text::occurs_at(s, seq!['-'], a.len() as int));
    text::lemma_find_from(s, seq!['-'], 0);
    let i = text::find(s, seq!['-'])->Some_0;
    if i < a.len() {
        assert(s.subrange(i, i + 1)[0] == '-');
        assert(text::is_digit(a[i]));
    }
    assert(i == a.len());
    assert(s.take(i) =~= a);
    assert(s.skip(i + 1) =~= b);
}

/// A range of the last bytes: as many as are asked for, all of them where there are no more, and
/// none at all of an empty file.
pub proof fn law_last_bytes_are_served(n: nat, file_size: u64)
    requires
        n <= u64::MAX,
    ensures
        ({
            let found = requested_range(seq!['-'] + text::decimal(n), file_size);
            &&& n == 0 || file_size == 0 ==> found is None
            &&& 0 < n <= file_size ==> found == Some(
                ((file_size - n) as u64, (file_size - 1) as u64),
            )
            &&& 0 < file_size < n ==> found == Some((0u64, (file_size - 1) as u64))
        }),
{
    text::law_decimal_round_trip(n, u64::MAX as nat);
    let s = seq!['-'] + text::decimal(n);
    assert(s.skip(1) =~= text::decimal(n));
}

proof fn lemma_split_range(start: nat, end: Seq<char>)
    requires
        start <= u64::MAX,
    ensures
        ({
            let s = text::decimal(start) + seq!['-'] + end;
            let i = text::decimal(start).len() as int;
            &&& s.len() > 0 && s[0] != '-'
            &&& text::find(s, seq!['-']) == Some(i)
            &&& s.take(i) == text::decimal(start)
            &&& s.skip(i + 1) == end
            &&& text::parsed_uint(s.take(i), u64::MAX as nat) == Some(start)
        }),
{
    let a = text::decimal(start);
    let s = a + seq!['-'] + end;
    let i = a.len() as int;
    text::law_decimal_round_trip(start, u64::MAX as nat);
    text::lemma_decimal(start);
    assert(text::is_digit(a[0]));
    assert(s[0] == a[0]);
    assert(s.subrange(i, i + 1) =~= seq!['-']);
    assert forall|j: int| 0 <= j < i implies !text::occurs_at(s, seq!['-'], j) by {
        if text::occurs_at(s, seq!['-'], j) {
            assert(s.subrange(j, j + 1)[0] == '-');
            assert(text::is_digit(a[j]));
        }
    }
    text::lemma_find_first(s, seq!['-'], i);
    assert(s.take(i) =~= a);
    assert(s.skip(i + 1) =~= end);
}

/// A range with a first byte alone goes to the end of the file, if the file has that byte.
pub proof fn law_open_range_goes_to_the_end(start: u64, file_size: u64)
    ensures
        ({
            let found = requested_range(text::decimal(start as nat) + seq!['-'], file_size);
            &&& start < file_size ==> found == Some((start, (file_size - 1) as u64))
            &&& start >= file_size ==> found is None
        }),
{
    lemma_split_range(start as nat, seq![]);
    assert(text::decimal(start as nat) + seq!['-'] + Seq::<char>::empty() =~= text::decimal(
        start as nat,
    ) + seq!['-']);
}

/// A range whose last byte lies before its first one, or behind the end of the file, is not
/// served.
pub proof fn law_impossible_range_is_refused(start: u64, end: u64, file_size: u64)
    requires
        start > end || end >= file_size,
    ensures
        requested_range(
            text::decimal(start as nat) + seq!['-'] + text::decimal(end as nat),
            file_size,
        ) is None,
{
    lemma_split_range(start as nat, text::decimal(end as nat));
    text::law_decimal_round_trip(end as nat, u64::MAX as nat);
    text::lemma_decimal(end as nat);
}

/// Without a header the whole file is served. A header names one range behind `bytes=`; what it
/// names is served if the file has it, and otherwise refused with 416 and the size of the file.
/// More than one range is refused, too.
pub proof fn law_header_names_one_range(range: Seq<char>, file_size: u64)
    requires
        text::trimmed(range) == range,
    ensures
        resolved(None, file_size) == Ok::<Option<(u64, u64)>, ResponseView>(None),
        !range.contains(',') && requested_range(range, file_size) is Some ==> resolved(
            Some("bytes="@ + range),
            file_size,
        ) == Ok::<Option<(u64, u64)>, ResponseView>(requested_range(range, file_size)),
        range.contains(',') || requested_range(range, file_size) is None ==> (resolved(
            Some("bytes="@ + range),
            file_size,
        ) matches Err(refusal) && refusal.status_code == 416 && refusal.headers.contains(
            ("Content-Range"@, "bytes */"@ + text::decimal(file_size as nat)),
        )),
{
    let header = "bytes="@ + range;
    assert("bytes="@.is_prefix_of(header)) by {
        assert(header.subrange(0, "bytes="@.len() as int) =~= "bytes="@);
    }
    assert(header.skip("bytes="@.len() as int) =~= range);
    if range.contains(',') {
        let i = choose|i: int| 0 <= i < range.len() && range[i] == ',';
        assert(range.subrange(i, i + 1) =~= seq![',']);
        assert(text::occurs_at(range, seq![','], i));
    }
    if text::contains(range, seq![',']) {
        let i = choose|i: int| text::occurs_at(range, seq![','], i);
        assert(range.subrange(i, i + 1)[0] == ',');
        assert(range[i] == ',');
    }
    let refusal = not_satisfiable(file_size);
    assert(refusal.headers.last() == (
        "Content-Range"@,
        "bytes */"@ + text::decimal(file_size as nat),
    ));
}

/// A file is answered with all of it and 200, a range of it with those bytes, 206 and where they
/// stand in the file; ranges can be asked for in either case.
pub proof fn law_answer_tells_what_it_holds(
    file_size: u64,
    content_type: Seq<char>,
    start: u64,
    end: u64,
)
    requires
        start <= end < file_size,
    ensures
        ({
            let all = file_response(file_size, content_type, None, true);
            let some = file_response(file_size, content_type, Some((start, end)), true);
            &&& all.status_code == 200
            &&& all.body == (BodyView::FilePart { start: 0, length: file_size })
            &&& all.headers.contains(("Content-Type"@, content_type))
            &&& all.headers.contains(("Accept-Ranges"@, "bytes"@))
            &&& some.status_code == 206
            &&& some.body == (BodyView::FilePart { start, length: (end - start + 1) as u64 })
            &&& some.headers.contains(("Content-Type"@, content_type))
            &&& some.headers.contains(("Accept-Ranges"@, "bytes"@))
            &&& some.headers.contains(
                (
                    "Content-Range"@,
                    "bytes "@ + text::decimal(start as nat) + "-"@ + text::decimal(end as nat)
                        + "/"@ + text::decimal(file_size as nat),
                ),
            )
        }),
{
    let all = file_response(file_size, content_type, None, true);
    let some = file_response(file_size, content_type, Some((start, end)), true);
    assert(all.headers[0] == ("Content-Type"@, content_type));
    assert(all.headers[1] == ("Accept-Ranges"@, "bytes"@));
    assert(some.headers[0] == ("Content-Type"@, content_type));
    assert(some.headers[1].0 == "Content-Range"@);
    assert(some.headers[2] == ("Accept-Ranges"@, "bytes"@));
}

} // verus!
