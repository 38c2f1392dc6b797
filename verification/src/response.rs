//! HTTP responses: success envelopes and Problem Details.
use vstd::prelude::*;

use crate::encode;
use crate::http_code;
use crate::problem_type;
use crate::text;

verus! {

/// Media type of Problem Details responses.
pub const PROBLEM_JSON: &'static str = "application/problem+json";

/// A response header.
#[derive(Debug, PartialEq)]
pub struct Header {
    pub name: String,
    pub value: String,
}

/// What a response carries: nothing, a text, or a part of the requested file.
#[derive(Debug, PartialEq)]
pub enum Body {
    Empty,
    Text(String),
    FilePart { start: u64, length: u64 },
}

#[verifier::ext_equal]
pub enum BodyView {
    Empty,
    Text(Seq<char>),
    FilePart { start: u64, length: u64 },
}

impl View for Body {
    type V = BodyView;

    open spec fn view(&self) -> BodyView {
        match self {
            Body::Empty => BodyView::Empty,
            Body::Text(t) => BodyView::Text(t@),
            Body::FilePart { start, length } => BodyView::FilePart {
                start: *start,
                length: *length,
            },
        }
    }
}

/// An HTTP response.
#[derive(Debug, PartialEq)]
pub struct Response {
    pub status_code: u16,
    pub headers: Vec<Header>,
    pub body: Body,
}

#[verifier::ext_equal]
pub struct ResponseView {
    pub status_code: u16,
    pub headers: Seq<(Seq<char>, Seq<char>)>,
    pub body: BodyView,
}

/// The views of headers.
pub open spec fn header_views(headers: Seq<Header>) -> Seq<(Seq<char>, Seq<char>)> {
    Seq::new(headers.len(), |i: int| (headers[i].name@, headers[i].value@))
}

impl View for Response {
    type V = ResponseView;

    open spec fn view(&self) -> ResponseView {
        ResponseView {
            status_code: self.status_code,
            headers: header_views(self.headers@),
            body: self.body@,
        }
    }
}

/// A response that carries a text.
pub open spec fn text_reply(
    status_code: u16,
    content_type: Seq<char>,
    body: Seq<char>,
) -> ResponseView {
    ResponseView {
        status_code,
        headers: seq![("Content-Type"@, content_type)],
        body: BodyView::Text(body),
    }
}

/// A response with one more header.
pub open spec fn with_header(r: ResponseView, name: Seq<char>, value: Seq<char>) -> ResponseView {
    ResponseView { headers: r.headers.push((name, value)), ..r }
}

impl Response {
    /// A response that carries a text.
    pub fn text(status_code: u16, content_type: &str, body: String) -> (r: Response)
        ensures
            r@ == text_reply(status_code, content_type@, body@),
    {
        let mut headers: Vec<Header> = Vec::new();
        headers.push(
            Header { name: "Content-Type".to_owned(), value: content_type.to_owned() },
        );
        let r = Response { status_code, headers, body: Body::Text(body) };
        assert(r@.headers =~= seq![("Content-Type"@, content_type@)]);
        r
    }

    /// The response with one more header.
    pub fn add_header(self, name: &str, value: String) -> (r: Response)
        ensures
            r@ == with_header(self@, name@, value@),
    {
        let ghost before = self@;
        let ghost v = value@;
        let mut next = self;
        next.headers.push(Header { name: name.to_owned(), value });
        assert(next@.headers =~= before.headers.push((name@, v)));
        next
    }
}

// ── Success ──

/// The success envelope around a JSON value.
pub open spec fn envelope(value: Seq<char>) -> Seq<char> {
    "{\"data\":"@ + value + "}"@
}

/// Success response: the envelope `{"data": <value>}` around a value that is given as JSON.
pub fn json_data(status_code: u16, value: &str) -> (r: Response)
    ensures
        r@ == text_reply(status_code, "application/json"@, envelope(value@)),
{
    Response::text(status_code, "application/json", text::join3("{\"data\":", value, "}"))
}

/// The body of a fire-and-forget action that was taken on.
pub open spec fn action_body(message: Seq<char>) -> Seq<char> {
    "{\"data\":null,\"message\":"@ + encode::json_quoted(message) + "}"@
}

/// Success response of a fire-and-forget action.
pub fn action_response(message: &str) -> (r: Response)
    ensures
        r@ == text_reply(http_code::OK, "application/json"@, action_body(message@)),
{
    let quoted = encode::json_string(message);
    Response::text(
        http_code::OK,
        "application/json",
        text::join3("{\"data\":null,\"message\":", &quoted, "}"),
    )
}

// ── Failure ──

/// Problem Details.
#[derive(Debug, PartialEq)]
pub struct Problem {
    /// Problem class.
    pub type_uri: String,
    /// Short summary of the class.
    pub title: String,
    pub status: u16,
    /// What happened this time.
    pub detail: String,
    /// Identifies this occurrence.
    pub instance: Option<String>,
}

#[verifier::ext_equal]
pub struct ProblemView {
    pub type_uri: Seq<char>,
    pub title: Seq<char>,
    pub status: u16,
    pub detail: Seq<char>,
    pub instance: Option<Seq<char>>,
}

impl View for Problem {
    type V = ProblemView;

    open spec fn view(&self) -> ProblemView {
        ProblemView {
            type_uri: self.type_uri@,
            title: self.title@,
            status: self.status,
            detail: self.detail@,
            instance: text::opt(self.instance),
        }
    }
}

/// A problem as JSON; the instance is left out where there is none.
pub open spec fn problem_json(p: ProblemView) -> Seq<char> {
    "{\"type\":"@ + encode::json_quoted(p.type_uri) + ",\"title\":"@ + encode::json_quoted(p.title)
        + ",\"status\":"@ + text::decimal(p.status as nat) + ",\"detail\":"@ + encode::json_quoted(
        p.detail,
    ) + (match p.instance {
        Some(i) => ",\"instance\":"@ + encode::json_quoted(i),
        None => seq![],
    }) + "}"@
}

impl Problem {
    /// The problem as JSON.
    pub fn to_json(&self) -> (r: String)
        ensures
            r@ == problem_json(self@),
    {
        let mut out = "{\"type\":".to_owned();
        out.append(&encode::json_string(&self.type_uri));
        out.append(",\"title\":");
        out.append(&encode::json_string(&self.title));
        out.append(",\"status\":");
        out.append(&text::decimal_text(self.status as u64));
        out.append(",\"detail\":");
        out.append(&encode::json_string(&self.detail));
        let ghost head = out@;
        match &self.instance {
            Some(i) => {
                out.append(",\"instance\":");
                out.append(&encode::json_string(i));
                assert(out@ =~= head + (",\"instance\":"@ + encode::json_quoted(i@)));
            },
            None => {
                assert(out@ =~= head + Seq::<char>::empty());
            },
        }
        out.append("}");
        out
    }
}

/// The response that reports a problem.
pub open spec fn problem_reply(
    status: u16,
    type_uri: Seq<char>,
    title: Seq<char>,
    detail: Seq<char>,
) -> ResponseView {
    text_reply(
        status,
        PROBLEM_JSON@,
        problem_json(ProblemView { type_uri, title, status, detail, instance: None }),
    )
}

/// Problem Details response.
pub fn problem_response(status: u16, type_uri: &str, title: &str, detail: &str) -> (r: Response)
    ensures
        r@ == problem_reply(status, type_uri@, title@, detail@),
{
    let problem = Problem {
        type_uri: type_uri.to_owned(),
        title: title.to_owned(),
        status,
        detail: detail.to_owned(),
        instance: None,
    };
    Response::text(status, PROBLEM_JSON, problem.to_json())
}

/// The registered problem class and title of a status. A status that the registry does not name
/// has the class of internal errors.
pub open spec fn problem_class(code: u16) -> (Seq<char>, Seq<char>) {
    if code == 400 {
        (problem_type::INVALID_REQUEST@, "Invalid request"@)
    } else if code == 401 {
        (problem_type::UNAUTHORIZED@, "Unauthorized"@)
    } else if code == 404 {
        (problem_type::NOT_FOUND@, "Not found"@)
    } else if code == 405 {
        (problem_type::METHOD_NOT_ALLOWED@, "Method not allowed"@)
    } else if code == 416 {
        (problem_type::RANGE_NOT_SATISFIABLE@, "Range Not Satisfiable"@)
    } else if code == 503 {
        (problem_type::SERVICE_UNAVAILABLE@, "Service unavailable"@)
    } else {
        (problem_type::INTERNAL@, "Internal error"@)
    }
}

/// Maps an HTTP status to its registered problem class and title.
pub fn problem_type_for_status(code: u16) -> (r: (&'static str, &'static str))
    ensures
        (r.0@, r.1@) == problem_class(code),
{
    if code == http_code::BAD_REQUEST {
        (problem_type::INVALID_REQUEST, "Invalid request")
    } else if code == http_code::UNAUTHORIZED {
        (problem_type::UNAUTHORIZED, "Unauthorized")
    } else if code == http_code::NOT_FOUND {
        (problem_type::NOT_FOUND, "Not found")
    } else if code == http_code::METHOD_NOT_ALLOWED {
        (problem_type::METHOD_NOT_ALLOWED, "Method not allowed")
    } else if code == http_code::RANGE_NOT_SATISFIABLE {
        (problem_type::RANGE_NOT_SATISFIABLE, "Range Not Satisfiable")
    } else if code == http_code::SERVICE_UNAVAILABLE {
        (problem_type::SERVICE_UNAVAILABLE, "Service unavailable")
    } else {
        (problem_type::INTERNAL, "Internal error")
    }
}

/// The response to an API error. Rejected filters have a class of their own.
pub open spec fn api_error_reply(code: u16, message: Seq<char>) -> ResponseView {
    if code == 400 && "invalid filter"@.is_prefix_of(message) {
        problem_reply(code, problem_type::INVALID_FILTER@, "Invalid feed filter"@, message)
    } else {
        problem_reply(code, problem_class(code).0, problem_class(code).1, message)
    }
}

/// Problem Details response for an API error.
pub fn api_err_response(code: u16, message: &str) -> (r: Response)
    ensures
        r@ == api_error_reply(code, message@),
{
    if code == http_code::BAD_REQUEST && text::begins_with(message, "invalid filter") {
        return problem_response(
            code,
            problem_type::INVALID_FILTER,
            "Invalid feed filter",
            message,
        );
    }
    let (type_uri, title) = problem_type_for_status(code);
    problem_response(code, type_uri, title, message)
}

/// An error is answered with its own code as status, and its body is Problem Details.
pub proof fn law_errors_are_problems(code: u16, message: Seq<char>)
    ensures
        api_error_reply(code, message).status_code == code,
        api_error_reply(code, message).headers == seq![("Content-Type"@, PROBLEM_JSON@)],
{
}

} // verus!
