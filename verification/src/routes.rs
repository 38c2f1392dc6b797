//! The routes of the HTTP API and the methods that each allows.
use vstd::prelude::*;

use crate::http_code;
use crate::problem_type;
use crate::response::{self, Response, ResponseView};
use crate::text;

verus! {

/// A known route: its path segments, where `{}` stands for any one segment, and its methods.
pub struct Route {
    pub pattern: Vec<&'static str>,
    pub methods: Vec<&'static str>,
}

#[verifier::ext_equal]
pub struct RouteView {
    pub pattern: Seq<Seq<char>>,
    pub methods: Seq<Seq<char>>,
}

impl View for Route {
    type V = RouteView;

    open spec fn view(&self) -> RouteView {
        RouteView { pattern: text::str_views(self.pattern@), methods: text::str_views(self.methods@) }
    }
}

/// The views of routes.
pub open spec fn route_views(routes: Seq<Route>) -> Seq<RouteView> {
    Seq::new(routes.len(), |i: int| routes[i]@)
}

/// The known routes. Of two routes that fit a path, the first counts.
pub open spec fn route_table() -> Seq<RouteView> {
    seq![
        RouteView { pattern: seq![], methods: seq!["GET"@] },
        RouteView { pattern: seq!["style.css"@], methods: seq!["GET"@] },
        RouteView { pattern: seq!["api"@, "feeds"@], methods: seq!["GET"@, "POST"@] },
        RouteView { pattern: seq!["api"@, "feeds"@, "preview"@], methods: seq!["POST"@] },
        RouteView { pattern: seq!["api"@, "feeds"@, "refresh"@], methods: seq!["POST"@] },
        RouteView { pattern: seq!["api"@, "feeds"@, "{}"@], methods: seq!["PUT"@, "DELETE"@] },
        RouteView { pattern: seq!["api"@, "files"@, "{}"@], methods: seq!["GET"@] },
        RouteView { pattern: seq!["api"@, "downloads"@], methods: seq!["GET"@] },
        RouteView { pattern: seq!["api"@, "downloads"@, "refresh"@], methods: seq!["POST"@] },
        RouteView { pattern: seq!["api"@, "downloads"@, "poll"@], methods: seq!["POST"@] },
        RouteView {
            pattern: seq!["api"@, "bangumi"@, "subjects"@, "{}"@],
            methods: seq!["GET"@],
        },
        RouteView { pattern: seq!["api"@, "bangumi"@, "search"@], methods: seq!["GET"@] },
        RouteView { pattern: seq!["api"@, "health"@], methods: seq!["GET"@] },
        RouteView { pattern: seq!["api"@, "notify"@, "test"@], methods: seq!["POST"@] },
    ]
}

fn route(pattern: Vec<&'static str>, methods: Vec<&'static str>) -> (r: Route)
    ensures
        r@.pattern == text::str_views(pattern@),
        r@.methods == text::str_views(methods@),
{
    Route { pattern, methods }
}

/// The known routes.
pub fn routes() -> (r: Vec<Route>)
    ensures
        route_views(r@) == route_table(),
{
    let r = vec![
        route(vec![], vec!["GET"]),
        route(vec!["style.css"], vec!["GET"]),
        route(vec!["api", "feeds"], vec!["GET", "POST"]),
        route(vec!["api", "feeds", "preview"], vec!["POST"]),
        route(vec!["api", "feeds", "refresh"], vec!["POST"]),
        route(vec!["api", "feeds", "{}"], vec!["PUT", "DELETE"]),
        route(vec!["api", "files", "{}"], vec!["GET"]),
        route(vec!["api", "downloads"], vec!["GET"]),
        route(vec!["api", "downloads", "refresh"], vec!["POST"]),
        route(vec!["api", "downloads", "poll"], vec!["POST"]),
        route(vec!["api", "bangumi", "subjects", "{}"], vec!["GET"]),
        route(vec!["api", "bangumi", "search"], vec!["GET"]),
        route(vec!["api", "health"], vec!["GET"]),
        route(vec!["api", "notify", "test"], vec!["POST"]),
    ];
    assert(route_views(r@) =~~= route_table());
    r
}

/// The path of a URL, without its query.
pub open spec fn path_part(url: Seq<char>) -> Seq<char> {
    text::split_on(url, '?')[0]
}

/// The pieces of a list that are not empty.
pub open spec fn nonempty(pieces: Seq<Seq<char>>) -> Seq<Seq<char>>
    decreases pieces.len(),
{
    if pieces.len() == 0 {
        seq![]
    } else if pieces.last().len() > 0 {
        nonempty(pieces.drop_last()).push(pieces.last())
    } else {
        nonempty(pieces.drop_last())
    }
}

/// The segments of a path: its pieces between slashes that are not empty.
pub open spec fn segments(path: Seq<char>) -> Seq<Seq<char>> {
    nonempty(text::split_on(path, '/'))
}

/// Splits a path into its segments.
pub fn split_segments(path: &str) -> (r: Vec<String>)
    ensures
        text::views(r@) == segments(path@),
{
    let pieces = text::split(path, '/');
    let ghost all = text::views(pieces@);
    let mut out: Vec<String> = Vec::new();
    let mut i: usize = 0;
    assert(text::views(out@) =~= nonempty(all.take(0)));
    while i < pieces.len()
        invariant
            i <= pieces@.len(),
            all == text::views(pieces@),
            text::views(out@) == nonempty(all.take(i as int)),
        decreases pieces@.len() - i,
    {
        let ghost before = text::views(out@);
        assert(all.take(i + 1).drop_last() =~= all.take(i as int));
        if !pieces[i].as_str().is_empty() {
            out.push(pieces[i].clone());
            assert(text::views(out@) =~= before.push(all[i as int]));
        }
        i = i + 1;
    }
    assert(all.take(all.len() as int) =~= all);
    out
}

/// Whether a pattern fits a path: segment by segment equal, or `{}` in the pattern.
pub open spec fn fits(pattern: Seq<Seq<char>>, path: Seq<Seq<char>>) -> bool {
    &&& pattern.len() == path.len()
    &&& forall|i: int|
        0 <= i < pattern.len() ==> (#[trigger] pattern[i] == "{}"@ || pattern[i] == path[i])
}

/// Whether a pattern fits the segments of a path.
pub fn segments_match(pattern: &Vec<&'static str>, path: &Vec<String>) -> (r: bool)
    ensures
        r == fits(text::str_views(pattern@), text::views(path@)),
{
    if pattern.len() != path.len() {
        return false;
    }
    let mut i: usize = 0;
    while i < pattern.len()
        invariant
            i <= pattern@.len(),
            pattern@.len() == path@.len(),
            forall|j: int|
                0 <= j < i ==> (#[trigger] text::str_views(pattern@)[j] == "{}"@ || text::str_views(
                    pattern@,
                )[j] == text::views(path@)[j]),
        decreases pattern@.len() - i,
    {
        if !(*pattern[i] == *"{}" || *pattern[i] == *path[i].as_str()) {
            assert(text::str_views(pattern@)[i as int] != "{}"@);
            return false;
        }
        i = i + 1;
    }
    true
}

/// Whether a method is among those that a route allows.
pub open spec fn allows(route: RouteView, method: Seq<char>) -> bool {
    exists|i: int| 0 <= i < route.methods.len() && #[trigger] route.methods[i] == method
}

fn is_allowed(route: &Route, method: &str) -> (r: bool)
    ensures
        r == allows(route@, method@),
{
    let mut i: usize = 0;
    while i < route.methods.len()
        invariant
            i <= route.methods@.len(),
            forall|j: int| 0 <= j < i ==> #[trigger] route@.methods[j] != method@,
        decreases route.methods@.len() - i,
    {
        if *route.methods[i] == *method {
            assert(route@.methods[i as int] == method@);
            return true;
        }
        i = i + 1;
    }
    false
}

fn list_methods(methods: &Vec<&'static str>) -> (r: String)
    ensures
        r@ == text::comma_separated(text::str_views(methods@)),
{
    let ghost all = text::str_views(methods@);
    let mut out = String::new();
    let mut i: usize = 0;
    assert(all.take(0) =~= seq![]);
    while i < methods.len()
        invariant
            i <= methods@.len(),
            all == text::str_views(methods@),
            out@ == text::comma_separated(all.take(i as int)),
        decreases methods@.len() - i,
    {
        assert(all.take(i + 1).drop_last() =~= all.take(i as int));
        if i > 0 {
            out.append(", ");
        }
        out.append(methods[i]);
        assert(out@ =~= text::comma_separated(all.take(i + 1)));
        i = i + 1;
    }
    assert(all.take(all.len() as int) =~= all);
    out
}

/// The first route from index `from` on that fits a path.
pub open spec fn first_fit(table: Seq<RouteView>, path: Seq<Seq<char>>, from: int) -> Option<
    RouteView,
>
    decreases table.len() - from,
{
    if from < 0 || from >= table.len() {
        None
    } else if fits(table[from].pattern, path) {
        Some(table[from])
    } else {
        first_fit(table, path, from + 1)
    }
}

/// The route that answers for a URL.
pub open spec fn route_of(url: Seq<char>) -> Option<RouteView> {
    first_fit(route_table(), segments(path_part(url)), 0)
}

/// The answer to a method that a route does not allow.
pub open spec fn refusal(route: RouteView, method: Seq<char>, url: Seq<char>) -> ResponseView {
    response::with_header(
        response::problem_reply(
            405,
            problem_type::METHOD_NOT_ALLOWED@,
            "Method not allowed"@,
            method + " is not allowed for "@ + path_part(url),
        ),
        "Allow"@,
        text::comma_separated(route.methods),
    )
}

/// The answer to a method that the route of a URL does not allow; `None` where the method is
/// allowed or no route fits.
pub open spec fn method_refusal(method: Seq<char>, url: Seq<char>) -> Option<ResponseView> {
    match route_of(url) {
        Some(route) => if allows(route, method) {
            None
        } else {
            Some(refusal(route, method, url))
        },
        None => None,
    }
}

/// If a path matches a known route that does not allow the method, the 405 response with its
/// `Allow` header.
pub fn method_not_allowed_response(method: &str, path: &str) -> (r: Option<Response>)
    ensures
        match r {
            Some(refused) => method_refusal(method@, path@) == Some(refused@),
            None => method_refusal(method@, path@) is None,
        },
{
    let parts = text::split(path, '?');
    let own = parts[0].as_str();
    assert(own@ == path_part(path@)) by {
        assert(text::views(parts@)[0] == parts@[0]@);
    }
    let given = split_segments(own);
    let table = routes();
    let ghost all = route_table();
    let mut i: usize = 0;
    while i < table.len()
        invariant
            i <= table@.len(),
            all == route_table(),
            all == route_views(table@),
            own@ == path_part(path@),
            text::views(given@) == segments(own@),
            route_of(path@) == first_fit(all, text::views(given@), i as int),
        decreases table@.len() - i,
    {
        let here = &table[i];
        assert(all[i as int] == here@);
        if segments_match(&here.pattern, &given) {
            if is_allowed(here, method) {
                return None;
            }
            let detail = text::join3(method, " is not allowed for ", own);
            let refused = response::problem_response(
                http_code::METHOD_NOT_ALLOWED,
                problem_type::METHOD_NOT_ALLOWED,
                "Method not allowed",
                &detail,
            );
            return Some(refused.add_header("Allow", list_methods(&here.methods)));
        }
        i = i + 1;
    }
    None
}

/// The answer to a request that fits no route.
pub fn not_found_response() -> (r: Response)
    ensures
        r@ == response::api_error_reply(404, "not found"@),
{
    response::api_err_response(http_code::NOT_FOUND, "not found")
}

// ── Dispatch ──

/// What a request asks for.
#[derive(Debug, PartialEq)]
pub enum Endpoint {
    Index,
    Style,
    ListFeeds,
    CreateFeed,
    RefreshFeeds,
    UpdateFeed { id: String },
    DeleteFeed { id: String },
    Preview,
    StreamFile { infohash: String },
    ListDownloads,
    RefreshDownloads,
    PollDownloader,
    Subject { id: String },
    Search,
    Health,
    TestNotifications,
    /// No route fits.
    Nothing,
}

#[verifier::ext_equal]
pub enum EndpointView {
    Index,
    Style,
    ListFeeds,
    CreateFeed,
    RefreshFeeds,
    UpdateFeed { id: Seq<char> },
    DeleteFeed { id: Seq<char> },
    Preview,
    StreamFile { infohash: Seq<char> },
    ListDownloads,
    RefreshDownloads,
    PollDownloader,
    Subject { id: Seq<char> },
    Search,
    Health,
    TestNotifications,
    Nothing,
}

impl View for Endpoint {
    type V = EndpointView;

    open spec fn view(&self) -> EndpointView {
        match self {
            Endpoint::Index => EndpointView::Index,
            Endpoint::Style => EndpointView::Style,
            Endpoint::ListFeeds => EndpointView::ListFeeds,
            Endpoint::CreateFeed => EndpointView::CreateFeed,
            Endpoint::RefreshFeeds => EndpointView::RefreshFeeds,
            Endpoint::UpdateFeed { id } => EndpointView::UpdateFeed { id: id@ },
            Endpoint::DeleteFeed { id } => EndpointView::DeleteFeed { id: id@ },
            Endpoint::Preview => EndpointView::Preview,
            Endpoint::StreamFile { infohash } => EndpointView::StreamFile { infohash: infohash@ },
            Endpoint::ListDownloads => EndpointView::ListDownloads,
            Endpoint::RefreshDownloads => EndpointView::RefreshDownloads,
            Endpoint::PollDownloader => EndpointView::PollDownloader,
            Endpoint::Subject { id } => EndpointView::Subject { id: id@ },
            Endpoint::Search => EndpointView::Search,
            Endpoint::Health => EndpointView::Health,
            Endpoint::TestNotifications => EndpointView::TestNotifications,
            Endpoint::Nothing => EndpointView::Nothing,
        }
    }
}

/// The text that `percent_encoding::percent_decode` makes of a text, read as UTF-8 with
/// replacement characters for what is not.
pub uninterp spec fn percent_decoded(s: Seq<char>) -> Seq<char>;

/// `percent_encoding::percent_decode` with `decode_utf8_lossy` decodes the `%XX` sequences of a
/// text. What it makes of a text depends on the text alone, and a text without `%` stays as it
/// is.
#[verifier::external_body]
fn percent_decode(s: &str) -> (r: String)
    ensures
        r@ == percent_decoded(s@),
        !s@.contains('%') ==> r@ == s@,
{
    percent_encoding::percent_decode(s.as_bytes()).decode_utf8_lossy().into_owned()
}

/// The pieces of the path of a URL between slashes.
pub open spec fn pieces(url: Seq<char>) -> Seq<Seq<char>> {
    text::split_on(path_part(url), '/')
}

/// Whether the pieces of a path are those of a pattern, behind the slash that it begins with.
pub open spec fn is_path(pieces: Seq<Seq<char>>, pattern: Seq<Seq<char>>) -> bool {
    &&& pieces.len() == pattern.len() + 1
    &&& pieces[0].len() == 0
    &&& forall|i: int|
        0 <= i < pattern.len() ==> (#[trigger] pattern[i] == "{}"@ || pattern[i] == pieces[i + 1])
}

fn is_at(pieces: &Vec<String>, pattern: &Vec<&'static str>) -> (r: bool)
    ensures
        r == is_path(text::views(pieces@), text::str_views(pattern@)),
{
    let n: usize = pattern.len();
    if pieces.len() == 0 || pieces.len() - 1 != n {
        return false;
    }
    if !pieces[0].as_str().is_empty() {
        return false;
    }
    let ghost wanted = text::str_views(pattern@);
    let ghost given = text::views(pieces@);
    let mut i: usize = 0;
    while i < n
        invariant
            i <= n,
            n == pattern@.len(),
            pieces@.len() == n + 1,
            wanted == text::str_views(pattern@),
            given == text::views(pieces@),
            forall|j: int|
                0 <= j < i ==> (#[trigger] wanted[j] == "{}"@ || wanted[j] == given[j + 1]),
        decreases n - i,
    {
        assert(wanted[i as int] == pattern@[i as int]@);
        assert(given[i + 1] == pieces@[i + 1]@);
        if *pattern[i] != *"{}" && *pattern[i] != *pieces[i + 1].as_str() {
            return false;
        }
        i = i + 1;
    }
    true
}

fn at1(pieces: &Vec<String>, a: &'static str) -> (r: bool)
    ensures
        r == is_path(text::views(pieces@), seq![a@]),
{
    let pattern = vec![a];
    assert(text::str_views(pattern@) =~= seq![a@]);
    is_at(pieces, &pattern)
}

fn at2(pieces: &Vec<String>, a: &'static str, b: &'static str) -> (r: bool)
    ensures
        r == is_path(text::views(pieces@), seq![a@, b@]),
{
    let pattern = vec![a, b];
    assert(text::str_views(pattern@) =~= seq![a@, b@]);
    is_at(pieces, &pattern)
}

fn at3(pieces: &Vec<String>, a: &'static str, b: &'static str, c: &'static str) -> (r: bool)
    ensures
        r == is_path(text::views(pieces@), seq![a@, b@, c@]),
{
    let pattern = vec![a, b, c];
    assert(text::str_views(pattern@) =~= seq![a@, b@, c@]);
    is_at(pieces, &pattern)
}

fn at4(pieces: &Vec<String>, a: &'static str, b: &'static str, c: &'static str, d: &'static str) -> (r: bool)
    ensures
        r == is_path(text::views(pieces@), seq![a@, b@, c@, d@]),
{
    let pattern = vec![a, b, c, d];
    assert(text::str_views(pattern@) =~= seq![a@, b@, c@, d@]);
    is_at(pieces, &pattern)
}

/// The endpoint of a request: `pieces` are those of its path, `url` is its decoded path, and
/// `parameter` is the last piece, decoded.
pub open spec fn endpoint_of(
    method: Seq<char>,
    url: Seq<char>,
    pieces: Seq<Seq<char>>,
    parameter: Seq<char>,
) -> EndpointView {
    if url == "/style.css"@ {
        EndpointView::Style
    } else if method == "GET"@ {
        if is_path(pieces, seq![""@]) {
            EndpointView::Index
        } else if is_path(pieces, seq!["api"@, "feeds"@]) {
            EndpointView::ListFeeds
        } else if is_path(pieces, seq!["api"@, "files"@, "{}"@]) {
            EndpointView::StreamFile { infohash: parameter }
        } else if is_path(pieces, seq!["api"@, "downloads"@]) {
            EndpointView::ListDownloads
        } else if is_path(pieces, seq!["api"@, "bangumi"@, "subjects"@, "{}"@]) {
            EndpointView::Subject { id: parameter }
        } else if is_path(pieces, seq!["api"@, "bangumi"@, "search"@]) {
            EndpointView::Search
        } else if is_path(pieces, seq!["api"@, "health"@]) {
            EndpointView::Health
        } else {
            EndpointView::Nothing
        }
    } else if method == "POST"@ {
        if is_path(pieces, seq!["api"@, "feeds"@]) {
            EndpointView::CreateFeed
        } else if is_path(pieces, seq!["api"@, "feeds"@, "refresh"@]) {
            EndpointView::RefreshFeeds
        } else if is_path(pieces, seq!["api"@, "feeds"@, "preview"@]) {
            EndpointView::Preview
        } else if is_path(pieces, seq!["api"@, "downloads"@, "refresh"@]) {
            EndpointView::RefreshDownloads
        } else if is_path(pieces, seq!["api"@, "downloads"@, "poll"@]) {
            EndpointView::PollDownloader
        } else if is_path(pieces, seq!["api"@, "notify"@, "test"@]) {
            EndpointView::TestNotifications
        } else {
            EndpointView::Nothing
        }
    } else if method == "PUT"@ && is_path(pieces, seq!["api"@, "feeds"@, "{}"@]) {
        EndpointView::UpdateFeed { id: parameter }
    } else if method == "DELETE"@ && is_path(pieces, seq!["api"@, "feeds"@, "{}"@]) {
        EndpointView::DeleteFeed { id: parameter }
    } else {
        EndpointView::Nothing
    }
}

/// The endpoint of a request whose last piece was decoded.
pub fn endpoint_with(method: &str, url: &str, pieces: &Vec<String>, parameter: String) -> (r:
    Endpoint)
    ensures
        r@ == endpoint_of(method@, url@, text::views(pieces@), parameter@),
{
    if *url == *"/style.css" {
        return Endpoint::Style;
    }
    if *method == *"GET" {
        if at1(pieces, "") {
            Endpoint::Index
        } else if at2(pieces, "api", "feeds") {
            Endpoint::ListFeeds
        } else if at3(pieces, "api", "files", "{}") {
            Endpoint::StreamFile { infohash: parameter }
        } else if at2(pieces, "api", "downloads") {
            Endpoint::ListDownloads
        } else if at4(pieces, "api", "bangumi", "subjects", "{}") {
            Endpoint::Subject { id: parameter }
        } else if at3(pieces, "api", "bangumi", "search") {
            Endpoint::Search
        } else if at2(pieces, "api", "health") {
            Endpoint::Health
        } else {
            Endpoint::Nothing
        }
    } else if *method == *"POST" {
        if at2(pieces, "api", "feeds") {
            Endpoint::CreateFeed
        } else if at3(pieces, "api", "feeds", "refresh") {
            Endpoint::RefreshFeeds
        } else if at3(pieces, "api", "feeds", "preview") {
            Endpoint::Preview
        } else if at3(pieces, "api", "downloads", "refresh") {
            Endpoint::RefreshDownloads
        } else if at3(pieces, "api", "downloads", "poll") {
            Endpoint::PollDownloader
        } else if at3(pieces, "api", "notify", "test") {
            Endpoint::TestNotifications
        } else {
            Endpoint::Nothing
        }
    } else if *method == *"PUT" && at3(pieces, "api", "feeds", "{}") {
        Endpoint::UpdateFeed { id: parameter }
    } else if *method == *"DELETE" && at3(pieces, "api", "feeds", "{}") {
        Endpoint::DeleteFeed { id: parameter }
    } else {
        Endpoint::Nothing
    }
}

/// The endpoint of a request: its method, its URL as it was sent and its decoded path.
pub fn dispatch(method: &str, raw_url: &str, url: &str) -> (r: Endpoint)
    ensures
        r@ == endpoint_of(
            method@,
            url@,
            pieces(raw_url@),
            percent_decoded(pieces(raw_url@).last()),
        ),
        !pieces(raw_url@).last().contains('%') ==> r@ == endpoint_of(
            method@,
            url@,
            pieces(raw_url@),
            pieces(raw_url@).last(),
        ),
{
    let parts = text::split(raw_url, '?');
    assert(text::views(parts@)[0] == parts@[0]@);
    let given = text::split(&parts[0], '/');
    let n: usize = given.len();
    assert(text::views(given@).last() == given@[n - 1]@);
    let parameter = percent_decode(&given[n - 1]);
    endpoint_with(method, url, &given, parameter)
}

// ── Laws ──

/// A request is refused with 405 exactly if its URL has a route that does not allow its method;
/// the `Allow` header then lists the methods of that route.
pub proof fn law_refused_with_405(method: Seq<char>, url: Seq<char>)
    ensures
        method_refusal(method, url) is Some <==> (route_of(url) is Some && !allows(
            route_of(url)->Some_0,
            method,
        )),
        method_refusal(method, url) matches Some(r) ==> r.status_code == 405 && r.headers.last()
            == ("Allow"@, text::comma_separated(route_of(url)->Some_0.methods)),
{
}

/// The query of a URL does not change which methods are refused.
pub proof fn law_query_does_not_matter(method: Seq<char>, path: Seq<char>, query: Seq<char>)
    requires
        !text::contains(path, seq!['?']),
    ensures
        method_refusal(method, path + seq!['?'] + query) == method_refusal(method, path),
{
    let mark = seq!['?'];
    let url = path + mark + query;
    text::lemma_find_iff_contains(path, mark);
    assert(text::split_on(path, '?') == seq![path]);
    assert(url.subrange(path.len() as int, path.len() as int + 1) =~= mark);
    assert(text::occurs_at(url, mark, path.len() as int));
    text::lemma_find_from(url, mark, 0);
    let i = text::find(url, mark)->Some_0;
    if i < path.len() {
        assert(path.subrange(i, i + 1) =~= url.subrange(i, i + 1));
        assert(text::occurs_at(path, mark, i));
    }
    assert(url.take(i) =~= path);
    assert(path_part(url) == path);
    assert(path_part(path) == path);
}

/// Whether a path begins with a slash and has no empty segment.
pub open spec fn is_clean(pieces: Seq<Seq<char>>) -> bool {
    &&& pieces.len() >= 2
    &&& pieces[0].len() == 0
    &&& pieces.len() == 2 || forall|i: int| 1 <= i < pieces.len() ==> (#[trigger] pieces[i]).len() > 0
}

proof fn lemma_segments_of_clean(pieces: Seq<Seq<char>>)
    requires
        pieces.len() >= 1,
        pieces[0].len() == 0,
        forall|i: int| 1 <= i < pieces.len() ==> (#[trigger] pieces[i]).len() > 0,
    ensures
        nonempty(pieces) == pieces.skip(1),
    decreases pieces.len(),
{
    let init = pieces.drop_last();
    if pieces.len() == 1 {
        assert(nonempty(init) =~= seq![]);
        assert(nonempty(pieces) =~= pieces.skip(1));
    } else {
        lemma_segments_of_clean(init);
        assert(init.skip(1).push(pieces.last()) =~= pieces.skip(1));
    }
}

proof fn lemma_first_fit(table: Seq<RouteView>, path: Seq<Seq<char>>, from: int)
    requires
        from >= 0,
    ensures
        first_fit(table, path, from) matches Some(route) ==> exists|k: int|
            from <= k < table.len() && #[trigger] table[k] == route && fits(route.pattern, path),
    decreases table.len() - from,
{
    if from < table.len() {
        if fits(table[from].pattern, path) {
            assert(table[from] == first_fit(table, path, from)->Some_0);
        } else {
            lemma_first_fit(table, path, from + 1);
        }
    }
}

/// The table of routes and the dispatcher agree: a request by a path without empty segments
/// whose route allows its method reaches an endpoint.
pub proof fn law_allowed_requests_are_answered(method: Seq<char>, url: Seq<char>, parameter: Seq<char>)
    requires
        is_clean(pieces(url)),
        route_of(url) is Some,
        method_refusal(method, url) is None,
    ensures
        endpoint_of(method, path_part(url), pieces(url), parameter) !is Nothing,
{
    let path = path_part(url);
    let p = pieces(url);
    let segs = segments(path);
    let table = route_table();
    let route = route_of(url)->Some_0;
    lemma_first_fit(table, segs, 0);
    let k = choose|k: int|
        0 <= k < table.len() && #[trigger] table[k] == route && fits(route.pattern, segs);
    reveal_strlit("GET");
    reveal_strlit("POST");
    reveal_strlit("PUT");
    reveal_strlit("DELETE");
    reveal_strlit("");
    assert("GET"@[0] != "PUT"@[0]);
    if p.len() == 2 && p[1].len() == 0 {
        assert(nonempty(p) =~= seq![]) by {
            reveal_with_fuel(nonempty, 3);
        }
        assert(k == 0);
        assert(p[1] =~= ""@);
        assert(is_path(p, seq![""@]));
    } else {
        lemma_segments_of_clean(p);
        assert(is_path(p, route.pattern)) by {
            assert forall|i: int| 0 <= i < route.pattern.len() implies (
            #[trigger] route.pattern[i] == "{}"@ || route.pattern[i] == p[i + 1]) by {
                assert(segs[i] == p[i + 1]);
            }
        }
        let m = choose|m: int|
            0 <= m < route.methods.len() && #[trigger] route.methods[m] == method;
        assert(segs.len() > 0);
        if k == 1 {
            lemma_style(path);
        }
    }
}

/// A request by a path that does not begin with a slash or has an empty segment, and that is not
/// refused, reaches an endpoint only where the empty segment is the parameter at its end: a file or
/// a subject without a name. Every other such request reaches nothing.
pub proof fn law_unclean_paths_reach_nothing_else(
    method: Seq<char>,
    url: Seq<char>,
    parameter: Seq<char>,
)
    requires
        !is_clean(pieces(url)),
        method_refusal(method, url) is None,
    ensures
        endpoint_of(method, path_part(url), pieces(url), parameter) == (if method == "GET"@
            && pieces(url) == seq![""@, "api"@, "files"@, ""@] {
            EndpointView::StreamFile { infohash: parameter }
        } else if method == "GET"@ && pieces(url) == seq![
            ""@,
            "api"@,
            "bangumi"@,
            "subjects"@,
            ""@,
        ] {
            EndpointView::Subject { id: parameter }
        } else {
            EndpointView::Nothing
        }),
{
    let p = pieces(url);
    lemma_literals();
    lemma_not_style(path_part(url));
    lemma_plain2(p, "api"@, "feeds"@);
    lemma_plain2(p, "api"@, "downloads"@);
    lemma_plain2(p, "api"@, "health"@);
    lemma_plain3(p, "api"@, "feeds"@, "refresh"@);
    lemma_plain3(p, "api"@, "feeds"@, "preview"@);
    lemma_plain3(p, "api"@, "downloads"@, "refresh"@);
    lemma_plain3(p, "api"@, "downloads"@, "poll"@);
    lemma_plain3(p, "api"@, "notify"@, "test"@);
    lemma_plain3(p, "api"@, "bangumi"@, "search"@);
    lemma_parameter3(p, "api"@, "files"@);
    lemma_parameter3(p, "api"@, "feeds"@);
    lemma_parameter4(p, "api"@, "bangumi"@, "subjects"@);
    if is_path(p, seq!["api"@, "feeds"@, "{}"@]) {
        let segs = nonempty(p);
        assert(segs =~= seq!["api"@, "feeds"@]) by {
            reveal_with_fuel(nonempty, 5);
            assert(p.drop_last() =~= seq![""@, "api"@, "feeds"@]);
            assert(p.drop_last().drop_last() =~= seq![""@, "api"@]);
            assert(p.drop_last().drop_last().drop_last() =~= seq![""@]);
            assert(p.drop_last().drop_last().drop_last().drop_last() =~= seq![]);
        }
        let table = route_table();
        assert(first_fit(table, segs, 0) == first_fit(table, segs, 1));
        assert(first_fit(table, segs, 1) == first_fit(table, segs, 2));
        assert(fits(table[2].pattern, segs));
        assert(first_fit(table, segs, 2) == Some(table[2]));
        assert(table[2].methods =~= seq!["GET"@, "POST"@]);
        assert(method == "GET"@ || method == "POST"@);
    }
}

/// The literal segments are not empty and are no parameter.
proof fn lemma_literals()
    ensures
        ""@.len() == 0,
        plain("api"@) && plain("feeds"@) && plain("downloads"@) && plain("health"@) && plain(
            "refresh"@,
        ) && plain("preview"@) && plain("poll"@) && plain("notify"@) && plain("test"@) && plain(
            "bangumi"@,
        ) && plain("search"@) && plain("files"@) && plain("subjects"@),
        "GET"@ != "PUT"@ && "GET"@ != "DELETE"@ && "POST"@ != "PUT"@ && "POST"@ != "DELETE"@,
{
    reveal_strlit("");
    reveal_strlit("{}");
    reveal_strlit("api");
    reveal_strlit("feeds");
    reveal_strlit("downloads");
    reveal_strlit("health");
    reveal_strlit("refresh");
    reveal_strlit("preview");
    reveal_strlit("poll");
    reveal_strlit("notify");
    reveal_strlit("test");
    reveal_strlit("bangumi");
    reveal_strlit("search");
    reveal_strlit("files");
    reveal_strlit("subjects");
    reveal_strlit("GET");
    reveal_strlit("POST");
    reveal_strlit("PUT");
    reveal_strlit("DELETE");
    assert("GET"@[0] != "PUT"@[0]);
    assert("GET"@.len() == 3 && "PUT"@.len() == 3 && "POST"@.len() == 4 && "DELETE"@.len() == 6);
}

/// A segment that stands for itself alone.
spec fn plain(segment: Seq<char>) -> bool {
    segment.len() > 0 && segment != "{}"@
}

proof fn lemma_plain2(p: Seq<Seq<char>>, a: Seq<char>, b: Seq<char>)
    requires
        plain(a) && plain(b),
        !is_clean(p),
    ensures
        !is_path(p, seq![a, b]),
{
    let pattern = seq![a, b];
    if is_path(p, pattern) {
        assert(pattern[0] == p[1] && pattern[1] == p[2]);
    }
}

proof fn lemma_plain3(p: Seq<Seq<char>>, a: Seq<char>, b: Seq<char>, c: Seq<char>)
    requires
        plain(a) && plain(b) && plain(c),
        !is_clean(p),
    ensures
        !is_path(p, seq![a, b, c]),
{
    let pattern = seq![a, b, c];
    if is_path(p, pattern) {
        assert(pattern[0] == p[1] && pattern[1] == p[2] && pattern[2] == p[3]);
    }
}

proof fn lemma_parameter3(p: Seq<Seq<char>>, a: Seq<char>, b: Seq<char>)
    requires
        plain(a) && plain(b),
        !is_clean(p),
    ensures
        is_path(p, seq![a, b, "{}"@]) <==> p == seq![""@, a, b, ""@],
{
    reveal_strlit("");
    let pattern = seq![a, b, "{}"@];
    if is_path(p, pattern) {
        assert(pattern[0] == p[1] && pattern[1] == p[2]);
        if p[3].len() > 0 {
            assert(is_clean(p));
        }
        assert(p[0] =~= ""@ && p[3] =~= ""@);
        assert(p =~= seq![""@, a, b, ""@]);
    }
    if p == seq![""@, a, b, ""@] {
        assert(pattern[0] == p[1] && pattern[1] == p[2] && pattern[2] == "{}"@);
    }
}

proof fn lemma_parameter4(p: Seq<Seq<char>>, a: Seq<char>, b: Seq<char>, c: Seq<char>)
    requires
        plain(a) && plain(b) && plain(c),
        !is_clean(p),
    ensures
        is_path(p, seq![a, b, c, "{}"@]) <==> p == seq![""@, a, b, c, ""@],
{
    reveal_strlit("");
    let pattern = seq![a, b, c, "{}"@];
    if is_path(p, pattern) {
        assert(pattern[0] == p[1] && pattern[1] == p[2] && pattern[2] == p[3]);
        if p[4].len() > 0 {
            assert(is_clean(p));
        }
        assert(p[0] =~= ""@ && p[4] =~= ""@);
        assert(p =~= seq![""@, a, b, c, ""@]);
    }
    if p == seq![""@, a, b, c, ""@] {
        assert(pattern[0] == p[1] && pattern[1] == p[2] && pattern[2] == p[3] && pattern[3]
            == "{}"@);
    }
}

/// The path of the style sheet has two pieces.
proof fn lemma_not_style(path: Seq<char>)
    ensures
        path == "/style.css"@ ==> is_clean(text::split_on(path, '/')),
{
    if path == "/style.css"@ {
        reveal_strlit("/style.css");
        reveal_with_fuel(text::split_on, 3);
        let mark = seq!['/'];
        assert(path.subrange(0, 1) =~= mark);
        assert(text::occurs_at(path, mark, 0));
        text::lemma_find_from(path, mark, 0);
        assert(text::find(path, mark) == Some(0int));
        let rest = path.skip(1);
        text::lemma_find_iff_contains(rest, mark);
        assert(!text::contains(rest, mark)) by {
            if text::contains(rest, mark) {
                let i = choose|i: int| text::occurs_at(rest, mark, i);
                assert(rest.subrange(i, i + 1)[0] == rest[i]);
                assert(rest[i] == path[i + 1]);
            }
        }
        assert(text::split_on(rest, '/') =~= seq![rest]);
        assert(text::split_on(path, '/') =~= seq![path.take(0), rest]);
    }
}

proof fn lemma_style(path: Seq<char>)
    requires
        is_path(text::split_on(path, '/'), seq!["style.css"@]),
    ensures
        path == "/style.css"@,
{
    let p = text::split_on(path, '/');
    reveal_strlit("style.css");
    reveal_strlit("/style.css");
    reveal_strlit("{}");
    reveal_with_fuel(text::split_on, 3);
    let pattern = seq!["style.css"@];
    assert(pattern[0] == "style.css"@);
    assert(p[1] == "style.css"@);
    let mark = seq!['/'];
    text::lemma_find_from(path, mark, 0);
    let i = text::find(path, mark)->Some_0;
    assert(text::find(path, mark) is Some);
    assert(p[0] == path.take(i));
    assert(i == 0);
    assert(path.subrange(0, 1) == mark);
    assert(path[0] == path.subrange(0, 1)[0]);
    let rest = path.skip(1);
    assert(p == seq![path.take(0)] + text::split_on(rest, '/'));
    assert(text::split_on(rest, '/').len() == 1);
    assert(text::split_on(rest, '/')[0] == p[1]);
    assert(rest == "style.css"@);
    assert(path =~= mark + rest);
    assert(path =~= "/style.css"@);
}

/// Each path of the API reaches its own endpoint, with what stands in the place of its parameter.
pub proof fn law_paths_reach_their_endpoints(url: Seq<char>, id: Seq<char>, parameter: Seq<char>)
    requires
        url != "/style.css"@,
    ensures
        endpoint_of("GET"@, url, seq![""@, ""@], parameter) == EndpointView::Index,
        endpoint_of("GET"@, url, seq![""@, "api"@, "feeds"@], parameter) == EndpointView::ListFeeds,
        endpoint_of("POST"@, url, seq![""@, "api"@, "feeds"@], parameter)
            == EndpointView::CreateFeed,
        endpoint_of("PUT"@, url, seq![""@, "api"@, "feeds"@, id], parameter) == (
        EndpointView::UpdateFeed { id: parameter }),
        endpoint_of("DELETE"@, url, seq![""@, "api"@, "feeds"@, id], parameter) == (
        EndpointView::DeleteFeed { id: parameter }),
        endpoint_of("POST"@, url, seq![""@, "api"@, "feeds"@, "preview"@], parameter)
            == EndpointView::Preview,
        endpoint_of("POST"@, url, seq![""@, "api"@, "feeds"@, "refresh"@], parameter)
            == EndpointView::RefreshFeeds,
        endpoint_of("GET"@, url, seq![""@, "api"@, "files"@, id], parameter) == (
        EndpointView::StreamFile { infohash: parameter }),
        endpoint_of("GET"@, url, seq![""@, "api"@, "downloads"@], parameter)
            == EndpointView::ListDownloads,
        endpoint_of("POST"@, url, seq![""@, "api"@, "downloads"@, "refresh"@], parameter)
            == EndpointView::RefreshDownloads,
        endpoint_of("POST"@, url, seq![""@, "api"@, "downloads"@, "poll"@], parameter)
            == EndpointView::PollDownloader,
        endpoint_of("GET"@, url, seq![""@, "api"@, "bangumi"@, "subjects"@, id], parameter) == (
        EndpointView::Subject { id: parameter }),
        endpoint_of("GET"@, url, seq![""@, "api"@, "bangumi"@, "search"@], parameter)
            == EndpointView::Search,
        endpoint_of("GET"@, url, seq![""@, "api"@, "health"@], parameter) == EndpointView::Health,
        endpoint_of("POST"@, url, seq![""@, "api"@, "notify"@, "test"@], parameter)
            == EndpointView::TestNotifications,
{
    lemma_literals();
    reveal_strlit("GET");
    reveal_strlit("POST");
    reveal_strlit("PUT");
    reveal_strlit("DELETE");
    reveal_strlit("");
    assert("GET"@[0] != "PUT"@[0]);
    lemma_is_path(seq![""@, ""@], seq![""@]);
    lemma_is_path(seq![""@, "api"@, "feeds"@], seq!["api"@, "feeds"@]);
    lemma_is_path(seq![""@, "api"@, "feeds"@, id], seq!["api"@, "feeds"@, "{}"@]);
    lemma_is_path(seq![""@, "api"@, "files"@, id], seq!["api"@, "files"@, "{}"@]);
    lemma_is_path(
        seq![""@, "api"@, "bangumi"@, "subjects"@, id],
        seq!["api"@, "bangumi"@, "subjects"@, "{}"@],
    );
    reveal_strlit("feeds");
    reveal_strlit("downloads");
    reveal_strlit("health");
    reveal_strlit("refresh");
    reveal_strlit("preview");
    reveal_strlit("poll");
    reveal_strlit("notify");
    reveal_strlit("bangumi");
    reveal_strlit("files");
    assert("refresh"@[0] != "preview"@[0]);
    lemma_not_path(seq![""@, "api"@, "downloads"@], seq!["api"@, "feeds"@], 1);
    lemma_not_path(seq![""@, "api"@, "health"@], seq!["api"@, "feeds"@], 1);
    lemma_not_path(seq![""@, "api"@, "health"@], seq!["api"@, "downloads"@], 1);
    lemma_not_path(
        seq![""@, "api"@, "bangumi"@, "search"@],
        seq!["api"@, "files"@, "{}"@],
        1,
    );
    lemma_not_path(
        seq![""@, "api"@, "feeds"@, "preview"@],
        seq!["api"@, "feeds"@, "refresh"@],
        2,
    );
    lemma_not_path(
        seq![""@, "api"@, "downloads"@, "refresh"@],
        seq!["api"@, "feeds"@, "refresh"@],
        1,
    );
    lemma_not_path(
        seq![""@, "api"@, "downloads"@, "refresh"@],
        seq!["api"@, "feeds"@, "preview"@],
        1,
    );
    lemma_not_path(
        seq![""@, "api"@, "downloads"@, "poll"@],
        seq!["api"@, "feeds"@, "refresh"@],
        1,
    );
    lemma_not_path(
        seq![""@, "api"@, "downloads"@, "poll"@],
        seq!["api"@, "feeds"@, "preview"@],
        1,
    );
    lemma_not_path(
        seq![""@, "api"@, "downloads"@, "poll"@],
        seq!["api"@, "downloads"@, "refresh"@],
        2,
    );
    lemma_not_path(
        seq![""@, "api"@, "notify"@, "test"@],
        seq!["api"@, "feeds"@, "refresh"@],
        1,
    );
    lemma_not_path(
        seq![""@, "api"@, "notify"@, "test"@],
        seq!["api"@, "feeds"@, "preview"@],
        1,
    );
    lemma_not_path(
        seq![""@, "api"@, "notify"@, "test"@],
        seq!["api"@, "downloads"@, "refresh"@],
        1,
    );
    lemma_not_path(
        seq![""@, "api"@, "notify"@, "test"@],
        seq!["api"@, "downloads"@, "poll"@],
        1,
    );
}

proof fn lemma_not_path(pieces: Seq<Seq<char>>, pattern: Seq<Seq<char>>, i: int)
    requires
        0 <= i < pattern.len(),
        plain(pattern[i]),
        pattern[i] != pieces[i + 1],
    ensures
        !is_path(pieces, pattern),
{
    assert(pattern[i] != "{}"@);
}

proof fn lemma_is_path(pieces: Seq<Seq<char>>, pattern: Seq<Seq<char>>)
    requires
        pieces.len() == pattern.len() + 1,
        pieces[0].len() == 0,
        forall|i: int|
            0 <= i < pattern.len() ==> (#[trigger] pattern[i] == "{}"@ || pattern[i] == pieces[i
                + 1]),
    ensures
        is_path(pieces, pattern),
{
}

} // verus!
