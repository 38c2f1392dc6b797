//! Route handlers: what each request asks of the reducer, and how each outcome is answered.
use vstd::prelude::*;
use vstd::utf8::*;

use crate::event::{self, Event, EventView, OutcomeView};
use crate::feed_id::{self, FeedId};
use crate::http_code;
use crate::json::{self, Json};
use crate::problem_type;
use crate::range;
use crate::response::{self, Response, ResponseView};
use crate::state;
use crate::stream::{self, FileRange, FileStream, ReadSeek};
use crate::text;
use crate::types::{self, ApiResult, BangumiInfo, BangumiInfoView, EpisodeRecord, FeedFilter};

verus! {

// ── Errors ──

/// Why a request failed.
#[derive(Debug, PartialEq)]
pub enum HandlerError {
    BadRequest(String),
    NotFound(String),
    /// The logic thread did not answer in time.
    Timeout,
    /// The event channel is closed.
    ChannelClosed,
    /// `client` is sent to the client, `detail` is for the log.
    Internal { client: String, detail: String },
}

/// The response to a failure.
pub open spec fn error_reply(error: HandlerError) -> ResponseView {
    match error {
        HandlerError::BadRequest(m) => response::api_error_reply(400, m@),
        HandlerError::NotFound(m) => response::api_error_reply(404, m@),
        HandlerError::Timeout => response::api_error_reply(503, "server busy"@),
        HandlerError::ChannelClosed => response::api_error_reply(503, "server busy"@),
        HandlerError::Internal { client, detail } => response::api_error_reply(500, client@),
    }
}

impl HandlerError {
    /// The response to the failure. What is for the log is not sent.
    pub fn to_response(&self) -> (r: Response)
        ensures
            r@ == error_reply(*self),
    {
        match self {
            HandlerError::BadRequest(m) => response::api_err_response(http_code::BAD_REQUEST, m),
            HandlerError::NotFound(m) => response::api_err_response(http_code::NOT_FOUND, m),
            HandlerError::Timeout => response::api_err_response(
                http_code::SERVICE_UNAVAILABLE,
                "server busy",
            ),
            HandlerError::ChannelClosed => response::api_err_response(
                http_code::SERVICE_UNAVAILABLE,
                "server busy",
            ),
            HandlerError::Internal { client, detail } => response::api_err_response(
                http_code::INTERNAL,
                client,
            ),
        }
    }
}

fn bad_request(message: &str) -> (r: Response)
    ensures
        r@ == response::api_error_reply(400, message@),
{
    HandlerError::BadRequest(message.to_owned()).to_response()
}

fn not_found(message: &str) -> (r: Response)
    ensures
        r@ == response::api_error_reply(404, message@),
{
    HandlerError::NotFound(message.to_owned()).to_response()
}

/// The response to a failure of the metadata service.
pub open spec fn upstream_reply() -> ResponseView {
    response::problem_reply(
        500,
        problem_type::UPSTREAM_ERROR@,
        "Upstream error"@,
        "upstream error"@,
    )
}

fn upstream_error() -> (r: Response)
    ensures
        r@ == upstream_reply(),
{
    response::problem_response(
        http_code::INTERNAL,
        problem_type::UPSTREAM_ERROR,
        "Upstream error",
        "upstream error",
    )
}

// ── Queries to the reducer ──

/// Why a query got no answer.
#[derive(Debug, Clone, Copy, PartialEq, Eq, Structural)]
pub enum QueryFailure {
    /// The event channel is closed.
    Closed,
    /// No answer came in time.
    Late,
    /// The reply channel was dropped without an answer.
    Dropped,
}

/// The response to a query that got no answer.
pub open spec fn unanswered(failure: QueryFailure) -> ResponseView {
    match failure {
        QueryFailure::Closed => response::api_error_reply(503, "server busy"@),
        QueryFailure::Late => response::api_error_reply(503, "server busy"@),
        QueryFailure::Dropped => response::api_error_reply(500, "logic thread error"@),
    }
}

/// The failure that a query without an answer amounts to.
pub fn query_error(failure: QueryFailure) -> (r: HandlerError)
    ensures
        error_reply(r) == unanswered(failure),
        failure is Closed ==> r is ChannelClosed,
        failure is Late ==> r is Timeout,
        failure is Dropped ==> r is Internal,
{
    match failure {
        QueryFailure::Closed => HandlerError::ChannelClosed,
        QueryFailure::Late => HandlerError::Timeout,
        QueryFailure::Dropped => HandlerError::Internal {
            client: "logic thread error".to_owned(),
            detail: "logic thread dropped reply channel without sending".to_owned(),
        },
    }
}

/// The response to an API result whose value is given as JSON.
pub open spec fn result_reply(result: OutcomeView<Seq<char>>, ok_status: u16) -> ResponseView {
    match result {
        OutcomeView::Value(value) => response::text_reply(
            ok_status,
            "application/json"@,
            response::envelope(value),
        ),
        OutcomeView::Error { code, message } => response::api_error_reply(code, message),
    }
}

/// Answers an API result whose value is given as JSON: the envelope around the value, or the
/// error as Problem Details.
pub fn api_result_response(result: ApiResult<String>, ok_status: u16) -> (r: Response)
    ensures
        r@ == result_reply(event::text_outcome(result), ok_status),
{
    match result {
        ApiResult::OK { value } => response::json_data(ok_status, &value),
        ApiResult::Error { code, message } => response::api_err_response(code, &message),
    }
}

/// Answers a query to the reducer: the API result, or why there is none.
pub fn query_response(answer: Result<ApiResult<String>, QueryFailure>, ok_status: u16) -> (r:
    Response)
    ensures
        r@ == (match answer {
            Ok(result) => result_reply(event::text_outcome(result), ok_status),
            Err(failure) => unanswered(failure),
        }),
{
    match answer {
        Ok(result) => api_result_response(result, ok_status),
        Err(failure) => query_error(failure).to_response(),
    }
}

/// Answers a fire-and-forget action: its message if the event was sent, 503 if not.
pub fn fire_event(sent: bool, message: &str) -> (r: Response)
    ensures
        r@ == if sent {
            response::text_reply(200, "application/json"@, response::action_body(message@))
        } else {
            response::api_error_reply(503, "server busy"@)
        },
{
    if sent {
        response::action_response(message)
    } else {
        HandlerError::ChannelClosed.to_response()
    }
}

/// The fire-and-forget actions of the API.
#[derive(Debug, Clone, Copy, PartialEq, Eq, Structural)]
pub enum Action {
    RefreshDownloads,
    RefreshFeeds,
    PollDownloader,
    TestNotifications,
}

/// The event that an action sends.
pub open spec fn action_event(action: Action) -> EventView {
    match action {
        Action::RefreshDownloads => EventView::RefreshDownloads,
        Action::RefreshFeeds => EventView::RssTickAll,
        Action::PollDownloader => EventView::PollDownloader,
        Action::TestNotifications => EventView::NotifyTest,
    }
}

/// The message of an action that was taken on.
pub open spec fn action_message(action: Action) -> Seq<char> {
    match action {
        Action::RefreshDownloads => "refresh triggered"@,
        Action::RefreshFeeds => "RSS refresh triggered"@,
        Action::PollDownloader => "downloader poll triggered"@,
        Action::TestNotifications => "test notifications sent"@,
    }
}

/// The event that an action sends, and the message that answers it.
pub fn start_action(action: Action) -> (r: (Event, &'static str))
    ensures
        r.0@ == action_event(action),
        r.1@ == action_message(action),
{
    match action {
        Action::RefreshDownloads => (Event::RefreshDownloads, "refresh triggered"),
        Action::RefreshFeeds => (Event::RssTickAll, "RSS refresh triggered"),
        Action::PollDownloader => (Event::PollDownloader, "downloader poll triggered"),
        Action::TestNotifications => (Event::NotifyTest, "test notifications sent"),
    }
}

// ── Feeds ──

/// Whether a text begins with a letter or a digit.
pub open spec fn begins_alphanumeric(s: Seq<char>) -> bool {
    s.len() > 0 && text::alphanumeric(s[0])
}

/// Whether a URL may be subscribed to: at most 2048 bytes, `http` or `https`, and a letter or
/// digit behind the scheme.
pub open spec fn acceptable_url(url: Seq<char>) -> bool {
    &&& encode_utf8(url).len() <= 2048
    &&& (text::without_prefix(url, "http://"@) matches Some(rest) && begins_alphanumeric(rest))
        || (text::without_prefix(url, "https://"@) matches Some(rest) && begins_alphanumeric(rest))
}

fn host_follows(url: &str, scheme: &str) -> (r: bool)
    ensures
        r == (text::without_prefix(url@, scheme@) matches Some(rest) && begins_alphanumeric(rest)),
{
    match text::strip_prefix(url, scheme) {
        Some(rest) => {
            let chars = text::chars_of(&rest);
            chars.len() > 0 && chars[0].is_alphanumeric()
        },
        None => false,
    }
}

/// Whether a URL may be subscribed to.
pub fn is_valid_rss_url(url: &str) -> (r: bool)
    ensures
        r == acceptable_url(url@),
{
    if url.as_bytes().len() > 2048 {
        return false;
    }
    host_follows(url, "http://") || host_follows(url, "https://")
}

/// The text of a member; empty where there is none.
pub open spec fn text_or_empty(body: Json, key: Seq<char>) -> Seq<char> {
    match json::text_of(json::member(body, key)) {
        Some(t) => t,
        None => seq![],
    }
}

fn read_text(body: &Json, key: &str) -> (r: String)
    ensures
        r@ == text_or_empty(*body, key@),
{
    match body.text_at(key) {
        Some(t) => t.to_owned(),
        None => String::new(),
    }
}

/// The season of a request: 1 where there is none; of a larger number its last eight bits.
pub open spec fn season_of(body: Json) -> u8 {
    match json::unsigned_of(json::member(body, "season"@)) {
        Some(n) => n as u8,
        None => 1,
    }
}

fn read_season(body: &Json) -> (r: u8)
    ensures
        r == season_of(*body),
{
    match body.unsigned_at("season") {
        Some(n) => n as u8,
        None => 1,
    }
}

/// What a request to create a feed asks for: an event, or the response that refuses it.
pub open spec fn create_request(
    body: Json,
    bangumi_info: Option<BangumiInfoView>,
    filter: Option<types::FeedFilterView>,
) -> Result<EventView, ResponseView> {
    let url = text_or_empty(body, "url"@);
    let name = text_or_empty(body, "name"@);
    if !acceptable_url(url) {
        Err(response::api_error_reply(400, "invalid URL"@))
    } else if name.len() == 0 {
        Err(response::api_error_reply(400, "missing name"@))
    } else {
        Ok(
            EventView::ConfirmFeed {
                url,
                name,
                season: season_of(body),
                bangumi_info,
                filter: match filter {
                    Some(f) => f,
                    None => types::FeedFilterView::none(),
                },
            },
        )
    }
}

/// The view of what a request asks for.
pub open spec fn asked(r: Result<Event, Response>) -> Result<EventView, ResponseView> {
    match r {
        Ok(e) => Ok(e@),
        Err(refusal) => Err(refusal@),
    }
}

/// The filter of a request, given how reading its member went where there is one. A member that is no
/// filter is refused.
pub fn filter_member(member: Option<Result<FeedFilter, String>>) -> (r: Result<
    Option<FeedFilter>,
    Response,
>)
    ensures
        match member {
            None => r == Ok::<Option<FeedFilter>, Response>(None),
            Some(Ok(filter)) => r == Ok::<Option<FeedFilter>, Response>(Some(filter)),
            Some(Err(e)) => r is Err && r->Err_0@ == response::api_error_reply(
                400,
                "invalid filter: "@ + e@,
            ),
        },
{
    match member {
        None => Ok(None),
        Some(Ok(filter)) => Ok(Some(filter)),
        Some(Err(e)) => Err(bad_request(&text::join2("invalid filter: ", &e))),
    }
}

/// Reads a request to create a feed: `url` and `name` are required, a season defaults to 1, no
/// filter accepts everything.
pub fn handle_feed_create(
    body: &Json,
    bangumi_info: Option<BangumiInfo>,
    filter: Option<FeedFilter>,
) -> (r: Result<Event, Response>)
    ensures
        asked(r) == create_request(
            *body,
            types::info_view(bangumi_info),
            state::filter_view(filter),
        ),
{
    let url = read_text(body, "url");
    if !is_valid_rss_url(&url) {
        return Err(bad_request("invalid URL"));
    }
    let name = read_text(body, "name");
    if name.as_str().is_empty() {
        return Err(bad_request("missing name"));
    }
    let season: u8 = read_season(body);
    let chosen = match filter {
        Some(f) => f,
        None => FeedFilter::default(),
    };
    Ok(Event::ConfirmFeed { url, name, season, bangumi_info, filter: chosen })
}

/// What a request to update a feed asks for. A body that is no JSON is refused.
pub open spec fn update_request(
    id: Option<FeedId>,
    body: Option<Json>,
    bangumi_info: Option<BangumiInfoView>,
    filter: Option<types::FeedFilterView>,
) -> Result<EventView, ResponseView> {
    match id {
        None => Err(response::api_error_reply(400, "invalid id"@)),
        Some(feed_id) => match body {
            None => Err(response::api_error_reply(400, "invalid JSON"@)),
            Some(b) => Ok(
                EventView::UserConfirm {
                    feed_id,
                    name: text_or_empty(b, "name"@),
                    season: season_of(b),
                    bangumi_info,
                    filter,
                },
            ),
        },
    }
}

/// Reads the body of a request to update a feed whose id was parsed.
pub fn update_with(
    id: Option<FeedId>,
    body: Option<&Json>,
    bangumi_info: Option<BangumiInfo>,
    filter: Option<FeedFilter>,
) -> (r: Result<Event, Response>)
    ensures
        asked(r) == update_request(
            id,
            match body {
                Some(b) => Some(*b),
                None => None,
            },
            types::info_view(bangumi_info),
            state::filter_view(filter),
        ),
{
    let feed_id = match id {
        Some(id) => id,
        None => {
            return Err(bad_request("invalid id"));
        },
    };
    match body {
        Some(b) => Ok(
            Event::UserConfirm {
                feed_id,
                name: read_text(b, "name"),
                season: read_season(b),
                bangumi_info,
                filter,
            },
        ),
        None => Err(bad_request("invalid JSON")),
    }
}

/// Reads a request to update a feed. Without a filter the feed keeps its own.
pub fn handle_feed_update(
    id: &str,
    body: Option<&Json>,
    bangumi_info: Option<BangumiInfo>,
    filter: Option<FeedFilter>,
) -> (r: Result<Event, Response>)
    ensures
        asked(r) == update_request(
            feed_id::id_in(id@),
            match body {
                Some(b) => Some(*b),
                None => None,
            },
            types::info_view(bangumi_info),
            state::filter_view(filter),
        ),
{
    update_with(FeedId::parse(id), body, bangumi_info, filter)
}

/// What a request to remove a feed asks for.
pub open spec fn delete_request(id: Option<FeedId>) -> Result<EventView, ResponseView> {
    match id {
        Some(feed_id) => Ok(EventView::ApiRemoveFeed { feed_id }),
        None => Err(response::api_error_reply(400, "invalid id"@)),
    }
}

/// Reads a request to remove the feed whose id was parsed.
pub fn delete_with(id: Option<FeedId>) -> (r: Result<Event, Response>)
    ensures
        asked(r) == delete_request(id),
{
    match id {
        Some(feed_id) => Ok(Event::ApiRemoveFeed { feed_id }),
        None => Err(bad_request("invalid id")),
    }
}

/// Reads a request to remove a feed.
pub fn handle_feed_delete(id: &str) -> (r: Result<Event, Response>)
    ensures
        asked(r) == delete_request(feed_id::id_in(id@)),
{
    delete_with(FeedId::parse(id))
}

/// Reads the URL of a preview request: the `url` member, trimmed.
pub fn preview_url(body: &Json) -> (r: Result<String, Response>)
    ensures
        ({
            let url = text::trimmed(text_or_empty(*body, "url"@));
            match r {
                Ok(u) => acceptable_url(url) && u@ == url,
                Err(refusal) => !acceptable_url(url) && refusal@ == response::api_error_reply(
                    400,
                    "invalid URL"@,
                ),
            }
        }),
{
    let given = read_text(body, "url");
    let url = text::trim(&given);
    if is_valid_rss_url(&url) {
        Ok(url)
    } else {
        Err(bad_request("invalid URL"))
    }
}

/// Answers a preview request: the preview as JSON, or why there is none.
pub fn preview_response(preview: Result<String, String>) -> (r: Response)
    ensures
        r@ == (match preview {
            Ok(value) => response::text_reply(
                200,
                "application/json"@,
                response::envelope(value@),
            ),
            Err(error) => response::api_error_reply(500, "preview failed: "@ + error@),
        }),
{
    match preview {
        Ok(value) => response::json_data(http_code::OK, &value),
        Err(error) => response::api_err_response(
            http_code::INTERNAL,
            &text::join2("preview failed: ", &error),
        ),
    }
}

// ── Bangumi metadata ──

/// What came back from the metadata service: a value, nothing, or a failure.
#[derive(Debug, PartialEq)]
pub enum Lookup<T> {
    Found(T),
    Nothing,
    Failed,
}

/// Reads the subject id of a request.
pub fn subject_id(id: &str) -> (r: Result<u32, Response>)
    ensures
        match r {
            Ok(n) => text::parsed_uint(id@, u32::MAX as nat) == Some(n as nat),
            Err(refusal) => text::parsed_uint(id@, u32::MAX as nat) is None && refusal@
                == response::api_error_reply(400, "invalid id"@),
        },
{
    match text::parse_uint(id, 4_294_967_295) {
        Some(n) => Ok(n as u32),
        None => Err(bad_request("invalid id")),
    }
}

/// Answers a request for a subject: its metadata as JSON, or why there is none.
pub fn handle_bangumi_subject(detail: Lookup<String>) -> (r: Response)
    ensures
        r@ == (match detail {
            Lookup::Found(value) => response::text_reply(
                200,
                "application/json"@,
                response::envelope(value@),
            ),
            Lookup::Nothing => response::api_error_reply(404, "not found"@),
            Lookup::Failed => upstream_reply(),
        }),
{
    match detail {
        Lookup::Found(value) => response::json_data(http_code::OK, &value),
        Lookup::Nothing => not_found("not found"),
        Lookup::Failed => upstream_error(),
    }
}

/// Reads the name to search for.
pub fn search_name(name: Option<&str>) -> (r: Result<String, Response>)
    ensures
        match r {
            Ok(n) => text::opt_str(name) == Some(n@) && n@.len() > 0,
            Err(refusal) => (name is None || name->Some_0@.len() == 0) && refusal@
                == response::api_error_reply(400, "missing name"@),
        },
{
    match name {
        Some(n) => if n.is_empty() {
            Err(bad_request("missing name"))
        } else {
            Ok(n.to_owned())
        },
        None => Err(bad_request("missing name")),
    }
}

/// The subject whose details are to be asked for after a search, or the response that ends it.
pub fn after_search(found: Lookup<u32>) -> (r: Result<u32, Response>)
    ensures
        match found {
            Lookup::Found(id) => r is Ok && r->Ok_0 == id,
            Lookup::Nothing => r is Err && r->Err_0@ == response::api_error_reply(
                404,
                "not found"@,
            ),
            Lookup::Failed => r is Err && r->Err_0@ == upstream_reply(),
        },
{
    match found {
        Lookup::Found(id) => Ok(id),
        Lookup::Nothing => Err(not_found("not found")),
        Lookup::Failed => Err(upstream_error()),
    }
}

/// Answers a search whose subject was found: its metadata as JSON, or why there is none.
pub fn handle_bangumi_search(detail: Lookup<String>) -> (r: Response)
    ensures
        r@ == (match detail {
            Lookup::Found(value) => response::text_reply(
                200,
                "application/json"@,
                response::envelope(value@),
            ),
            Lookup::Nothing => response::api_error_reply(404, "no detail"@),
            Lookup::Failed => upstream_reply(),
        }),
{
    match detail {
        Lookup::Found(value) => response::json_data(http_code::OK, &value),
        Lookup::Nothing => not_found("no detail"),
        Lookup::Failed => upstream_error(),
    }
}

/// Answers a health check: whether the downloader could be reached.
pub fn handle_health(connected: bool) -> (r: Response)
    ensures
        r@ == if connected {
            response::text_reply(200, "application/json"@, response::envelope("null"@))
        } else {
            response::api_error_reply(503, "downloader unavailable"@)
        },
{
    if connected {
        response::json_data(http_code::OK, "null")
    } else {
        response::api_err_response(http_code::SERVICE_UNAVAILABLE, "downloader unavailable")
    }
}

// ── File streaming ──

/// What stands behind the last dot of a path; the path itself where there is none.
pub open spec fn after_last_dot(path: Seq<char>) -> Seq<char> {
    match text::rfind(path, seq!['.']) {
        Some(i) => path.skip(i + 1),
        None => path,
    }
}

/// The media type of a lower-case file extension.
pub open spec fn mime_of(ext: Seq<char>) -> Seq<char> {
    if ext == "mp4"@ {
        "video/mp4"@
    } else if ext == "mkv"@ {
        "video/x-matroska"@
    } else if ext == "webm"@ {
        "video/webm"@
    } else if ext == "avi"@ {
        "video/x-msvideo"@
    } else if ext == "mov"@ {
        "video/quicktime"@
    } else if ext == "ts"@ {
        "video/mp2t"@
    } else if ext == "m4v"@ {
        "video/x-m4v"@
    } else if ext == "flv"@ {
        "video/x-flv"@
    } else if ext == "wmv"@ {
        "video/x-ms-wmv"@
    } else if ext == "3gp"@ {
        "video/3gpp"@
    } else if ext == "mp3"@ {
        "audio/mpeg"@
    } else if ext == "flac"@ {
        "audio/flac"@
    } else if ext == "aac"@ {
        "audio/aac"@
    } else if ext == "ogg"@ {
        "audio/ogg"@
    } else if ext == "wav"@ {
        "audio/wav"@
    } else if ext == "opus"@ {
        "audio/opus"@
    } else {
        "application/octet-stream"@
    }
}

/// The media type of a lower-case file extension.
pub fn mime_of_extension(ext: &str) -> (r: &'static str)
    ensures
        r@ == mime_of(ext@),
{
    if *ext == *"mp4" {
        "video/mp4"
    } else if *ext == *"mkv" {
        "video/x-matroska"
    } else if *ext == *"webm" {
        "video/webm"
    } else if *ext == *"avi" {
        "video/x-msvideo"
    } else if *ext == *"mov" {
        "video/quicktime"
    } else if *ext == *"ts" {
        "video/mp2t"
    } else if *ext == *"m4v" {
        "video/x-m4v"
    } else if *ext == *"flv" {
        "video/x-flv"
    } else if *ext == *"wmv" {
        "video/x-ms-wmv"
    } else if *ext == *"3gp" {
        "video/3gpp"
    } else if *ext == *"mp3" {
        "audio/mpeg"
    } else if *ext == *"flac" {
        "audio/flac"
    } else if *ext == *"aac" {
        "audio/aac"
    } else if *ext == *"ogg" {
        "audio/ogg"
    } else if *ext == *"wav" {
        "audio/wav"
    } else if *ext == *"opus" {
        "audio/opus"
    } else {
        "application/octet-stream"
    }
}

/// The media type of a file, by its extension in any case of letters.
pub fn mime_type(path: &str) -> (r: &'static str)
    ensures
        r@ == mime_of(text::lowercase(after_last_dot(path@))),
{
    let chars = text::chars_of(path);
    let n: usize = chars.len();
    let mut dot: Vec<char> = Vec::new();
    dot.push('.');
    assert(dot@ =~= seq!['.']);
    let from: usize = match text::rfind_chars(&chars, &dot) {
        Some(i) => i + 1,
        None => 0,
    };
    let ext = text::text_of(&chars, from, n);
    assert(ext@ =~= after_last_dot(path@));
    let lower = ext.as_str().to_lowercase();
    mime_of_extension(&lower)
}

/// The file that an episode record names, or the response that there is none to serve. A path
/// that is not absolute or that holds `..` is not served.
pub open spec fn file_of(result: OutcomeView<types::EpisodeRecordView>) -> Result<
    Seq<char>,
    ResponseView,
> {
    match result {
        OutcomeView::Error { code, message } => Err(response::api_error_reply(code, message)),
        OutcomeView::Value(record) => match record.library_path {
            None => Err(response::api_error_reply(404, "file not yet available"@)),
            Some(path) => if path.len() == 0 {
                Err(response::api_error_reply(404, "file not yet available"@))
            } else if !"/"@.is_prefix_of(path) || text::contains(path, ".."@) {
                Err(response::api_error_reply(404, "file not found"@))
            } else {
                Ok(path)
            },
        },
    }
}

/// The path of the file to stream, or the response that refuses it.
pub fn file_to_stream(answer: Result<ApiResult<EpisodeRecord>, QueryFailure>) -> (r: Result<
    String,
    Response,
>)
    ensures
        match (r, answer) {
            (Ok(path), Ok(result)) => file_of(event::episode_outcome(result)) == Ok::<
                Seq<char>,
                ResponseView,
            >(path@),
            (Err(refusal), Ok(result)) => file_of(event::episode_outcome(result)) == Err::<
                Seq<char>,
                ResponseView,
            >(refusal@),
            (Ok(path), Err(failure)) => false,
            (Err(refusal), Err(failure)) => refusal@ == unanswered(failure),
        },
{
    let record = match answer {
        Ok(ApiResult::OK { value }) => value,
        Ok(ApiResult::Error { code, message }) => {
            return Err(response::api_err_response(code, &message));
        },
        Err(failure) => {
            return Err(query_error(failure).to_response());
        },
    };
    let path = match record.library_path {
        Some(p) => p,
        None => {
            return Err(not_found("file not yet available"));
        },
    };
    if path.as_str().is_empty() {
        return Err(not_found("file not yet available"));
    }
    if !text::begins_with(&path, "/") || text::has_text(&path, "..") {
        return Err(not_found("file not found"));
    }
    Ok(path)
}

/// Why a file could not be opened.
#[derive(Debug, Clone, Copy, PartialEq, Eq, Structural)]
pub enum OpenFailure {
    NotFound,
    PermissionDenied,
    Other,
}

/// The response to a file that could not be opened. A file that may not be read is not told from
/// one that does not exist.
pub fn open_failed(failure: OpenFailure) -> (r: Response)
    ensures
        r@ == (match failure {
            OpenFailure::NotFound => response::api_error_reply(404, "file not found"@),
            OpenFailure::PermissionDenied => response::api_error_reply(404, "file not found"@),
            OpenFailure::Other => response::api_error_reply(500, "file unavailable"@),
        }),
{
    match failure {
        OpenFailure::NotFound => not_found("file not found"),
        OpenFailure::PermissionDenied => not_found("file not found"),
        OpenFailure::Other => response::api_err_response(http_code::INTERNAL, "file unavailable"),
    }
}

/// Serves a file that was opened: the response, and the part of the file that is its body. The
/// file is served whole, or in the part that the `Range` header asks for.
pub fn handle_file_stream<R: ReadSeek>(
    file: FileStream<R>,
    path: &str,
    range_header: Option<&str>,
) -> (r: (Response, Option<FileRange<R>>))
    ensures
        match range::resolved(text::opt_str(range_header), file.len()) {
            Err(refusal) => r.0@ == refusal && r.1 is None,
            Ok(asked_for) => {
                let mime = mime_of(text::lowercase(after_last_dot(path@)));
                match range::part(file.len(), asked_for) {
                    None => r.0@ == range::file_response(file.len(), mime, asked_for, true)
                        && r.1 is None,
                    Some((start, length)) => {
                        &&& r.0@ == range::file_response(
                            file.len(),
                            mime,
                            asked_for,
                            r.1 is Some,
                        )
                        &&& r.1 matches Some(body) ==> body.remaining() == stream::taken(
                            file.source().content(),
                            start as nat,
                            length as nat,
                        )
                        &&& file.source().reliable() ==> r.1 is Some
                    },
                }
            },
        },
{
    let size: u64 = file.size();
    let mime = mime_type(path);
    let asked_for = match range::resolve_range(range_header, size) {
        Ok(found) => found,
        Err(refusal) => {
            return (refusal, None);
        },
    };
    proof {
        range::lemma_resolved_lies_within(text::opt_str(range_header), size);
    }
    match range::part_to_read(size, asked_for) {
        None => (range::serve_file_range(size, mime, asked_for, true), None),
        Some((start, length)) => match file.into_range(start, length) {
            Some(body) => (range::serve_file_range(size, mime, asked_for, true), Some(body)),
            None => (range::serve_file_range(size, mime, asked_for, false), None),
        },
    }
}

// ── Laws ──

/// A file is served only by an absolute path without `..`.
pub proof fn law_served_path_is_absolute(result: OutcomeView<types::EpisodeRecordView>)
    ensures
        file_of(result) matches Ok(path) ==> "/"@.is_prefix_of(path) && !text::contains(
            path,
            ".."@,
        ) && result is Value && result->Value_0.library_path == Some(path),
{
}

/// A feed is created only with an acceptable URL and a name; every other request to create one is
/// answered with 400.
pub proof fn law_create_is_checked(
    body: Json,
    bangumi_info: Option<BangumiInfoView>,
    filter: Option<types::FeedFilterView>,
)
    ensures
        match create_request(body, bangumi_info, filter) {
            Ok(e) => e matches EventView::ConfirmFeed { url, name, .. } && acceptable_url(url)
                && name.len() > 0,
            Err(refusal) => refusal.status_code == 400,
        },
{
}

/// What an internal failure keeps for the log does not reach the client.
pub proof fn law_details_are_not_sent(client: String, detail: String, other: String)
    ensures
        error_reply(HandlerError::Internal { client, detail }) == error_reply(
            HandlerError::Internal { client, detail: other },
        ),
{
}

/// A failure is told by the status alone: none is answered with a status below 400.
pub proof fn law_failures_have_an_error_status(error: HandlerError, failure: QueryFailure)
    ensures
        error_reply(error).status_code >= 400,
        unanswered(failure).status_code >= 400,
        upstream_reply().status_code >= 400,
{
}

/// A request for a subscription becomes one with what it says: its link, its name, its season, 1
/// where it gives none, its metadata, and its filter, an empty one where it gives none.
pub proof fn law_request_becomes_a_subscription(
    body: Json,
    url: Seq<char>,
    name: Seq<char>,
    bangumi_info: Option<BangumiInfoView>,
    filter: Option<types::FeedFilterView>,
)
    requires
        json::text_of(json::member(body, "url"@)) == Some(url),
        json::text_of(json::member(body, "name"@)) == Some(name),
        name.len() > 0,
        encode_utf8(url).len() <= 2048,
        exists|scheme: Seq<char>, c: char, rest: Seq<char>|
            url == #[trigger] (scheme + seq![c] + rest) && (scheme == "http://"@ || scheme
                == "https://"@) && text::alphanumeric(c),
    ensures
        ({
            &&& create_request(body, bangumi_info, filter) matches Ok(event)
            &&& event is ConfirmFeed
            &&& event->ConfirmFeed_url == url
            &&& event->ConfirmFeed_name == name
            &&& event->ConfirmFeed_bangumi_info == bangumi_info
            &&& filter matches Some(f) ==> event->ConfirmFeed_filter == f
            &&& filter is None ==> event->ConfirmFeed_filter == (types::FeedFilterView {
                includes: seq![],
                exclude: seq![],
                regex: None,
            })
            &&& json::member(body, "season"@) is None ==> event->ConfirmFeed_season == 1
            &&& json::unsigned_of(json::member(body, "season"@)) matches Some(n) ==> (n <= 255
                ==> event->ConfirmFeed_season == n)
        }),
{
    let (scheme, c, rest) = choose|scheme: Seq<char>, c: char, rest: Seq<char>|
        url == #[trigger] (scheme + seq![c] + rest) && (scheme == "http://"@ || scheme
            == "https://"@) && text::alphanumeric(c);
    assert(scheme.is_prefix_of(url)) by {
        assert(url.subrange(0, scheme.len() as int) =~= scheme);
    }
    assert(url.skip(scheme.len() as int)[0] == c);
}

/// A link with another scheme is not subscribed to, nor is a request without a name.
pub proof fn law_other_requests_are_refused(
    body: Json,
    bangumi_info: Option<BangumiInfoView>,
    filter: Option<types::FeedFilterView>,
)
    ensures
        ({
            let refused = create_request(body, bangumi_info, filter);
            &&& json::text_of(json::member(body, "name"@)) is None ==> refused is Err
            &&& json::text_of(json::member(body, "url"@)) is None ==> refused is Err
            &&& json::text_of(json::member(body, "url"@)) matches Some(url) ==> (
            !"http://"@.is_prefix_of(url) && !"https://"@.is_prefix_of(url) ==> refused is Err)
        }),
{
    reveal_strlit("http://");
    reveal_strlit("https://");
}

/// A subscription is updated, or removed, under the identifier of the request, with the name, the
/// season, the metadata and the filter of the request; without an identifier it is refused.
pub proof fn law_request_changes_its_subscription(
    feed_id: FeedId,
    body: Json,
    name: Seq<char>,
    bangumi_info: Option<BangumiInfoView>,
    filter: Option<types::FeedFilterView>,
)
    requires
        json::text_of(json::member(body, "name"@)) == Some(name),
    ensures
        ({
            &&& update_request(Some(feed_id), Some(body), bangumi_info, filter) matches Ok(event)
            &&& event is UserConfirm
            &&& event->UserConfirm_feed_id == feed_id
            &&& event->UserConfirm_name == name
            &&& event->UserConfirm_bangumi_info == bangumi_info
            &&& event->UserConfirm_filter == filter
            &&& json::member(body, "season"@) is None ==> event->UserConfirm_season == 1
            &&& json::unsigned_of(json::member(body, "season"@)) matches Some(n) ==> (n <= 255
                ==> event->UserConfirm_season == n)
        }),
        update_request(None, Some(body), bangumi_info, filter) matches Err(refusal)
            && refusal.status_code == 400,
        update_request(Some(feed_id), None, bangumi_info, filter) matches Err(refusal)
            && refusal.status_code == 400,
        delete_request(Some(feed_id)) == Ok::<EventView, ResponseView>(
            EventView::ApiRemoveFeed { feed_id },
        ),
        delete_request(None) matches Err(refusal) && refusal.status_code == 400,
{
}

/// An episode is served exactly if it has an absolute path without `..`, and from that path; any
/// other is answered with 404.
pub proof fn law_episode_is_served_from_its_path(record: types::EpisodeRecordView, path: Seq<char>)
    ensures
        ({
            let file = file_of(OutcomeView::Value(record));
            &&& record.library_path == Some(path) && "/"@.is_prefix_of(path) && !text::contains(
                path,
                ".."@,
            ) ==> file == Ok::<Seq<char>, ResponseView>(path)
            &&& record.library_path is None ==> (file matches Err(refusal) && refusal.status_code
                == 404)
            &&& record.library_path == Some(path) && (!"/"@.is_prefix_of(path) || text::contains(
                path,
                ".."@,
            )) ==> (file matches Err(refusal) && refusal.status_code == 404)
        }),
{
    reveal_strlit("/");
}

/// Each action of the API sends its own event.
pub proof fn law_actions_send_their_events()
    ensures
        action_event(Action::RefreshDownloads) == EventView::RefreshDownloads,
        action_event(Action::RefreshFeeds) == EventView::RssTickAll,
        action_event(Action::PollDownloader) == EventView::PollDownloader,
        action_event(Action::TestNotifications) == EventView::NotifyTest,
{
}

/// The answer to a query holds what was found, under `data`, with the status for success; an error
/// is answered with its own status.
pub proof fn law_answers_hold_what_was_found(
    value: Seq<char>,
    ok_status: u16,
    code: u16,
    message: Seq<char>,
)
    ensures
        ({
            let good = result_reply(OutcomeView::Value(value), ok_status);
            &&& good.status_code == ok_status
            &&& good.body == response::BodyView::Text("{\"data\":"@ + value + "}"@)
            &&& good.headers == seq![("Content-Type"@, "application/json"@)]
            &&& result_reply(OutcomeView::Error { code, message }, ok_status).status_code == code
        }),
{
}

} // verus!
