use bangumi_rss::auth::{basic_auth, check_auth, constant_time_eq, gate};
use bangumi_rss::event::Event;
use bangumi_rss::feed_id::FeedId;
use bangumi_rss::handle::{
    after_search, api_result_response, file_to_stream, filter_member, fire_event, handle_bangumi_search,
    handle_bangumi_subject, handle_feed_create, handle_feed_delete, handle_feed_update,
    handle_file_stream, handle_health, is_valid_rss_url, mime_type, open_failed, preview_response,
    preview_url, query_response, search_name, start_action, subject_id, Action, HandlerError,
    Lookup, OpenFailure, QueryFailure,
};
use bangumi_rss::json::{Json, Member};
use bangumi_rss::problem_type;
use bangumi_rss::range::{
    build_416, parse_range, part_to_read, resolve_range, serve_file_range,
};
use bangumi_rss::response::{problem_response, problem_type_for_status, Body, Response};
use bangumi_rss::routes::{
    dispatch, method_not_allowed_response, not_found_response, Endpoint,
};
use bangumi_rss::stream::{Cursor, FileStream};
use bangumi_rss::types::{
    AnimeIdentity, ApiResult, EpisodeKey, EpisodeRecord, FeedFilter, RecordStatus,
};

fn text_of(resp: &Response) -> &str {
    match &resp.body {
        Body::Text(t) => t,
        _ => "",
    }
}

fn has_header(resp: &Response, name: &str, value: &str) -> bool {
    resp.headers.iter().any(|h| h.name == name && h.value == value)
}

// ── Media types and queries ──

#[test]
fn test_mime_type() {
    assert_eq!(mime_type("video.mp4"), "video/mp4");
    assert_eq!(mime_type("anime.mkv"), "video/x-matroska");
    assert_eq!(mime_type("song.mp3"), "audio/mpeg");
    assert_eq!(mime_type("unknown.xyz"), "application/octet-stream");
    assert_eq!(mime_type("no_ext"), "application/octet-stream");
}

#[test]
fn handle_list_feeds_timeout() {
    // The channel to the reducer is closed.
    let resp = query_response(Err(QueryFailure::Closed), 200);
    assert_eq!(resp.status_code, 503);
}

#[test]
fn handle_list_downloads_timeout() {
    // No answer came in time.
    let resp = query_response(Err(QueryFailure::Late), 200);
    assert_eq!(resp.status_code, 503);
}

#[test]
fn handle_health_connected() {
    let resp = handle_health(true);
    assert_eq!(resp.status_code, 200);
    assert_eq!(handle_health(false).status_code, 503);
}

#[test]
fn test_fire_event_success() {
    let resp = fire_event(true, "test msg");
    assert_eq!(resp.status_code, 200);
    assert_eq!(text_of(&resp), r#"{"data":null,"message":"test msg"}"#);
}

#[test]
fn test_fire_event_closed_channel() {
    let resp = fire_event(false, "test");
    assert_eq!(resp.status_code, 503);
}

#[test]
fn handle_poll_success() {
    let (event, message) = start_action(Action::PollDownloader);
    let resp = fire_event(true, message);
    assert_eq!(resp.status_code, 200);
    assert_eq!(event, Event::PollDownloader);
}

#[test]
fn handle_refresh_success() {
    let (event, message) = start_action(Action::RefreshDownloads);
    let resp = fire_event(true, message);
    assert_eq!(resp.status_code, 200);
    assert!(matches!(event, Event::RefreshDownloads));
}

#[test]
fn test_handle_file_stream_unknown_infohash() {
    let resp = file_to_stream(Err(QueryFailure::Closed)).unwrap_err();
    assert_eq!(resp.status_code, 503);
}

#[test]
fn remaining_actions() {
    assert_eq!(start_action(Action::RefreshFeeds), (Event::RssTickAll, "RSS refresh triggered"));
    assert_eq!(
        start_action(Action::TestNotifications),
        (Event::NotifyTest, "test notifications sent")
    );
}

#[test]
fn errors_are_problem_details() {
    let detail = HandlerError::Internal { client: "c".to_string(), detail: "secret".to_string() };
    let cases = [
        (HandlerError::BadRequest("b".to_string()), 400, "invalid-request", "b"),
        (HandlerError::NotFound("n".to_string()), 404, "not-found", "n"),
        (HandlerError::Timeout, 503, "service-unavailable", "server busy"),
        (HandlerError::ChannelClosed, 503, "service-unavailable", "server busy"),
        (detail, 500, "internal", "c"),
    ];
    for (error, status, class, text) in cases {
        let resp = error.to_response();
        assert_eq!(resp.status_code, status);
        assert!(has_header(&resp, "Content-Type", "application/problem+json"));
        let body = text_of(&resp);
        assert!(body.contains(&format!("\"type\":\"urn:bangumi-rss:problems:{class}\"")), "{body}");
        assert!(body.contains(&format!("\"detail\":\"{text}\"")), "{body}");
        assert!(!body.contains("secret"));
    }
    let resp = query_response(Err(QueryFailure::Dropped), 200);
    assert_eq!(resp.status_code, 500);
    let refused = ApiResult::Error { code: 400, message: "m".to_string() };
    assert_eq!(api_result_response(refused, 201).status_code, 400);
    let created = ApiResult::OK { value: "\"id\"".to_string() };
    let resp = api_result_response(created, 201);
    assert_eq!(resp.status_code, 201);
    assert_eq!(text_of(&resp), r#"{"data":"id"}"#);
    assert_eq!(problem_type_for_status(400).1, "Invalid request");
    for (status, class, title) in [
        (401, problem_type::UNAUTHORIZED, "Unauthorized"),
        (404, problem_type::NOT_FOUND, "Not found"),
        (405, problem_type::METHOD_NOT_ALLOWED, "Method not allowed"),
        (416, problem_type::RANGE_NOT_SATISFIABLE, "Range Not Satisfiable"),
        (500, problem_type::INTERNAL, "Internal error"),
        (503, problem_type::SERVICE_UNAVAILABLE, "Service unavailable"),
    ] {
        assert_eq!(problem_type_for_status(status), (class, title));
    }
    assert_eq!(problem_type_for_status(418).0, problem_type::INTERNAL);
}

// ── Feed requests ──

fn body(members: Vec<(&str, Json)>) -> Json {
    Json::object(members.into_iter().map(|(k, v)| Member::new(k, v)).collect())
}

#[test]
fn feeds_are_created_from_valid_requests() {
    let request = body(vec![
        ("url", Json::text("https://example.com/rss")),
        ("name", Json::text("星海物语")),
        ("season", Json::integer(2)),
    ]);
    let event = handle_feed_create(&request, None, None).unwrap();
    assert_eq!(
        event,
        Event::ConfirmFeed {
            url: "https://example.com/rss".to_string(),
            name: "星海物语".to_string(),
            season: 2,
            bangumi_info: None,
            filter: FeedFilter::default(),
        }
    );
    let no_url = body(vec![("name", Json::text("x"))]);
    assert_eq!(handle_feed_create(&no_url, None, None).unwrap_err().status_code, 400);
    let bad_url = body(vec![("url", Json::text("ftp://x")), ("name", Json::text("x"))]);
    assert_eq!(handle_feed_create(&bad_url, None, None).unwrap_err().status_code, 400);
    let no_name = body(vec![("url", Json::text("https://example.com/rss"))]);
    let resp = handle_feed_create(&no_name, None, None).unwrap_err();
    assert_eq!(resp.status_code, 400);
    assert!(text_of(&resp).contains("missing name"));
}

#[test]
fn malformed_filters_are_refused() {
    assert_eq!(filter_member(None), Ok(None));
    let filter = FeedFilter { includes: vec!["a".to_string()], exclude: vec![], regex: None };
    assert_eq!(filter_member(Some(Ok(filter.clone()))), Ok(Some(filter)));
    let resp = filter_member(Some(Err("no list".to_string()))).unwrap_err();
    assert_eq!(resp.status_code, 400);
    assert!(text_of(&resp).contains(problem_type::INVALID_FILTER));
    assert!(text_of(&resp).contains("invalid filter: no list"));
}

#[test]
fn feeds_are_updated_and_deleted_by_identifier() {
    let id = FeedId { bits: 9 };
    let request = body(vec![("name", Json::text("x")), ("season", Json::integer(1))]);
    let event = handle_feed_update(&id.to_text(), Some(&request), None, None).unwrap();
    assert_eq!(
        event,
        Event::UserConfirm {
            feed_id: id,
            name: "x".to_string(),
            season: 1,
            bangumi_info: None,
            filter: None,
        }
    );
    assert_eq!(handle_feed_update("no", Some(&request), None, None).unwrap_err().status_code, 400);
    let resp = handle_feed_update(&id.to_text(), None, None, None).unwrap_err();
    assert_eq!(resp.status_code, 400);
    assert_eq!(
        handle_feed_delete(&id.to_text()).unwrap(),
        Event::ApiRemoveFeed { feed_id: id }
    );
    assert_eq!(handle_feed_delete("no").unwrap_err().status_code, 400);
}

#[test]
fn previews_are_asked_for_by_url() {
    let request = body(vec![("url", Json::text("https://example.com/rss"))]);
    assert_eq!(preview_url(&request).unwrap(), "https://example.com/rss");
    assert_eq!(preview_url(&body(vec![])).unwrap_err().status_code, 400);
    assert_eq!(preview_response(Ok("{}".to_string())).status_code, 200);
    assert!(preview_response(Err("e".to_string())).status_code >= 400);
}

#[test]
fn metadata_requests() {
    assert_eq!(subject_id("42").unwrap(), 42);
    assert_eq!(subject_id("x").unwrap_err().status_code, 400);
    assert_eq!(search_name(Some("x")).unwrap(), "x");
    assert_eq!(search_name(None).unwrap_err().status_code, 400);
    assert_eq!(after_search(Lookup::Found(3)).unwrap(), 3);
    assert_eq!(after_search(Lookup::Nothing).unwrap_err().status_code, 404);
    assert_eq!(after_search(Lookup::Failed).unwrap_err().status_code, 500);
    assert_eq!(handle_bangumi_subject(Lookup::Found("{}".to_string())).status_code, 200);
    assert_eq!(handle_bangumi_subject(Lookup::Nothing).status_code, 404);
    let resp = handle_bangumi_search(Lookup::Failed);
    assert_eq!(resp.status_code, 500);
    assert!(text_of(&resp).contains("upstream-error"));
}

#[test]
fn test_is_valid_rss_url() {
    assert!(is_valid_rss_url("https://example.com/feed.xml"));
    assert!(is_valid_rss_url("http://example.com/feed"));
    assert!(!is_valid_rss_url(""));
    assert!(!is_valid_rss_url("ftp://example.com"));
    assert!(!is_valid_rss_url("not-a-url"));
}

#[test]
fn rss_url_limits() {
    let longest = format!("http://{}", "a".repeat(2041));
    assert!(is_valid_rss_url(&longest));
    assert!(!is_valid_rss_url(&format!("{longest}a")));
    assert!(!is_valid_rss_url("http://"));
    assert!(!is_valid_rss_url("http:// example.com"));
    assert!(is_valid_rss_url("http://例子"));
}

// ── Ranges ──

#[test]
fn parse_range_standard() {
    assert_eq!(parse_range("0-4", 100), Some((0, 4)));
    assert_eq!(parse_range("50-", 100), Some((50, 99)));
    assert_eq!(parse_range("0-99", 100), Some((0, 99)));
}

#[test]
fn parse_range_suffix() {
    assert_eq!(parse_range("-10", 100), Some((90, 99)));
    assert_eq!(parse_range("-1", 100), Some((99, 99)));
}

#[test]
fn parse_range_invalid() {
    assert_eq!(parse_range("100-", 100), None);
    assert_eq!(parse_range("0-100", 100), None);
    assert_eq!(parse_range("-0", 100), None);
    assert_eq!(parse_range("abc", 100), None);
    assert_eq!(parse_range("", 100), None);
}

#[test]
fn resolve_no_range_header() {
    let result = resolve_range(None, 100);
    assert!(result.is_ok());
    assert_eq!(result.unwrap(), None);
}

#[test]
fn resolve_valid_range() {
    let result = resolve_range(Some("bytes=0-9"), 100);
    assert!(result.is_ok());
    assert_eq!(result.unwrap(), Some((0, 9)));
}

#[test]
fn resolve_invalid_prefix_returns_416() {
    let result = resolve_range(Some("invalid=0-9"), 100);
    assert!(result.is_err());
    assert_eq!(result.unwrap_err().status_code, 416);
}

#[test]
fn resolve_out_of_bounds_returns_416() {
    let result = resolve_range(Some("bytes=50-200"), 100);
    assert!(result.is_err());
    assert_eq!(result.unwrap_err().status_code, 416);
}

/// Serves a part of a file: the response, and the bytes of its body.
fn serve(data: &[u8], range: Option<(u64, u64)>) -> (Response, Vec<u8>) {
    let size = data.len() as u64;
    let stream = FileStream::new(Cursor::new(data.to_vec()), size);
    assert_eq!(stream.size(), size);
    match part_to_read(size, range) {
        Some((start, length)) => match stream.into_range(start, length) {
            Some(mut part) => {
                let resp = serve_file_range(size, "text/plain", range, true);
                assert_eq!(resp.body, Body::FilePart { start, length });
                (resp, part.read_to_end().unwrap())
            }
            None => (serve_file_range(size, "text/plain", range, false), vec![]),
        },
        None => (serve_file_range(size, "text/plain", range, true), vec![]),
    }
}

#[test]
fn serve_full_file_no_range() {
    let (resp, body) = serve(b"hello world", None);
    assert_eq!(resp.status_code, 200);
    assert!(resp.headers.iter().any(|h| h.name == "Accept-Ranges"));
    assert_eq!(body, b"hello world");
}

#[test]
fn serve_range_206() {
    let (resp, _) = serve(b"hello world", Some((0, 4)));
    assert_eq!(resp.status_code, 206);
    assert!(has_header(&resp, "Content-Range", "bytes 0-4/11"));
}

#[test]
fn serve_range_data_integrity() {
    let (resp, body) = serve(b"0123456789ABCDEF", Some((0, 3)));
    assert_eq!(resp.status_code, 206);
    assert_eq!(body, b"0123");
}

#[test]
fn serve_empty_file() {
    let (resp, body) = serve(b"", None);
    assert_eq!(resp.status_code, 200);
    assert!(body.is_empty());
}

#[test]
fn range_edges() {
    // An empty file has no last bytes.
    assert_eq!(parse_range("-5", 0), None);
    assert_eq!(resolve_range(Some("bytes=-5"), 0).unwrap_err().status_code, 416);
    // Of an empty file nothing is read, whatever the range.
    assert_eq!(part_to_read(0, Some((5, 2))), None);
    assert_eq!(serve_file_range(0, "text/plain", Some((5, 2)), true).status_code, 200);
    assert_eq!(resolve_range(Some("bytes=0-"), 0).unwrap_err().status_code, 416);
    assert!(has_header(&build_416(7), "Content-Range", "bytes */7"));
    // A suffix longer than the file is the whole file.
    assert_eq!(parse_range("-1000", 100), Some((0, 99)));
    let (_, body) = serve(b"0123456789", Some((4, 9)));
    assert_eq!(body, b"456789");
    assert_eq!(serve_file_range(10, "text/plain", Some((0, 3)), false).status_code, 500);
    // A range that is printed is read back.
    assert_eq!(parse_range(&format!("{}-{}", 7, 42), 100), Some((7, 42)));
}

#[test]
fn files_are_streamed_by_range() {
    let stream = || FileStream::new(Cursor::new(b"0123456789".to_vec()), 10);
    let (resp, part) = handle_file_stream(stream(), "/lib/a.mp4", Some("bytes=2-5"));
    assert_eq!(resp.status_code, 206);
    assert!(has_header(&resp, "Content-Type", "video/mp4"));
    assert_eq!(part.unwrap().read_to_end().unwrap(), b"2345");
    let (resp, part) = handle_file_stream(stream(), "/lib/a.mp4", None);
    assert_eq!(resp.status_code, 200);
    assert_eq!(part.unwrap().read_some(4).unwrap(), b"0123");
    let (resp, part) = handle_file_stream(stream(), "/lib/a.mp4", Some("bytes=20-"));
    assert_eq!(resp.status_code, 416);
    assert!(part.is_none());
}

fn episode(path: Option<&str>) -> Result<ApiResult<EpisodeRecord>, QueryFailure> {
    Ok(ApiResult::OK {
        value: EpisodeRecord {
            infohash: "h".to_string(),
            torrent_url: String::new(),
            feed_id: FeedId { bits: 0 },
            key: EpisodeKey {
                anime: AnimeIdentity { name: "a".to_string(), season: 1 },
                episode: 1,
            },
            status: RecordStatus::InLibrary,
            library_path: path.map(|p| p.to_string()),
        },
    })
}

#[test]
fn only_library_files_are_served() {
    assert_eq!(file_to_stream(episode(Some("/lib/a.mp4"))).unwrap(), "/lib/a.mp4");
    assert!(file_to_stream(episode(None)).unwrap_err().status_code >= 400);
    assert!(file_to_stream(episode(Some("lib/a.mp4"))).unwrap_err().status_code >= 400);
    assert!(file_to_stream(episode(Some("/lib/../etc/a"))).unwrap_err().status_code >= 400);
    let unknown = Ok(ApiResult::Error { code: 404, message: "not found".to_string() });
    assert_eq!(file_to_stream(unknown).unwrap_err().status_code, 404);
    assert_eq!(open_failed(OpenFailure::NotFound).status_code, 404);
    assert!(open_failed(OpenFailure::PermissionDenied).status_code >= 400);
    assert_eq!(open_failed(OpenFailure::Other).status_code, 500);
}

// ── Problem Details, methods, authentication ──

#[test]
fn test_problem_response() {
    let resp = problem_response(404, problem_type::NOT_FOUND, "Not found", "no such feed");
    assert_eq!(resp.status_code, 404);
    let body_str = text_of(&resp);
    assert!(body_str.contains("\"type\":\"urn:bangumi-rss:problems:not-found\""));
    assert!(body_str.contains("\"status\":404"));
    assert!(body_str.contains("no such feed"));
    assert!(!body_str.contains("success"));
}

#[test]
fn test_constant_time_eq() {
    assert!(constant_time_eq("user:pass", "user:pass"));
    assert!(!constant_time_eq("user:pass", "user:passw"));
    assert!(!constant_time_eq("user:pass", "user:pasx"));
    assert!(!constant_time_eq("aaaa", "zzzz"));
    assert!(!constant_time_eq("", "x"));
    assert!(constant_time_eq("", ""));
}

#[test]
fn test_method_not_allowed() {
    // Wrong method on a known route → 405 with Allow.
    let resp = method_not_allowed_response("DELETE", "/api/feeds").unwrap();
    assert_eq!(resp.status_code, 405);
    assert!(has_header(&resp, "Allow", "GET, POST"));

    // Allowed method → no 405.
    assert!(method_not_allowed_response("GET", "/api/feeds").is_none());
    assert!(method_not_allowed_response("POST", "/api/feeds").is_none());
    assert!(method_not_allowed_response("PUT", "/api/feeds/abc").is_none());
    assert!(method_not_allowed_response("GET", "/").is_none());

    // Unknown path → no 405 (router will 404).
    assert!(method_not_allowed_response("GET", "/api/nope").is_none());

    // Specific route wins over the {id} pattern.
    let resp = method_not_allowed_response("DELETE", "/api/feeds/refresh").unwrap();
    assert!(has_header(&resp, "Allow", "POST"));

    // Allowed method on a route that also matches a wildcard pattern.
    assert!(method_not_allowed_response("POST", "/api/feeds/refresh").is_none());
    assert!(method_not_allowed_response("GET", "/api/feeds/abc").is_some());
    assert!(method_not_allowed_response("PUT", "/api/feeds/refresh").is_some());

    // Query strings don't affect matching.
    let resp = method_not_allowed_response("POST", "/api/bangumi/search?name=x").unwrap();
    assert!(has_header(&resp, "Allow", "GET"));
}

#[test]
fn unknown_paths_are_not_found() {
    let resp = not_found_response();
    assert_eq!(resp.status_code, 404);
    assert!(text_of(&resp).contains("urn:bangumi-rss:problems:not-found"));
}

#[test]
fn test_auth_success() {
    assert!(check_auth(Some("Basic dXNlcjpwYXNz"), "user", "pass"));
}

#[test]
fn test_auth_fail_wrong_credentials() {
    assert!(!check_auth(Some("Basic dXNlcjpwYXNz"), "user", "wrong"));
}

#[test]
fn test_auth_fail_no_header() {
    assert!(!check_auth(None, "user", "pass"));
}

#[test]
fn requests_pass_the_gate_with_credentials_only() {
    assert_eq!(basic_auth("user", "pass"), "Basic dXNlcjpwYXNz");
    assert!(gate(Some("Basic dXNlcjpwYXNz"), "user", "pass").is_none());
    let refused = gate(None, "user", "pass").unwrap();
    assert_eq!(refused.status_code, 401);
    assert!(refused.headers.iter().any(|h| h.name == "WWW-Authenticate"));
    // Without a configured user every request passes.
    assert!(gate(None, "", "").is_none());
}

#[test]
fn requests_reach_their_endpoints() {
    let to = |method: &str, url: &str| dispatch(method, url, url.split('?').next().unwrap());
    assert_eq!(to("GET", "/"), Endpoint::Index);
    assert_eq!(to("GET", "/style.css"), Endpoint::Style);
    assert_eq!(to("GET", "/api/feeds"), Endpoint::ListFeeds);
    assert_eq!(to("POST", "/api/feeds"), Endpoint::CreateFeed);
    assert_eq!(to("POST", "/api/feeds/refresh"), Endpoint::RefreshFeeds);
    assert_eq!(to("POST", "/api/feeds/preview"), Endpoint::Preview);
    assert_eq!(to("PUT", "/api/feeds/abc"), Endpoint::UpdateFeed { id: "abc".to_string() });
    assert_eq!(to("DELETE", "/api/feeds/abc"), Endpoint::DeleteFeed { id: "abc".to_string() });
    assert_eq!(
        to("GET", "/api/files/a%20b"),
        Endpoint::StreamFile { infohash: "a b".to_string() }
    );
    assert_eq!(to("GET", "/api/downloads"), Endpoint::ListDownloads);
    assert_eq!(to("POST", "/api/downloads/refresh"), Endpoint::RefreshDownloads);
    assert_eq!(to("POST", "/api/downloads/poll"), Endpoint::PollDownloader);
    assert_eq!(to("GET", "/api/bangumi/subjects/7"), Endpoint::Subject { id: "7".to_string() });
    assert_eq!(to("GET", "/api/bangumi/search?name=x"), Endpoint::Search);
    assert_eq!(to("GET", "/api/health"), Endpoint::Health);
    assert_eq!(to("POST", "/api/notify/test"), Endpoint::TestNotifications);
    for (method, url) in [
        ("PATCH", "/api/feeds"),
        ("GET", "/api/nope"),
        ("GET", "//api/feeds"),
        ("GET", "/api/feeds/"),
        ("GET", "api/feeds"),
        ("GET", ""),
    ] {
        assert_eq!(to(method, url), Endpoint::Nothing, "{method} {url}");
    }
    // A piece that is left empty is a parameter all the same.
    assert_eq!(to("PUT", "/api/feeds/"), Endpoint::UpdateFeed { id: String::new() });
    assert_eq!(to("GET", "/api/files/"), Endpoint::StreamFile { infohash: String::new() });
    assert_eq!(to("GET", "/api/bangumi/subjects/"), Endpoint::Subject { id: String::new() });
    assert_eq!(to("GET", "/api//files/x"), Endpoint::Nothing);
}
