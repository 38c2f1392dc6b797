use bangumi_rss::bangumi::{
    detail, detail_url, search, search_url, ApiBase, BgmImages, BgmRating, BgmSubject,
};
use bangumi_rss::effect::Effect;
use bangumi_rss::encode::{
    encode_field, encode_keyword, encode_link, hex_text, json_escape, url_encode,
};
use bangumi_rss::feed_id::FeedId;
use bangumi_rss::fetch::{
    fetch_bytes, fetch_items, fetch_preview, is_torrent_file, rss_fetched, torrent_fetched,
    MAX_RSS_SIZE, MAX_TORRENT_SIZE,
};
use bangumi_rss::notify::{
    compose, notification_to_fields, render, render_failed, resolve_template, resolve_webhook,
    Preset, TemplateType,
};
use bangumi_rss::nesting::nesting_of;
use bangumi_rss::report::{feed_titles, read_feed};
use bangumi_rss::rss::{parse_preview, parse_rss, MAX_NESTING, TOO_DEEP};
use bangumi_rss::types::{EpisodeDownloadedData, FailedData, Notification, RssItem};

// ── RSS ──

#[test]
fn parse_empty_rss() {
    let xml = r#"<?xml version="1.0"?><rss version="2.0"><channel><title>Test</title></channel></rss>"#;
    let items = parse_rss(xml).unwrap();
    assert!(items.is_empty());
}

#[test]
fn parse_single_item() {
    let xml = r#"<?xml version="1.0"?>
<rss version="2.0">
  <channel>
    <title>Anime Feed</title>
    <item>
      <title>[Subs] Anime - 01 [1080p]</title>
      <enclosure url="https://example.com/01.torrent" length="12345" type="application/x-bittorrent"/>
    </item>
  </channel>
</rss>"#;
    let items = parse_rss(xml).unwrap();
    assert_eq!(items.len(), 1);
    assert_eq!(items[0].title, "[Subs] Anime - 01 [1080p]");
    assert_eq!(items[0].torrent_url, "https://example.com/01.torrent");
    assert!(!items[0].is_batch);
}

#[test]
fn parse_skips_item_without_enclosure() {
    let xml = r#"<?xml version="1.0"?>
<rss version="2.0">
  <channel>
    <title>Test</title>
    <item><title>No Enclosure</title></item>
  </channel>
</rss>"#;
    let items = parse_rss(xml).unwrap();
    assert!(items.is_empty());
}

#[test]
fn parse_preview_returns_channel_and_titles() {
    let xml = r#"<?xml version="1.0"?>
<rss version="2.0">
  <channel>
    <title>My Anime Feed</title>
    <item><title>[Subs] Anime - 01 [1080p]</title><enclosure url="https://example.com/01.torrent" length="1" type="application/x-bittorrent"/></item>
    <item><title>[Subs] Anime - 02 [1080p]</title><enclosure url="https://example.com/02.torrent" length="1" type="application/x-bittorrent"/></item>
  </channel>
</rss>"#;
    let preview = parse_preview(xml).unwrap();
    assert_eq!(preview.channel_title, "My Anime Feed");
    assert_eq!(preview.item_titles.len(), 2);
    assert_eq!(preview.item_titles[0], "[Subs] Anime - 01 [1080p]");
}

#[test]
fn parse_preview_limits_to_5_titles() {
    let mut items = String::new();
    for i in 1..=10 {
        items.push_str(&format!(
            r#"<item><title>Ep {i:02}</title><enclosure url="https://example.com/{i:02}.torrent" length="1" type="application/x-bittorrent"/></item>"#,
        ));
    }
    let xml = format!(
        r#"<?xml version="1.0"?><rss version="2.0"><channel><title>Test</title>{items}</channel></rss>"#
    );
    let preview = parse_preview(&xml).unwrap();
    assert_eq!(preview.item_titles.len(), 5);
}

/// A feed with `depth` nested elements, of which the outermost has a prefix.
fn nested_feed(depth: usize) -> String {
    format!(
        "<rss><channel><title>T</title>{}{}</channel></rss>",
        "<a:b>".repeat(depth),
        "</a:b>".repeat(depth)
    )
}

#[test]
fn nesting_counts_elements_in_prefixed_ones() {
    assert_eq!(nesting_of(""), 0);
    assert_eq!(nesting_of("<rss><channel><b><c:d><e/></c:d></b></channel></rss>"), 0);
    assert_eq!(nesting_of("<rss><channel><c:d><e><f/></e></c:d></channel></rss>"), 3);
    assert_eq!(nesting_of("<rss><channel><c:d/><item><c:d><e></e></c:d></item></channel></rss>"), 2);
    assert_eq!(nesting_of("<rdf:RDF><channel/><item ><c:d\tx='>'/></item></rdf:RDF>"), 1);
    assert_eq!(nesting_of("<rss><channel><item><content:encoded><b/></content:encoded>"), 0);
    // A name that begins with a colon has no prefix; what stands elsewhere is not read.
    assert_eq!(nesting_of("<rss><channel><:d><e/></:d></channel><c:d><e/></c:d></rss>"), 0);
    assert_eq!(nesting_of("<rss/><rss><channel><c:d><e/></c:d></channel></rss>"), 0);
    assert_eq!(nesting_of("<feed><channel><c:d><e/></c:d></channel></feed>"), 0);
    // End tags in comments and character data close nothing.
    assert_eq!(nesting_of("<rss><channel><a:b><!-- </a:b> --><c><![CDATA[</c>]]><d/>"), 3);
    assert_eq!(nesting_of("<rss><channel><a:b><!--></a:b><c><d>--><e/>"), 2);
    assert_eq!(nesting_of("<rss><channel><a:b></a:b x='>'><a:b/>"), 1);
    // Declarations of a document type are passed over.
    for doctype in [
        "<!DOCTYPE rss>",
        "<!DOCTYPE rss PUBLIC '[' \"]>\">",
        "<!doctype rss []>",
        "<!DOCTYPE rss [<!ENTITY b ']>'><!ELEMENT c (#PCDATA)>] >",
        "<!DOCTYPE rss [<!-- ]> <!--> --><?p ]> ?><!ATTLIST d e '>'><!NOTATION f \"]>\">]>",
        "<!DOCTYPE rss [<x ]>]>",
    ] {
        let body = format!("{doctype}<rss><channel><a:b><c/></a:b></channel></rss>");
        assert_eq!(nesting_of(&body), 2, "{doctype}");
        assert!(parse_preview(&body).is_ok(), "{doctype}");
    }
    // A name in another encoding may be any name.
    assert_eq!(nesting_of("<\u{1b}(Brss><channel><b/></channel></rss>"), 3);
    assert_eq!(nesting_of(&nested_feed(MAX_NESTING)), MAX_NESTING);
}

fn extension_depth(e: &rss::extension::Extension) -> usize {
    1 + e.children().values().flatten().map(extension_depth).max().unwrap_or(0)
}

fn extensions_depth(map: &rss::extension::ExtensionMap) -> usize {
    map.values().flat_map(|m| m.values()).flatten().map(extension_depth).max().unwrap_or(0)
}

#[test]
fn nesting_is_what_the_reader_finds() {
    let mut seed: u64 = 7;
    let mut next = |n: usize| {
        seed = seed.wrapping_mul(6364136223846793005).wrapping_add(1442695040888963407);
        (seed >> 33) as usize % n
    };
    let names = ["item", "channel", "a:b", "b", "c:d", ":e", "content:encoded", "title", "image"];
    let others = [
        "text", "&amp;", "<!-- </b><x> -->", "<![CDATA[<y></b>]]>", "<?p </b> ?>", "<b/>", "<a:c />",
        "<a:c x='>' y=\"/>\"/>", "<item/>", "<channel/>",
    ];
    let mut read = 0;
    for _ in 0..5000 {
        let root = ["rss", "rdf:RDF"][next(2)];
        let mut body = String::from(["", "<?xml version='1.0'?>", "<!DOCTYPE a [<!ENTITY b '<c>]>'>]>"][next(3)]);
        body += &format!("<{root}>");
        let mut open = vec![root];
        for _ in 0..next(40) {
            match next(5) {
                0 | 1 => {
                    let name = names[next(names.len())];
                    body += &format!("<{name}{}>", ["", " ", "\n f='/'"][next(3)]);
                    open.push(name);
                }
                2 | 3 if open.len() > 1 => body += &format!("</{}>", open.pop().unwrap()),
                _ => body += others[next(others.len())],
            }
        }
        while let Some(name) = open.pop() {
            body += &format!("</{name}>");
        }
        body += ["", "<a:b><c></a:b>"][next(2)];
        if let Ok(channel) = body.parse::<rss::Channel>() {
            read += 1;
            let found = channel
                .items()
                .iter()
                .map(|i| extensions_depth(i.extensions()))
                .max()
                .unwrap_or(0)
                .max(extensions_depth(channel.extensions()));
            // An earlier channel is replaced by a later one, with what it held.
            if body.matches("<channel").count() == 1 {
                assert_eq!(nesting_of(&body), found, "{body}");
            } else {
                assert!(nesting_of(&body) >= found, "{body}");
            }
        }
    }
    assert!(read > 1000, "{read}");
}

#[test]
fn flat_and_plain_documents_are_read() {
    let item = "<item><title>[A] B - 01</title><enclosure url='http://x/1.torrent'/></item>";
    let flat = format!("<!DOCTYPE rss[]><rss><channel>{}</channel></rss>", item.repeat(2000));
    assert_eq!(parse_rss(&flat).unwrap().len(), 2000);
    let plain = format!(
        "<rss><channel>{}{}{item}</channel></rss>",
        "<b>".repeat(50_000),
        "</b>".repeat(50_000)
    );
    assert_eq!(parse_rss(&plain).unwrap().len(), 1);
    let skipped = format!(
        "<rss><channel><b>{}{}</b>{item}</channel></rss>",
        "<a:b>".repeat(50_000),
        "</a:b>".repeat(50_000)
    );
    assert_eq!(parse_rss(&skipped).unwrap().len(), 1);
}

#[test]
fn deeply_nested_documents_are_refused() {
    let deepest = nested_feed(MAX_NESTING);
    assert_eq!(parse_preview(&deepest).unwrap().channel_title, "T");
    assert!(parse_rss(&deepest).unwrap().is_empty());
    for depth in [MAX_NESTING + 1, 200_000] {
        let body = nested_feed(depth);
        assert_eq!(parse_preview(&body).unwrap_err().message, TOO_DEEP);
        assert_eq!(parse_rss(&body).unwrap_err().message, TOO_DEEP);
        assert_eq!(read_feed(&body).unwrap_err(), TOO_DEEP);
        assert_eq!(feed_titles(&body).unwrap_err(), TOO_DEEP);
    }
}

#[test]
fn parse_preview_handles_empty_body() {
    let result = parse_preview("");
    assert!(result.is_err());
}

#[test]
fn batches_are_marked() {
    let xml = r#"<?xml version="1.0"?><rss version="2.0"><channel><title>T</title><item><title>[S] A 01-12 [1080p]</title><enclosure url="u" length="1" type="t"/></item></channel></rss>"#;
    let items = parse_rss(xml).unwrap();
    assert!(items[0].is_batch);
    assert!(parse_rss("<html>").is_err());
}

// ── Fetched bytes ──

#[test]
fn torrent_magic_byte_rejects_non_d() {
    let bytes = b"<html>404 Not Found</html>".to_vec();
    assert_ne!(bytes.first(), Some(&b'd'), "should not be valid torrent");
    assert!(!is_torrent_file(&bytes));
}

#[test]
fn torrent_magic_byte_accepts_d() {
    let bytes = b"d8:announce13:example.come".to_vec();
    assert_eq!(bytes.first(), Some(&b'd'), "should be valid torrent");
    assert!(is_torrent_file(&bytes));
}

#[test]
fn only_torrent_files_are_added() {
    let id = FeedId { bits: 7 };
    let fetched = |b: &[u8]| torrent_fetched("u".to_string(), "/s".to_string(), id, Ok(b.to_vec()));
    assert!(
        fetched(b"de")
            == Some(Effect::AddTorrentBytes {
                data: b"de".to_vec(),
                save_path: "/s".to_string(),
                feed_id: id,
                torrent_url: "u".to_string(),
            })
    );
    assert!(fetched(b"<html>") == None);
    assert!(fetched(b"") == None);
    assert!(
        torrent_fetched("u".to_string(), "/s".to_string(), id, Err("timeout".to_string())) == None
    );
}

#[test]
fn sizes_are_limited() {
    assert_eq!(MAX_RSS_SIZE, 1024 * 1024);
    assert_eq!(MAX_TORRENT_SIZE, 10 * 1024 * 1024);
    assert_eq!(fetch_bytes(vec![1, 2, 3], 3), Ok(vec![1, 2, 3]));
    assert_eq!(
        fetch_bytes(vec![1, 2, 3, 4], 3),
        Err("response too large: 4 bytes (limit 3)".to_string())
    );
}

#[test]
fn fetched_feeds_are_parsed() {
    let body = br#"<?xml version="1.0"?><rss version="2.0"><channel><title>T</title><item><title>a</title><enclosure url="u" length="1" type="t"/></item></channel></rss>"#;
    let items = fetch_items(Ok(body.to_vec())).unwrap();
    assert_eq!(
        items,
        vec![RssItem { title: "a".to_string(), torrent_url: "u".to_string(), is_batch: false }]
    );
    assert_eq!(fetch_preview(Ok(body.to_vec())).unwrap().channel_title, "T");
    assert_eq!(fetch_items(Err("timeout".to_string())), Err("timeout".to_string()));
    let invalid = fetch_items(Ok(vec![0xff])).unwrap_err();
    assert_eq!(
        invalid,
        String::from_utf8(vec![0xff]).unwrap_err().to_string()
    );
    let id = FeedId { bits: 7 };
    assert!(
        rss_fetched(id, "/d".to_string(), Err("e".to_string()))
            == Effect::RssFetchFailed { feed_id: id, error: "e".to_string() }
    );
    assert!(
        rss_fetched(id, "/d".to_string(), Ok(vec![]))
            == Effect::RssFetchComplete {
                feed_id: id,
                items: vec![],
                download_dir: "/d".to_string(),
            }
    );
}

// ── Bangumi ──

#[test]
fn test_url_encode() {
    assert_eq!(encode_keyword("虚构动画"), "%E8%99%9A%E6%9E%84%E5%8A%A8%E7%94%BB");
    assert_eq!(encode_keyword("hello world"), "hello+world");
    assert_eq!(encode_keyword("abc-123"), "abc-123");
}

fn images(list: &[(&str, &str)]) -> BgmImages {
    let get = |k: &str| list.iter().find(|(n, _)| *n == k).map(|(_, v)| v.to_string());
    BgmImages {
        large: get("large"),
        common: get("common"),
        medium: get("medium"),
        small: get("small"),
        grid: get("grid"),
    }
}

#[test]
fn test_best_url_all_present() {
    let images = images(&[
        ("large", "http://example.com/l.jpg"),
        ("common", "http://example.com/c.jpg"),
        ("medium", "http://example.com/m.jpg"),
        ("small", "http://example.com/s.jpg"),
        ("grid", "http://example.com/g.jpg"),
    ]);
    assert_eq!(images.best_url(), "http://example.com/c.jpg");
}

#[test]
fn test_best_url_no_common() {
    let images = images(&[
        ("large", "http://example.com/l.jpg"),
        ("medium", "http://example.com/m.jpg"),
        ("small", "http://example.com/s.jpg"),
    ]);
    assert_eq!(images.best_url(), "http://example.com/l.jpg");
}

#[test]
fn test_best_url_only_grid() {
    let images = images(&[("grid", "http://example.com/g.jpg")]);
    assert_eq!(images.best_url(), "http://example.com/g.jpg");
}

#[test]
fn test_best_url_empty() {
    assert_eq!(images(&[]).best_url(), "");
}

#[test]
fn metadata_urls() {
    let mut base = ApiBase::new();
    assert_eq!(base.base_url(), "https://api.bgm.tv");
    base.init_api_base("http://mirror".to_string());
    base.init_api_base("http://other".to_string());
    assert_eq!(base.base_url(), "http://mirror");
    assert_eq!(
        search_url("http://mirror", "a b"),
        "http://mirror/search/subject/a+b?responseGroup=medium&max_results=5"
    );
    assert_eq!(detail_url("http://mirror", 42), "http://mirror/subject/42?responseGroup=large");
    assert_eq!(search(&Some(vec![5, 6])), Some(5));
    assert_eq!(search(&Some(vec![])), None);
    assert_eq!(search(&None), None);
}

fn subject(name_cn: &str, name: &str) -> BgmSubject {
    BgmSubject {
        name_cn: name_cn.to_string(),
        name: name.to_string(),
        summary: "s".to_string(),
        eps_count: None,
        rating: Some(BgmRating { score: Some("7.5".to_string()), total: Some(9) }),
        air_date: "2024".to_string(),
        images: Some(images(&[("grid", "g")])),
        error: None,
        rank: 3,
        air_weekday: Some(2),
    }
}

#[test]
fn subjects_become_metadata() {
    let info = detail(42, subject("中", "o")).unwrap();
    assert_eq!(info.bangumi_id, 42);
    assert_eq!(info.name_cn, "中");
    assert_eq!(info.rating.as_deref(), Some("7.5"));
    assert_eq!(info.image_url, "g");
    assert_eq!(info.rank, Some(3));
    assert_eq!(detail(42, subject("", "")), None);
    let mut missing = subject("中", "o");
    missing.error = Some("not found".to_string());
    assert_eq!(detail(42, missing), None);
    let mut long = subject("中", "o");
    long.summary = "说".repeat(300);
    long.rank = 0;
    let info = detail(42, long).unwrap();
    assert_eq!(info.summary, "说".repeat(200));
    assert_eq!(info.rank, None);
}

// ── Encodings ──

#[test]
fn url_encodes_special_chars() {
    assert_eq!(url_encode("a&b=c"), "a%26b%3Dc");
    assert_eq!(url_encode("hello world"), "hello+world");
    assert_eq!(url_encode("你好"), "%E4%BD%A0%E5%A5%BD");
}

#[test]
fn json_escapes_special_chars() {
    assert_eq!(json_escape(r#"say "hello""#), r#"say \"hello\""#);
    assert_eq!(json_escape("line1\nline2"), "line1\\nline2");
}

#[test]
fn further_encodings() {
    assert_eq!(encode_link("https://a/b?c=d e"), "https://a/b%3Fc%3Dd%20e");
    assert_eq!(hex_text(255, 4, true), "00FF");
    assert_eq!(hex_text(0xabc, 1, false), "abc");
    assert!(!encode_keyword("a b").contains(' '));
    assert!(!encode_field("a b").contains(' '));
    assert_eq!(json_escape("\u{1}\t\\"), "\\u0001\\t\\\\");
    assert!(json_escape("\u{1f}\n\r\u{7f}").chars().all(|c| c >= ' '));
    assert!(url_encode("a=b&c d%星").chars().all(|c| c.is_ascii_alphanumeric() || "%+".contains(c)));
}

// ── Notifications ──

fn sample_downloaded() -> Notification {
    Notification::EpisodeDownloaded(EpisodeDownloadedData {
        anime_name: "通知模块想要你测试".to_string(),
        season: 1,
        episode: 2,
        library_path: "/anime/通知模块想要你测试/S01/通知模块想要你测试 - 02.mp4".to_string(),
        image_url: Some("https://img.example.com/cover.jpg".to_string()),
        name_cn: None,
        name_original: None,
        summary: Some("这是一个测试通知".to_string()),
        rating: Some("10".to_string()),
        eps_count: Some(2),
    })
}

fn sample_failed() -> Notification {
    Notification::Failed(FailedData {
        title: "通知模块想要你测试".to_string(),
        message: "请求被拒绝：原因是测试需要".to_string(),
    })
}

#[test]
fn preset_bark() {
    let t = Preset::Bark.template();
    let (body, ct) = render(&t, &sample_downloaded());
    assert_eq!(ct, "application/json");
    assert!(body.contains(r#""title":"通知模块想要你测试 第2集""#));
    assert!(body.contains(r#""body":"这是一个测试通知""#));
    assert!(body.contains(r#""group":"bangumi-rss""#));
    assert!(body.contains("https://img.example.com/cover.jpg"));
}

#[test]
fn preset_gotify() {
    let t = Preset::Gotify.template();
    let (body, ct) = render(&t, &sample_downloaded());
    assert_eq!(ct, "application/json");
    assert!(body.contains(r#""priority":5"#));
    assert!(body.contains(r#""message":"这是一个测试通知""#));
    assert!(!body.is_empty());
}

#[test]
fn preset_serverchan() {
    let t = Preset::Serverchan.template();
    let (body, ct) = render(&t, &sample_downloaded());
    assert_eq!(ct, "application/x-www-form-urlencoded");
    assert!(body.starts_with("title="), "body: {body}");
    assert!(body.contains("desp="), "body: {body}");
    // Content is URL-encoded; verify decoded form
    assert!(
        body.contains("%E6%B5%8B%E8%AF%95"),
        "should contain URL-encoded '测试': {body}"
    );
    assert!(
        !body.contains("{{"),
        "template keys should be replaced in: {body}"
    );
}

#[test]
fn custom_json_template() {
    let t = resolve_template(None, Some(r#"{"anime":"{{anime_name}}"}"#));
    let (body, ct) = render(&t, &sample_downloaded());
    assert_eq!(ct, "application/json");
    assert_eq!(body, r#"{"anime":"通知模块想要你测试"}"#);
}

#[test]
fn custom_form_template() {
    let t = resolve_template(None, Some("anime={{anime_name}}&ep={{episode}}"));
    let (body, ct) = render(&t, &sample_downloaded());
    assert_eq!(ct, "application/x-www-form-urlencoded");
    assert!(body.contains("anime="));
    assert!(body.contains("&ep=2"));
}

#[test]
fn default_template() {
    let t = resolve_template(None, None);
    let (body, ct) = render(&t, &sample_downloaded());
    assert_eq!(ct, "application/json");
    assert!(body.contains(r#""title":"通知模块想要你测试 第2集""#));
    assert!(body.contains(r#""body":"这是一个测试通知""#));
}

#[test]
fn failed_notification() {
    let t = resolve_template(None, Some(r#"{"error":"{{error}}"}"#));
    let (body, ct) = render(&t, &sample_failed());
    assert_eq!(ct, "application/json");
    assert!(body.contains("请求被拒绝"));
}

fn field<'a>(fields: &'a [(&'static str, String)], key: &str) -> Option<&'a str> {
    fields.iter().find(|(k, _)| *k == key).map(|(_, v)| v.as_str())
}

fn fields_of(n: &Notification) -> Vec<(&'static str, String)> {
    notification_to_fields(n).into_iter().map(|f| (f.key, f.value)).collect()
}

#[test]
fn notification_to_fields_episode_downloaded() {
    let map = fields_of(&sample_downloaded());

    assert_eq!(field(&map, "type"), Some("episode_downloaded"));
    assert_eq!(field(&map, "anime_name"), Some("通知模块想要你测试"));
    assert_eq!(field(&map, "season"), Some("1"));
    assert_eq!(field(&map, "episode"), Some("2"));
    assert_eq!(
        field(&map, "library_path"),
        Some("/anime/通知模块想要你测试/S01/通知模块想要你测试 - 02.mp4")
    );
    assert_eq!(
        field(&map, "image_url"),
        Some("https://img.example.com/cover.jpg")
    );
    assert_eq!(field(&map, "summary"), Some("这是一个测试通知"));
    assert_eq!(field(&map, "rating"), Some("10"));
    assert_eq!(field(&map, "eps_count"), Some("2"));
    assert_eq!(
        field(&map, "message"),
        Some("通知模块想要你测试 第2集 下载完成")
    );
    // Optional fields that were None
    assert_eq!(field(&map, "name_cn"), Some(""));
    assert_eq!(field(&map, "name_original"), Some(""));
}

#[test]
fn notification_to_fields_failed() {
    let map = fields_of(&sample_failed());

    assert_eq!(field(&map, "type"), Some("failed"));
    assert_eq!(field(&map, "context"), Some("通知模块想要你测试"));
    assert_eq!(field(&map, "error"), Some("请求被拒绝：原因是测试需要"));
    assert_eq!(field(&map, "title"), Some("通知模块想要你测试"));
    assert_eq!(
        field(&map, "message"),
        Some("[失败] 通知模块想要你测试: 请求被拒绝：原因是测试需要")
    );
}

#[test]
fn render_failed_json() {
    let failed = FailedData {
        title: "测试番剧".to_string(),
        message: "连接超时".to_string(),
    };
    let t = TemplateType::Json(r#"{"dummy":"true"}"#.to_string());
    let (body, ct) = render_failed(&t, &failed);
    assert_eq!(ct, "application/json");
    assert!(body.contains(r#""title":"测试番剧""#));
    assert!(body.contains("[失败] 测试番剧: 连接超时"));
    assert!(body.contains("[失败] 测试番剧: 连接超时"));
}

#[test]
fn render_failed_form() {
    let failed = FailedData {
        title: "测试 RSS 源".to_string(),
        message: "DNS 解析失败".to_string(),
    };
    let t = TemplateType::Form("dummy=true".to_string());
    let (body, ct) = render_failed(&t, &failed);
    assert_eq!(ct, "application/x-www-form-urlencoded");
    assert!(body.starts_with("title="));
    assert!(
        body.contains("DNS+%E8%A7%A3%E6%9E%90%E5%A4%B1%E8%B4%A5"),
        "body: {body}"
    );
}

#[test]
fn resolve_empty_uses_default() {
    let t = resolve_template(None, None);
    assert!(matches!(t, TemplateType::Json(_)));
}

#[test]
fn text_without_placeholders_is_kept() {
    let t = TemplateType::Json("{\"a\":1}".to_string());
    assert_eq!(render(&t, &sample_downloaded()).0, "{\"a\":1}");
}

#[test]
fn failures_use_the_error_template() {
    let hook = resolve_webhook("http://h", None, None, Some("e={{error}}")).unwrap();
    let (body, ct) = compose(&hook, &sample_failed());
    assert_eq!(ct, "application/x-www-form-urlencoded");
    assert!(body.starts_with("e=%E8%AF%B7"));
    let (body, _) = compose(&hook, &sample_downloaded());
    assert!(body.contains("通知模块想要你测试 第2集"));
    assert_eq!(resolve_webhook("", None, None, None), None);
    assert_eq!(Preset::from_name("gotify"), Some(Preset::Gotify));
    assert_eq!(Preset::from_name("unknown"), None);
}

#[test]
fn failures_leave_no_placeholder() {
    let failed = FailedData { title: "a { b {".to_string(), message: "{c} \u{1} \"".to_string() };
    for preset in [Preset::Bark, Preset::Gotify, Preset::Serverchan] {
        let template = preset.error_template();
        let is_form = matches!(template, TemplateType::Form(_));
        assert_eq!(is_form, preset == Preset::Serverchan);
        assert_eq!(is_form, matches!(preset.template(), TemplateType::Form(_)));
        let (body, _) = render(&template, &Notification::Failed(failed.clone()));
        assert!(!body.contains("{{"), "{body}");
    }
}
