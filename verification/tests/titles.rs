use bangumi_rss::feed_id::FeedId;
use bangumi_rss::filter::{compile, reject_reason, reject_with, validate, RejectReason};
use bangumi_rss::handler::{
    episode_keys_match, file_to_episode_key, key_to_target_name, make_library_path,
    make_season_dir, path_extension, path_file_name, resolve_files,
};
use bangumi_rss::preview::{finish_preview, keyword, suggest_from_titles};
use bangumi_rss::report::{
    count_passed, entry_lines, feed_titles, join_or_dash, judge, print_filter, read_feed, suggested_name, title_lines,
    verdict_lines,
};
use bangumi_rss::single::single_from_decimal;
use bangumi_rss::tokenizer::{
    is_batch_title, parse_cn_number, parse_torrent_title, EpisodeNumber,
};
use bangumi_rss::types::{
    AnimeIdentity, BangumiInfo, EpisodeKey, EpisodeRecord, FeedFilter, RecordStatus, TorrentFile,
};

// ── Tokenizer ──

fn extract_title(raw: &str) -> Option<String> {
    parse_torrent_title(raw).and_then(|p| p.name)
}

fn extract_group(raw: &str) -> Option<String> {
    parse_torrent_title(raw).and_then(|p| p.group)
}

fn extract_season(raw: &str) -> Option<u8> {
    parse_torrent_title(raw).and_then(|p| p.season)
}

/// The episode as a single-precision number.
fn extract_episode(raw: &str) -> Option<f32> {
    parse_torrent_title(raw)
        .and_then(|p| p.episode)
        .map(|e| e.as_text().parse().unwrap())
}

#[test]
fn test_mikan_style() {
    let p = parse_torrent_title(
        "[绿茶字幕组] 葬送的芙莉莲 第二季 / Sousou no Frieren S2 [38][WebRip][1080p]",
    )
    .unwrap();
    assert_eq!(p.group.as_deref(), Some("绿茶字幕组"));
    assert!(p.name.unwrap().contains("葬送的芙莉莲"));
    assert_eq!(p.season, Some(2));
}

#[test]
fn test_subsplease_style() {
    let raw = "[SubsPlease] Oshi no Ko - 01 (1080p) [AAC].mkv";
    let p = parse_torrent_title(raw).unwrap();
    assert_eq!(p.group.as_deref(), Some("SubsPlease"));
    assert_eq!(extract_episode(raw), Some(1.0));
}

#[test]
fn test_name_without_episode_suffix() {
    let raw = "[ANi] 花织即使是转生也想打架 - 02 [1080P][Baha][WEB-DL][AAC AVC][CHT][MP4]";
    let p = parse_torrent_title(raw).unwrap();
    assert_eq!(p.group.as_deref(), Some("ANi"));
    assert_eq!(p.name.as_deref(), Some("花织即使是转生也想打架"));
    assert_eq!(extract_episode(raw), Some(2.0));
}

#[test]
fn test_mikan_fullwidth_group() {
    let p = parse_torrent_title(
        "【喵萌奶茶屋】★07月新番★[相反的你和我 / Seihantai na Kimi to Boku][13][1080p][繁日双语]",
    )
    .unwrap();
    assert_eq!(p.group.as_deref(), Some("喵萌奶茶屋"));
    assert!(p.name.as_deref().unwrap().contains("相反的你和我"));
}

#[test]
fn test_extract_title() {
    assert_eq!(
        extract_title("[ANi] 花织即使是转生也想打架 - 02 [1080P][MP4]").as_deref(),
        Some("花织即使是转生也想打架")
    );
    assert_eq!(
        extract_title("[SubsPlease] Oshi no Ko - 01 (1080p)").as_deref(),
        Some("Oshi no Ko")
    );
}

#[test]
fn test_extract_group() {
    assert_eq!(
        extract_group("[ANi] 花织即使是转生也想打架 - 02 [1080P]").as_deref(),
        Some("ANi")
    );
    assert_eq!(
        extract_group("[SubsPlease] Oshi no Ko - 01 (1080p)").as_deref(),
        Some("SubsPlease")
    );
}

#[test]
fn test_extract_episode() {
    assert_eq!(
        extract_episode("[ANi] 花织即使是转生也想打架 - 02 [1080P]"),
        Some(2.0)
    );
    assert_eq!(
        extract_episode("[SubsPlease] Oshi no Ko - 01 (1080p)"),
        Some(1.0)
    );
}

#[test]
fn test_extract_season() {
    let p = parse_torrent_title(
        "[绿茶字幕组] 葬送的芙莉莲 第二季 / Sousou no Frieren S2 [38][WebRip]",
    )
    .unwrap();
    assert_eq!(p.season, Some(2));
    assert_eq!(
        extract_season("[SomeGroup] Some Anime S3 - 05 [1080P]"),
        Some(3)
    );
}

#[test]
fn half_episodes_and_revisions() {
    let p = parse_torrent_title("[G] Show - 12.5v2 [1080p]").unwrap();
    let e = p.episode.unwrap();
    assert_eq!(e.as_text(), "12.5");
    assert_eq!(e.whole(), 12);
    assert_eq!(p.revision, Some(2));
    assert_eq!(extract_episode("[G] Show - 12.5v2 [1080p]"), Some(12.5));
}

#[test]
fn whole_episodes_agree_with_single_precision() {
    for s in [
        "0", "1", "02", "12.5", "0.1", "16777217", "16777219", "33554435",
        "123456789.987654321", "4294967295", "99999999999", "0.333333333333",
        "340282346638528859811704183484516925440", "340282366920938463463374607431768211456",
        "0.00000000000000000000000000000000000000000000140129846432481707",
    ] {
        let expected: f32 = s.parse().unwrap();
        assert_eq!(single_from_decimal(s), expected as u32, "{s}");
        assert_eq!(EpisodeNumber::read(s).whole(), expected as u32, "{s}");
    }
}

#[test]
fn chinese_numbers() {
    assert_eq!(parse_cn_number("二"), Some(2));
    assert_eq!(parse_cn_number("十"), Some(10));
    assert_eq!(parse_cn_number("3"), Some(3));
    assert_eq!(parse_cn_number("两"), Some(2));
    assert_eq!(parse_cn_number("255"), Some(255));
    assert_eq!(parse_cn_number("256"), None);
    // Numerals above ten are not read.
    assert_eq!(parse_cn_number("十二"), None);
    assert_eq!(parse_cn_number("x"), None);
}

#[test]
fn batch_titles() {
    assert!(is_batch_title("[G] Show 01-12 [1080p]"));
    assert!(!is_batch_title("[G] Show - 01 [1080p]"));
}

// ── Filter ──

fn reject(filter: &FeedFilter, title: &str) -> Option<RejectReason> {
    compile(filter).unwrap().and_then(|c| reject_reason(&c, title))
}

fn words(list: &[&str]) -> Vec<String> {
    list.iter().map(|w| w.to_string()).collect()
}

fn include_missing(word: &str) -> Option<RejectReason> {
    Some(RejectReason::IncludeMissing { word: word.to_string() })
}

fn exclude_matched(word: &str) -> Option<RejectReason> {
    Some(RejectReason::ExcludeMatched { word: word.to_string() })
}

fn regex_no_match(pattern: &str) -> Option<RejectReason> {
    Some(RejectReason::RegexNoMatch { pattern: pattern.to_string() })
}

#[test]
fn empty_filter_passes_everything() {
    let f = FeedFilter::default();
    assert_eq!(reject(&f, "[SubA] 虚构动画 - 01 [1080P].mp4"), None);
    assert_eq!(reject(&f, "anything at all"), None);
}

#[test]
fn include_words_require_all_hits() {
    let f = FeedFilter { includes: words(&["subA", "subb"]), ..Default::default() };
    assert_eq!(reject(&f, "[SubA] 虚构动画 - SubB 01 [1080P].mp4"), None);
    // First missing word in list order (lowercased).
    assert_eq!(
        reject(&f, "[SubA] 虚构动画 - 01 [1080P].mp4"),
        include_missing("subb")
    );
    assert_eq!(
        reject(&f, "[SubC] 虚构动画 - 01 [1080P].mp4"),
        include_missing("suba")
    );
}

#[test]
fn exclude_words_skip_case_insensitively() {
    let f = FeedFilter { exclude: words(&["720p", "sample"]), ..Default::default() };
    assert_eq!(reject(&f, "[SubA] 虚构动画 - 01 [1080P].mp4"), None);
    assert_eq!(
        reject(&f, "[SubA] 虚构动画 - 01 [720P].mp4"),
        exclude_matched("720p")
    );
    assert_eq!(
        reject(&f, "[SubA] 虚构动画 - 01 [1080P].SAMPLE.mp4"),
        exclude_matched("sample")
    );
    assert_eq!(
        reject(&f, "[SubA] 虚构动画 - 01 [1080P].Sample.mp4"),
        exclude_matched("sample")
    );
}

#[test]
fn regex_is_advanced_include() {
    let f = FeedFilter { regex: Some(r"(?i)^\[ANi\].*1080P".to_string()), ..Default::default() };
    assert_eq!(reject(&f, "[ANi] 虚构动画 - 01 [1080P].mp4"), None);
    assert_eq!(
        reject(&f, "[SubB] 虚构动画 - 01 [1080P].mp4"),
        regex_no_match(r"(?i)^\[ANi\].*1080P")
    );
}

#[test]
fn rules_combine_with_and() {
    let f = FeedFilter {
        includes: words(&["subA"]),
        exclude: words(&["sample"]),
        regex: Some(r"1080[Pp]".to_string()),
    };
    assert_eq!(reject(&f, "[SubA] 虚构动画 - 01 [1080P].mp4"), None);
    assert_eq!(
        reject(&f, "[SubB] 虚构动画 - 01 [1080P].mp4"),
        include_missing("suba")
    );
    assert_eq!(
        reject(&f, "[SubA] 虚构动画 - 01 SAMPLE [1080P].mp4"),
        exclude_matched("sample")
    );
    assert_eq!(
        reject(&f, "[SubA] 虚构动画 - 01 [720P].mp4"),
        regex_no_match("1080[Pp]")
    );
}

#[test]
fn reject_reason_identifies_first_trigger() {
    let f = FeedFilter {
        includes: words(&["suba", "1080p"]),
        exclude: words(&["sample"]),
        regex: Some(r"(?i)720p".to_string()),
    };
    // The whitelist fails first — first missing word in list order
    assert_eq!(
        reject(&f, "[SubB] 虚构动画 - 01 [1080P].mp4"),
        include_missing("suba")
    );
    // The blacklist carries the matched word
    assert_eq!(
        reject(&f, "[SubA] 虚构动画 - 01 SAMPLE [1080P].mp4"),
        exclude_matched("sample")
    );
    // The pattern is carried as it was written
    assert_eq!(
        reject(&f, "[SubA] 虚构动画 - 01 [1080P].mp4"),
        regex_no_match(r"(?i)720p")
    );
}

#[test]
fn invalid_regex_reports_error() {
    let f = FeedFilter { regex: Some("(".to_string()), ..Default::default() };
    assert!(compile(&f).is_err());
    assert!(validate(&f).is_err());
}

#[test]
fn validate_rejects_empty_words() {
    let f = FeedFilter { includes: words(&["  "]), ..Default::default() };
    assert!(validate(&f).is_err());

    let ok = FeedFilter { exclude: words(&["720p"]), ..Default::default() };
    assert!(validate(&ok).is_ok());
}

#[test]
fn words_are_plain_substrings_not_regex() {
    // A word containing regex metacharacters matches literally.
    let f = FeedFilter { exclude: words(&["a.b"]), ..Default::default() };
    assert_eq!(reject(&f, "[SubA] a.b 01.mp4"), exclude_matched("a.b"));
    assert_eq!(reject(&f, "[SubA] axb 01.mp4"), None);
}

#[test]
fn verdict_depends_on_the_pattern_hit() {
    let f = FeedFilter { regex: Some("x".to_string()), ..Default::default() };
    let c = compile(&f).unwrap().unwrap();
    assert_eq!(reject_with(&c, "lower", true), None);
    assert_eq!(reject_with(&c, "lower", false), regex_no_match("x"));
}

// ── File names ──

fn anime() -> AnimeIdentity {
    AnimeIdentity { name: "葬送的芙莉莲".to_string(), season: 2 }
}

fn file(name: &str) -> TorrentFile {
    TorrentFile { path: name.to_string(), name: name.to_string() }
}

fn expecting(episode: u32) -> EpisodeRecord {
    EpisodeRecord {
        infohash: "DEADBEEF".to_string(),
        torrent_url: String::new(),
        feed_id: FeedId { bits: 0 },
        key: EpisodeKey { anime: anime(), episode },
        status: RecordStatus::Downloading,
        library_path: None,
    }
}

#[test]
fn resolve_matches_episode() {
    let files = vec![
        file("[ANi] 葬送的芙莉莲 - 01 [1080P].mp4"),
        file("[ANi] 葬送的芙莉莲 - 02 [1080P].mp4"),
        file("not-a-video.txt"),
    ];
    let resolved = resolve_files(&files, &expecting(0), "/downloads", "/anime");
    assert_eq!(resolved.len(), 2);
    assert_eq!(resolved[0].key.episode, 1);
    assert_eq!(resolved[0].target_name, "葬送的芙莉莲 S02E01.mp4");
    assert_eq!(resolved[1].key.episode, 2);
    assert!(resolved[0].from.contains("/downloads/"));
    assert!(resolved[0].to.contains("/anime/葬送的芙莉莲/S02/"));
}

#[test]
fn file_to_episode_key_works() {
    let key = file_to_episode_key("[ANi] 葬送的芙莉莲 - 01 [1080P].mp4", &anime()).unwrap();
    assert_eq!(key.episode, 1);
    assert_eq!(key.anime.name, "葬送的芙莉莲");
}

#[test]
fn episode_keys_match_works() {
    let a = EpisodeKey { anime: anime(), episode: 1 };
    let b = EpisodeKey { anime: anime(), episode: 1 };
    let c = EpisodeKey { anime: anime(), episode: 2 };
    assert!(episode_keys_match(&a, &b));
    assert!(!episode_keys_match(&a, &c));
}

#[test]
fn key_to_target_name_works() {
    let key = EpisodeKey { anime: anime(), episode: 5 };
    assert_eq!(key_to_target_name(&key, "mkv"), "葬送的芙莉莲 S02E05.mkv");
}

#[test]
fn resolve_expected_episode_overrides() {
    let files = vec![file("[ANi] 葬送的芙莉莲 - 01 [1080P].mp4")];
    let resolved = resolve_files(&files, &expecting(3), "/dl", "/lib");
    assert_eq!(resolved.len(), 1);
    assert_eq!(resolved[0].key.episode, 3);
    assert!(resolved[0].target_name.contains("E03"));
}

#[test]
fn resolve_empty_files() {
    let resolved = resolve_files(&vec![], &expecting(0), "/dl", "/lib");
    assert!(resolved.is_empty());
}

#[test]
fn resolve_episode_zero_filtered() {
    let files = vec![file("[ANi] 葬送的芙莉莲 - 00 [1080P].mp4")];
    let resolved = resolve_files(&files, &expecting(0), "/dl", "/lib");
    assert!(resolved.is_empty());
}

#[test]
fn resolve_multi_file_second_uses_tokenizer() {
    let files = vec![
        file("[ANi] 葬送的芙莉莲 - 01 [1080P].mp4"),
        file("[ANi] 葬送的芙莉莲 - 05 [1080P].mp4"),
    ];
    let resolved = resolve_files(&files, &expecting(3), "/dl", "/lib");
    assert_eq!(resolved.len(), 2);
    assert_eq!(resolved[0].key.episode, 3); // overridden by expected
    assert_eq!(resolved[1].key.episode, 5); // tokenizer result
}

#[test]
fn resolved_paths_are_exact() {
    let files = vec![TorrentFile {
        path: "dir/[ANi] 葬送的芙莉莲 - 01 [1080P].mp4".to_string(),
        name: "[ANi] 葬送的芙莉莲 - 01 [1080P].mp4".to_string(),
    }];
    let resolved = resolve_files(&files, &expecting(0), "/dl", "/lib");
    assert_eq!(
        resolved[0].from,
        "/dl/00000000-0000-0000-0000-000000000000/dir/[ANi] 葬送的芙莉莲 - 01 [1080P].mp4"
    );
    assert_eq!(resolved[0].to, "/lib/葬送的芙莉莲/S02/葬送的芙莉莲 S02E01.mp4");
    assert_eq!(make_season_dir("/lib", &anime()), "/lib/葬送的芙莉莲/S02");
    assert_eq!(
        make_library_path("/lib", &EpisodeKey { anime: anime(), episode: 1 }, "x.mkv"),
        "/lib/葬送的芙莉莲/S02/x.mkv"
    );
    assert_eq!(
        key_to_target_name(&EpisodeKey { anime: anime(), episode: 100 }, "mkv"),
        "葬送的芙莉莲 S02E100.mkv"
    );
}

#[test]
fn path_parts() {
    for path in ["/a/b.mp4", "b.tar.gz", ".hidden", "/a/b/", "..", "/", "", "a/.", "a/..", "x."] {
        let p = std::path::Path::new(path);
        assert_eq!(
            path_file_name(path).as_deref(),
            p.file_name().and_then(|n| n.to_str()),
            "{path}"
        );
        assert_eq!(
            path_extension(path).as_deref(),
            p.extension().and_then(|n| n.to_str()),
            "{path}"
        );
    }
}

// ── Previews ──

#[test]
fn titles_suggest_name_season_group_and_latest_episode() {
    let titles = words(&[
        "garbage",
        "[ANi] 葬送的芙莉莲 第二季 - 03 [1080P]",
        "[ANi] 葬送的芙莉莲 第二季 - 12 [1080P]",
        "[Other] 葬送的芙莉莲 - 07 [1080P]",
    ]);
    let s = suggest_from_titles(&titles);
    assert_eq!(s.latest_episode, Some(12));
    assert_eq!(s.group.as_deref(), Some("ANi"));
    assert_eq!(keyword(&s), Some(s.name.as_str()));
    let preview = finish_preview(s, titles, None);
    assert_eq!(preview.sample_titles.len(), 4);
    assert_eq!(preview.bangumi_info, None);
    let nothing = suggest_from_titles(&vec![]);
    assert_eq!(nothing.name, "");
    assert_eq!(nothing.season, 1);
    assert_eq!(keyword(&nothing), None);
}

#[test]
fn cover_images_go_through_the_proxy() {
    let info = BangumiInfo {
        bangumi_id: 1,
        name_cn: String::new(),
        name: String::new(),
        summary: String::new(),
        eps_count: None,
        rating: None,
        score_count: None,
        air_date: String::new(),
        image_url: "https://lain.bgm.tv/a b.jpg".to_string(),
        rank: None,
        air_weekday: None,
    };
    let preview = finish_preview(suggest_from_titles(&vec![]), vec![], Some(info));
    assert_eq!(
        preview.bangumi_info.unwrap().image_url,
        "/api/bangumi/image?url=https://lain.bgm.tv/a%20b.jpg"
    );
}

// ── Reports ──

#[test]
fn filter_reports() {
    let f = FeedFilter { includes: words(&["a", "b"]), exclude: vec![], regex: None };
    assert_eq!(join_or_dash(&f.includes), "a, b");
    assert_eq!(join_or_dash(&f.exclude), "-");
    assert!(!print_filter(&f).is_empty());
    let verdicts = judge(&f, &words(&["a b", "a", "B A"])).unwrap();
    assert_eq!(count_passed(&verdicts), 2);
    assert_eq!(verdicts[1], include_missing("b"));
    assert!(!verdict_lines("a", false, &verdicts[1]).is_empty());
    assert_ne!(
        verdict_lines("a", false, &verdicts[0]),
        verdict_lines("a", false, &verdicts[1])
    );
    let broken = FeedFilter { includes: vec![], exclude: vec![], regex: Some("(".to_string()) };
    assert!(judge(&broken, &words(&["a"])).is_err());
}

#[test]
fn title_reports() {
    let raw = "[ANi] 葬送的芙莉莲 - 02 [1080P]";
    let p = parse_torrent_title(raw).unwrap();
    let lines = title_lines(raw, &p, &Some("2".to_string()));
    assert!(lines.iter().any(|l| l.contains("葬送的芙莉莲")));
    assert!(lines.iter().any(|l| l.contains("ANi")));
    assert_eq!(suggested_name(&vec![p]).as_deref(), Some("葬送的芙莉莲"));
    let feed = read_feed(
        r#"<?xml version="1.0"?><rss version="2.0"><channel><title>T</title><link>l</link><description>d</description><item><title>[A] B - 01 [1080p]</title><link>here</link></item></channel></rss>"#,
    )
    .unwrap();
    assert_eq!(feed.channel.title, "T");
    assert_eq!(feed.parsed.len(), 1);
    let lines = entry_lines(1, &feed.channel.entries[0], &feed.parsed[0], &None);
    assert!(lines.iter().any(|l| l.contains("here")));
    assert!(read_feed("nonsense").is_err());
}

#[test]
fn titles_of_a_feed() {
    let (channel, titles) = feed_titles(
        r#"<?xml version="1.0"?><rss version="2.0"><channel><title>T</title><link>l</link><description>d</description><item><title>[A] B - 01 [1080p]</title></item><item><link>here</link></item><item><title>[A] B [01-12]</title></item></channel></rss>"#,
    )
    .unwrap();
    assert_eq!(channel, "T");
    assert_eq!(
        titles,
        vec![
            ("[A] B - 01 [1080p]".to_string(), false),
            ("[A] B [01-12]".to_string(), true),
        ]
    );
    assert!(feed_titles("nonsense").is_err());
}
