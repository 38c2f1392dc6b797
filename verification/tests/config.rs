use bangumi_rss::config::{Config, ConfigError, Downloader, Var, CHANNEL_CAPACITY, HTTP_TIMEOUT_SECS};
use bangumi_rss::notify::{Preset, TemplateType};
use bangumi_rss::persistence::{
    begin_save, data_path, load_initial_state, resume_save, temporary_path, SaveStep,
};
use bangumi_rss::state::AppState;

fn vars(pairs: &[(&str, &str)]) -> Vec<Var> {
    pairs
        .iter()
        .map(|(k, v)| Var { name: k.to_string(), value: v.to_string() })
        .collect()
}

#[test]
fn all_defaults() {
    let c = Config::init_from_vars(&vars(&[])).unwrap();
    assert_eq!(c.port, 7893);
    assert!(!c.no_server);
    assert_eq!(c.data_dir, ".");
    assert!(matches!(c.downloader, Downloader::Aria2));
    assert_eq!(c.bangumi_api_base, "https://api.bgm.tv");
}

#[test]
fn overrides() {
    let c = Config::init_from_vars(&vars(&[
        ("PORT", "9999"),
        ("NO_SERVER", "true"),
        ("DOWNLOADER", "qbittorrent"),
    ]))
    .unwrap();
    assert_eq!(c.port, 9999);
    assert!(c.no_server);
    assert!(matches!(c.downloader, Downloader::Qbittorrent));
}

#[test]
fn invalid_downloader() {
    let err = Config::init_from_vars(&vars(&[("DOWNLOADER", "transmission")])).unwrap_err();
    assert!(
        err.to_text().contains("DOWNLOADER"),
        "unexpected error: {}",
        err.to_text()
    );
}

#[test]
fn optional_dir_not_set() {
    let c = Config::init_from_vars(&vars(&[])).unwrap();
    assert_eq!(c.data_dir, ".");
    assert_eq!(c.download_dir, "/downloads");
}

#[test]
fn optional_dir_set() {
    let c = Config::init_from_vars(&vars(&[
        ("DATA_DIR", "/custom/data"),
        ("DOWNLOAD_DIR", "/custom/dl"),
    ]))
    .unwrap();
    assert_eq!(c.data_dir, "/custom/data");
    assert_eq!(c.download_dir, "/custom/dl");
}

#[test]
fn documented_defaults() {
    let c = Config::init_from_vars(&vars(&[])).unwrap();
    assert_eq!(c.library_dir, "/anime");
    assert_eq!(c.rss_interval, 900);
    assert_eq!(c.poll_interval, 30);
    assert_eq!(c.aria2_rpc_url, "http://localhost:6800/jsonrpc");
    assert_eq!(c.qbittorrent_url, "http://localhost:8080");
    assert_eq!(c.transmission_rpc_url, "http://localhost:9091/transmission/rpc");
    assert_eq!(c.max_concurrency, 8);
    assert_eq!(c.torrent_concurrency, 4);
    assert_eq!(c.queue_capacity, 512);
    assert_eq!(c.max_connections, 16);
    assert_eq!(c.server().address(), "127.0.0.1:7893");
    assert_eq!(c.resolve_webhook(), Ok(None));
    assert_eq!(HTTP_TIMEOUT_SECS, 10);
    assert_eq!(CHANNEL_CAPACITY, 256);
}

#[test]
fn unreadable_variables_are_reported() {
    for (name, value) in [
        ("PORT", "65536"),
        ("PORT", "abc"),
        ("NO_SERVER", "yes"),
        ("MOCK_DOWNLOADER", "1"),
        ("RSS_INTERVAL", "-1"),
        ("POLL_INTERVAL", ""),
        ("MAX_CONCURRENCY", "x"),
        ("TORRENT_CONCURRENCY", "1.5"),
        ("QUEUE_CAPACITY", " 1"),
        ("MAX_CONNECTIONS", "4294967296"),
    ] {
        let err = Config::init_from_vars(&vars(&[(name, value)])).unwrap_err();
        assert_eq!(err.name, name);
        assert_eq!(err.to_text(), format!("Failed to parse environment variable {name}"));
    }
    // A leading plus sign is read as a number.
    assert_eq!(Config::init_from_vars(&vars(&[("PORT", "+80")])).unwrap().port, 80);
}

#[test]
fn first_variable_of_a_name_counts() {
    let c = Config::init_from_vars(&vars(&[("PORT", "1"), ("OTHER", "2"), ("PORT", "3")])).unwrap();
    assert_eq!(c.port, 1);
}

#[test]
fn webhook_settings() {
    let c = Config::init_from_vars(&vars(&[
        ("WEBHOOK_URL", "http://host/key"),
        ("WEBHOOK_FORMAT", "bark"),
    ]))
    .unwrap();
    let hook = c.resolve_webhook().unwrap().unwrap();
    assert_eq!(hook.url, "http://host/key");
    assert_eq!(hook.template, Preset::Bark.template());
    assert_eq!(hook.error_template, Some(Preset::Bark.error_template()));

    let c = Config::init_from_vars(&vars(&[
        ("WEBHOOK_URL", "http://host/key"),
        ("WEBHOOK_TEMPLATE", "a={{title}}"),
    ]))
    .unwrap();
    let hook = c.resolve_webhook().unwrap().unwrap();
    assert_eq!(hook.template, TemplateType::Form("a={{title}}".to_string()));

    let c = Config::init_from_vars(&vars(&[("WEBHOOK_FORMAT", "telegram")])).unwrap();
    assert_eq!(c.resolve_webhook(), Err(ConfigError { name: "WEBHOOK_FORMAT" }));
}

#[test]
fn downloader_names() {
    assert_eq!(Downloader::from_name("aria2"), Ok(Downloader::Aria2));
    assert_eq!(Downloader::from_name("qbittorrent"), Ok(Downloader::Qbittorrent));
    for name in ["Aria2", "transmission", ""] {
        assert_eq!(Downloader::from_name(name), Err("expected aria2 or qbittorrent"));
    }
}

#[test]
fn state_is_saved_through_a_temporary_file() {
    let written = || SaveStep::Write { path: "/data/state.tmp".to_string() };
    let replaced = || SaveStep::Replace {
        from: "/data/state.tmp".to_string(),
        to: "/data/state.json".to_string(),
    };
    assert_eq!(begin_save("/data"), written());
    assert_eq!(resume_save("/data", written(), Ok(())), replaced());
    let full = || Err("disk full".to_string());
    assert_eq!(resume_save("/data", written(), full()), SaveStep::Finished(full()));
    assert_eq!(resume_save("/data", replaced(), Ok(())), SaveStep::Finished(Ok(())));
    assert_eq!(resume_save("/data", replaced(), full()), SaveStep::Finished(full()));
}

#[test]
fn state_paths_and_directories() {
    assert_eq!(data_path("/data"), "/data/state.json");
    assert_ne!(temporary_path("/data"), data_path("/data"));
    let c = Config::init_from_vars(&vars(&[("DOWNLOAD_DIR", "/dl"), ("LIBRARY_DIR", "/lib")])).unwrap();
    let fresh = load_initial_state(None, &c);
    assert_eq!(fresh.download_dir, "/dl");
    assert_eq!(fresh.library_dir, "/lib");
    assert_eq!(fresh.feeds.len(), 0);
    let mut saved = AppState::default();
    saved.download_dir = "/old".to_string();
    saved.seen_urls.insert("u");
    let loaded = load_initial_state(Some(saved), &c);
    assert_eq!(loaded.download_dir, "/dl");
    assert!(loaded.seen_urls.contains("u"));
}
