//! Configuration from environment variables.
use vstd::prelude::*;

use crate::notify::{self, Preset, WebhookConfig, WebhookView};
use crate::text;

verus! {

/// Timeout of outbound HTTP requests, in seconds.
pub const HTTP_TIMEOUT_SECS: u64 = 10;

/// How many events, effects or downloader commands can be pending.
pub const CHANNEL_CAPACITY: usize = 256;

/// The downloaders that there are.
#[derive(Debug, Clone, Copy, PartialEq, Eq, Structural)]
pub enum Downloader {
    Aria2,
    Qbittorrent,
    Transmission,
}

/// The downloader of a name.
pub open spec fn downloader_named(name: Seq<char>) -> Option<Downloader> {
    if name == "aria2"@ {
        Some(Downloader::Aria2)
    } else if name == "qbittorrent"@ {
        Some(Downloader::Qbittorrent)
    } else {
        None
    }
}

impl Downloader {
    /// The downloader of a name; `Err` with what was expected if there is none.
    pub fn from_name(name: &str) -> (r: Result<Downloader, &'static str>)
        ensures
            match downloader_named(name@) {
                Some(downloader) => r == Ok::<Downloader, &'static str>(downloader),
                None => r is Err && r->Err_0@ == "expected aria2 or qbittorrent"@,
            },
    {
        if *name == *"aria2" {
            Ok(Downloader::Aria2)
        } else if *name == *"qbittorrent" {
            Ok(Downloader::Qbittorrent)
        } else {
            Err("expected aria2 or qbittorrent")
        }
    }
}

/// An environment variable.
#[derive(Debug, PartialEq)]
pub struct Var {
    pub name: String,
    pub value: String,
}

/// A variable whose value cannot be read.
#[derive(Debug, PartialEq)]
pub struct ConfigError {
    pub name: &'static str,
}

impl ConfigError {
    /// The error as text.
    pub fn to_text(&self) -> (r: String)
        ensures
            r@ == "Failed to parse environment variable "@ + self.name@,
    {
        text::join2("Failed to parse environment variable ", self.name)
    }
}

/// The value of the first variable of a name.
pub open spec fn value_of(vars: Seq<Var>, name: Seq<char>) -> Option<Seq<char>>
    decreases vars.len(),
{
    if vars.len() == 0 {
        None
    } else if vars[0].name@ == name {
        Some(vars[0].value@)
    } else {
        value_of(vars.skip(1), name)
    }
}

/// The value of a variable, or its default.
pub open spec fn setting(vars: Seq<Var>, name: Seq<char>, default: Seq<char>) -> Seq<char> {
    match value_of(vars, name) {
        Some(value) => value,
        None => default,
    }
}

fn read<'a>(vars: &'a Vec<Var>, name: &str, default: &'static str) -> (r: &'a str)
    ensures
        r@ == setting(vars@, name@, default@),
{
    let ghost all = vars@;
    let mut i: usize = 0;
    assert(all.skip(0) =~= all);
    while i < vars.len()
        invariant
            i <= vars@.len(),
            all == vars@,
            value_of(all, name@) == value_of(all.skip(i as int), name@),
        decreases vars@.len() - i,
    {
        if *vars[i].name.as_str() == *name {
            return vars[i].value.as_str();
        }
        assert(all.skip(i as int).skip(1) =~= all.skip(i + 1));
        i = i + 1;
    }
    default
}

/// The truth value of a text.
pub open spec fn truth(value: Seq<char>) -> Option<bool> {
    if value == "true"@ {
        Some(true)
    } else if value == "false"@ {
        Some(false)
    } else {
        None
    }
}

fn read_truth(value: &str) -> (r: Option<bool>)
    ensures
        r == truth(value@),
{
    if *value == *"true" {
        Some(true)
    } else if *value == *"false" {
        Some(false)
    } else {
        None
    }
}

/// The configuration of the application.
#[derive(Debug, PartialEq)]
pub struct Config {
    pub port: u16,
    pub no_server: bool,
    pub data_dir: String,
    pub download_dir: String,
    pub library_dir: String,
    pub downloader: Downloader,
    pub mock_downloader: bool,
    pub rss_interval: u64,
    pub poll_interval: u64,
    pub aria2_rpc_url: String,
    pub aria2_rpc_token: String,
    pub qbittorrent_url: String,
    pub qbittorrent_user: String,
    pub qbittorrent_pass: String,
    pub transmission_rpc_url: String,
    pub transmission_user: String,
    pub transmission_pass: String,
    pub bangumi_api_base: String,
    pub max_concurrency: usize,
    pub torrent_concurrency: usize,
    pub queue_capacity: usize,
    pub bind_addr: String,
    pub max_connections: u32,
    pub auth_username: String,
    pub auth_password: String,
    pub webhook_url: String,
    pub webhook_format: String,
    pub webhook_template: String,
    pub webhook_error_template: String,
}

#[verifier::ext_equal]
pub struct ConfigView {
    pub port: u16,
    pub no_server: bool,
    pub data_dir: Seq<char>,
    pub download_dir: Seq<char>,
    pub library_dir: Seq<char>,
    pub downloader: Downloader,
    pub mock_downloader: bool,
    pub rss_interval: u64,
    pub poll_interval: u64,
    pub aria2_rpc_url: Seq<char>,
    pub aria2_rpc_token: Seq<char>,
    pub qbittorrent_url: Seq<char>,
    pub qbittorrent_user: Seq<char>,
    pub qbittorrent_pass: Seq<char>,
    pub transmission_rpc_url: Seq<char>,
    pub transmission_user: Seq<char>,
    pub transmission_pass: Seq<char>,
    pub bangumi_api_base: Seq<char>,
    pub max_concurrency: usize,
    pub torrent_concurrency: usize,
    pub queue_capacity: usize,
    pub bind_addr: Seq<char>,
    pub max_connections: u32,
    pub auth_username: Seq<char>,
    pub auth_password: Seq<char>,
    pub webhook_url: Seq<char>,
    pub webhook_format: Seq<char>,
    pub webhook_template: Seq<char>,
    pub webhook_error_template: Seq<char>,
}

impl View for Config {
    type V = ConfigView;

    open spec fn view(&self) -> ConfigView {
        ConfigView {
            port: self.port,
            no_server: self.no_server,
            data_dir: self.data_dir@,
            download_dir: self.download_dir@,
            library_dir: self.library_dir@,
            downloader: self.downloader,
            mock_downloader: self.mock_downloader,
            rss_interval: self.rss_interval,
            poll_interval: self.poll_interval,
            aria2_rpc_url: self.aria2_rpc_url@,
            aria2_rpc_token: self.aria2_rpc_token@,
            qbittorrent_url: self.qbittorrent_url@,
            qbittorrent_user: self.qbittorrent_user@,
            qbittorrent_pass: self.qbittorrent_pass@,
            transmission_rpc_url: self.transmission_rpc_url@,
            transmission_user: self.transmission_user@,
            transmission_pass: self.transmission_pass@,
            bangumi_api_base: self.bangumi_api_base@,
            max_concurrency: self.max_concurrency,
            torrent_concurrency: self.torrent_concurrency,
            queue_capacity: self.queue_capacity,
            bind_addr: self.bind_addr@,
            max_connections: self.max_connections,
            auth_username: self.auth_username@,
            auth_password: self.auth_password@,
            webhook_url: self.webhook_url@,
            webhook_format: self.webhook_format@,
            webhook_template: self.webhook_template@,
            webhook_error_template: self.webhook_error_template@,
        }
    }
}

/// The number in a text, if it is at most `max`.
pub open spec fn number(value: Seq<char>, max: nat) -> Option<nat> {
    text::parsed_uint(value, max)
}

/// The first variable whose value cannot be read.
pub open spec fn first_invalid(vars: Seq<Var>) -> Option<Seq<char>> {
    if number(setting(vars, "PORT"@, "7893"@), u16::MAX as nat) is None {
        Some("PORT"@)
    } else if truth(setting(vars, "NO_SERVER"@, "false"@)) is None {
        Some("NO_SERVER"@)
    } else if downloader_named(setting(vars, "DOWNLOADER"@, "aria2"@)) is None {
        Some("DOWNLOADER"@)
    } else if truth(setting(vars, "MOCK_DOWNLOADER"@, "false"@)) is None {
        Some("MOCK_DOWNLOADER"@)
    } else if number(setting(vars, "RSS_INTERVAL"@, "900"@), u64::MAX as nat) is None {
        Some("RSS_INTERVAL"@)
    } else if number(setting(vars, "POLL_INTERVAL"@, "30"@), u64::MAX as nat) is None {
        Some("POLL_INTERVAL"@)
    } else if number(setting(vars, "MAX_CONCURRENCY"@, "8"@), usize::MAX as nat) is None {
        Some("MAX_CONCURRENCY"@)
    } else if number(setting(vars, "TORRENT_CONCURRENCY"@, "4"@), usize::MAX as nat) is None {
        Some("TORRENT_CONCURRENCY"@)
    } else if number(setting(vars, "QUEUE_CAPACITY"@, "512"@), usize::MAX as nat) is None {
        Some("QUEUE_CAPACITY"@)
    } else if number(setting(vars, "MAX_CONNECTIONS"@, "16"@), u32::MAX as nat) is None {
        Some("MAX_CONNECTIONS"@)
    } else {
        None
    }
}

/// The configuration that variables give.
pub open spec fn config_of(vars: Seq<Var>) -> ConfigView {
    ConfigView {
        port: number(setting(vars, "PORT"@, "7893"@), u16::MAX as nat)->Some_0 as u16,
        no_server: truth(setting(vars, "NO_SERVER"@, "false"@))->Some_0,
        data_dir: setting(vars, "DATA_DIR"@, "."@),
        download_dir: setting(vars, "DOWNLOAD_DIR"@, "/downloads"@),
        library_dir: setting(vars, "LIBRARY_DIR"@, "/anime"@),
        downloader: downloader_named(setting(vars, "DOWNLOADER"@, "aria2"@))->Some_0,
        mock_downloader: truth(setting(vars, "MOCK_DOWNLOADER"@, "false"@))->Some_0,
        rss_interval: number(
            setting(vars, "RSS_INTERVAL"@, "900"@),
            u64::MAX as nat,
        )->Some_0 as u64,
        poll_interval: number(
            setting(vars, "POLL_INTERVAL"@, "30"@),
            u64::MAX as nat,
        )->Some_0 as u64,
        aria2_rpc_url: setting(vars, "ARIA2_RPC_URL"@, "http://localhost:6800/jsonrpc"@),
        aria2_rpc_token: setting(vars, "ARIA2_RPC_TOKEN"@, ""@),
        qbittorrent_url: setting(vars, "QBITTORRENT_URL"@, "http://localhost:8080"@),
        qbittorrent_user: setting(vars, "QBITTORRENT_USER"@, "admin"@),
        qbittorrent_pass: setting(vars, "QBITTORRENT_PASS"@, "adminadmin"@),
        transmission_rpc_url: setting(
            vars,
            "TRANSMISSION_RPC_URL"@,
            "http://localhost:9091/transmission/rpc"@,
        ),
        transmission_user: setting(vars, "TRANSMISSION_USER"@, ""@),
        transmission_pass: setting(vars, "TRANSMISSION_PASS"@, ""@),
        bangumi_api_base: setting(vars, "BANGUMI_API_BASE"@, "https://api.bgm.tv"@),
        max_concurrency: number(
            setting(vars, "MAX_CONCURRENCY"@, "8"@),
            usize::MAX as nat,
        )->Some_0 as usize,
        torrent_concurrency: number(
            setting(vars, "TORRENT_CONCURRENCY"@, "4"@),
            usize::MAX as nat,
        )->Some_0 as usize,
        queue_capacity: number(
            setting(vars, "QUEUE_CAPACITY"@, "512"@),
            usize::MAX as nat,
        )->Some_0 as usize,
        bind_addr: setting(vars, "BIND_ADDR"@, "127.0.0.1"@),
        max_connections: number(
            setting(vars, "MAX_CONNECTIONS"@, "16"@),
            u32::MAX as nat,
        )->Some_0 as u32,
        auth_username: setting(vars, "AUTH_USERNAME"@, ""@),
        auth_password: setting(vars, "AUTH_PASSWORD"@, ""@),
        webhook_url: setting(vars, "WEBHOOK_URL"@, ""@),
        webhook_format: setting(vars, "WEBHOOK_FORMAT"@, ""@),
        webhook_template: setting(vars, "WEBHOOK_TEMPLATE"@, ""@),
        webhook_error_template: setting(vars, "WEBHOOK_ERROR_TEMPLATE"@, ""@),
    }
}

fn read_number(vars: &Vec<Var>, name: &'static str, default: &'static str, max: u64) -> (r: Result<
    u64,
    ConfigError,
>)
    ensures
        match r {
            Ok(n) => number(setting(vars@, name@, default@), max as nat) == Some(n as nat),
            Err(e) => number(setting(vars@, name@, default@), max as nat) is None && e.name@
                == name@,
        },
{
    match text::parse_uint(read(vars, name, default), max) {
        Some(n) => Ok(n),
        None => Err(ConfigError { name }),
    }
}

fn read_switch(vars: &Vec<Var>, name: &'static str) -> (r: Result<bool, ConfigError>)
    ensures
        match r {
            Ok(b) => truth(setting(vars@, name@, "false"@)) == Some(b),
            Err(e) => truth(setting(vars@, name@, "false"@)) is None && e.name@ == name@,
        },
{
    match read_truth(read(vars, name, "false")) {
        Some(b) => Ok(b),
        None => Err(ConfigError { name }),
    }
}

fn read_text(vars: &Vec<Var>, name: &'static str, default: &'static str) -> (r: String)
    ensures
        r@ == setting(vars@, name@, default@),
{
    read(vars, name, default).to_owned()
}

impl Config {
    /// Reads the configuration from environment variables. A variable that is not set has its
    /// default; the first variable that cannot be read is reported.
    pub fn init_from_vars(vars: &Vec<Var>) -> (r: Result<Config, ConfigError>)
        ensures
            match r {
                Ok(c) => first_invalid(vars@) is None && c@ == config_of(vars@),
                Err(e) => first_invalid(vars@) == Some(e.name@),
            },
    {
        let port: u16 = match read_number(vars, "PORT", "7893", 65535) {
            Ok(n) => n as u16,
            Err(e) => {
                return Err(e);
            },
        };
        let no_server = match read_switch(vars, "NO_SERVER") {
            Ok(b) => b,
            Err(e) => {
                return Err(e);
            },
        };
        let downloader = match Downloader::from_name(read(vars, "DOWNLOADER", "aria2")) {
            Ok(d) => d,
            Err(_) => {
                return Err(ConfigError { name: "DOWNLOADER" });
            },
        };
        let mock_downloader = match read_switch(vars, "MOCK_DOWNLOADER") {
            Ok(b) => b,
            Err(e) => {
                return Err(e);
            },
        };
        let rss_interval: u64 = match read_number(vars, "RSS_INTERVAL", "900", u64::MAX) {
            Ok(n) => n,
            Err(e) => {
                return Err(e);
            },
        };
        let poll_interval: u64 = match read_number(vars, "POLL_INTERVAL", "30", u64::MAX) {
            Ok(n) => n,
            Err(e) => {
                return Err(e);
            },
        };
        let most: u64 = usize::MAX as u64;
        let max_concurrency: usize = match read_number(vars, "MAX_CONCURRENCY", "8", most) {
            Ok(n) => n as usize,
            Err(e) => {
                return Err(e);
            },
        };
        let torrent_concurrency: usize = match read_number(
            vars,
            "TORRENT_CONCURRENCY",
            "4",
            most,
        ) {
            Ok(n) => n as usize,
            Err(e) => {
                return Err(e);
            },
        };
        let queue_capacity: usize = match read_number(vars, "QUEUE_CAPACITY", "512", most) {
            Ok(n) => n as usize,
            Err(e) => {
                return Err(e);
            },
        };
        let max_connections: u32 = match read_number(vars, "MAX_CONNECTIONS", "16", 4294967295) {
            Ok(n) => n as u32,
            Err(e) => {
                return Err(e);
            },
        };
        Ok(
            Config {
                port,
                no_server,
                data_dir: read_text(vars, "DATA_DIR", "."),
                download_dir: read_text(vars, "DOWNLOAD_DIR", "/downloads"),
                library_dir: read_text(vars, "LIBRARY_DIR", "/anime"),
                downloader,
                mock_downloader,
                rss_interval,
                poll_interval,
                aria2_rpc_url: read_text(vars, "ARIA2_RPC_URL", "http://localhost:6800/jsonrpc"),
                aria2_rpc_token: read_text(vars, "ARIA2_RPC_TOKEN", ""),
                qbittorrent_url: read_text(vars, "QBITTORRENT_URL", "http://localhost:8080"),
                qbittorrent_user: read_text(vars, "QBITTORRENT_USER", "admin"),
                qbittorrent_pass: read_text(vars, "QBITTORRENT_PASS", "adminadmin"),
                transmission_rpc_url: read_text(
                    vars,
                    "TRANSMISSION_RPC_URL",
                    "http://localhost:9091/transmission/rpc",
                ),
                transmission_user: read_text(vars, "TRANSMISSION_USER", ""),
                transmission_pass: read_text(vars, "TRANSMISSION_PASS", ""),
                bangumi_api_base: read_text(vars, "BANGUMI_API_BASE", "https://api.bgm.tv"),
                max_concurrency,
                torrent_concurrency,
                queue_capacity,
                bind_addr: read_text(vars, "BIND_ADDR", "127.0.0.1"),
                max_connections,
                auth_username: read_text(vars, "AUTH_USERNAME", ""),
                auth_password: read_text(vars, "AUTH_PASSWORD", ""),
                webhook_url: read_text(vars, "WEBHOOK_URL", ""),
                webhook_format: read_text(vars, "WEBHOOK_FORMAT", ""),
                webhook_template: read_text(vars, "WEBHOOK_TEMPLATE", ""),
                webhook_error_template: read_text(vars, "WEBHOOK_ERROR_TEMPLATE", ""),
            },
        )
    }

    /// The webhook that the configuration describes: none without a URL. A format that is not the
    /// name of a preset is an error.
    pub fn resolve_webhook(&self) -> (r: Result<Option<WebhookConfig>, ConfigError>)
        ensures
            match r {
                Ok(hook) => webhook_view(hook) == webhook_of(self@) && valid_format(self@),
                Err(e) => !valid_format(self@) && e.name@ == "WEBHOOK_FORMAT"@,
            },
    {
        let preset = if self.webhook_format.as_str().is_empty() {
            None
        } else {
            match Preset::from_name(&self.webhook_format) {
                Some(p) => Some(p),
                None => {
                    return Err(ConfigError { name: "WEBHOOK_FORMAT" });
                },
            }
        };
        let template = given(&self.webhook_template);
        let error_template = given(&self.webhook_error_template);
        Ok(notify::resolve_webhook(&self.webhook_url, preset, template, error_template))
    }

    /// The settings of the HTTP server.
    pub fn server(&self) -> (r: ServerConfig)
        ensures
            r@ == (ServerConfigView {
                bind_addr: self@.bind_addr,
                port: self@.port,
                max_connections: self@.max_connections,
                auth_username: self@.auth_username,
                auth_password: self@.auth_password,
            }),
    {
        ServerConfig {
            bind_addr: self.bind_addr.clone(),
            port: self.port,
            max_connections: self.max_connections,
            auth_username: self.auth_username.clone(),
            auth_password: self.auth_password.clone(),
        }
    }
}

fn given(value: &String) -> (r: Option<&str>)
    ensures
        text::opt_str(r) == if_given(value@),
{
    if value.as_str().is_empty() {
        None
    } else {
        Some(value.as_str())
    }
}

/// A value that is not empty.
pub open spec fn if_given(value: Seq<char>) -> Option<Seq<char>> {
    if value.len() == 0 {
        None
    } else {
        Some(value)
    }
}

/// Whether the webhook format is empty or names a preset.
pub open spec fn valid_format(c: ConfigView) -> bool {
    c.webhook_format.len() == 0 || notify::preset_named(c.webhook_format) is Some
}

/// The view of an optional webhook.
pub open spec fn webhook_view(hook: Option<WebhookConfig>) -> Option<WebhookView> {
    match hook {
        Some(h) => Some(h@),
        None => None,
    }
}

/// The webhook that a configuration describes.
pub open spec fn webhook_of(c: ConfigView) -> Option<WebhookView> {
    let preset = if c.webhook_format.len() == 0 {
        None
    } else {
        notify::preset_named(c.webhook_format)
    };
    if c.webhook_url.len() == 0 {
        None
    } else {
        Some(
            WebhookView {
                url: c.webhook_url,
                template: notify::main_template(preset, if_given(c.webhook_template)),
                error_template: notify::failure_template(
                    preset,
                    if_given(c.webhook_error_template),
                ),
            },
        )
    }
}

/// Settings of the HTTP server.
#[derive(Debug, PartialEq)]
pub struct ServerConfig {
    pub bind_addr: String,
    pub port: u16,
    pub max_connections: u32,
    pub auth_username: String,
    pub auth_password: String,
}

#[verifier::ext_equal]
pub struct ServerConfigView {
    pub bind_addr: Seq<char>,
    pub port: u16,
    pub max_connections: u32,
    pub auth_username: Seq<char>,
    pub auth_password: Seq<char>,
}

impl View for ServerConfig {
    type V = ServerConfigView;

    open spec fn view(&self) -> ServerConfigView {
        ServerConfigView {
            bind_addr: self.bind_addr@,
            port: self.port,
            max_connections: self.max_connections,
            auth_username: self.auth_username@,
            auth_password: self.auth_password@,
        }
    }
}

impl ServerConfig {
    /// The address to listen on.
    pub fn address(&self) -> (r: String)
        ensures
            r@ == self@.bind_addr + ":"@ + text::decimal(self@.port as nat),
    {
        let mut out = text::join2(&self.bind_addr, ":");
        out.append(&text::decimal_text(self.port as u64));
        out
    }
}

// ── Laws ──

/// A variable of another name does not change a setting, and one behind another of the same name
/// does not either.
pub proof fn law_first_variable_counts(vars: Seq<Var>, extra: Var, name: Seq<char>)
    requires
        extra.name@ != name || value_of(vars, name) is Some,
    ensures
        value_of(vars.push(extra), name) == value_of(vars, name),
        forall|default: Seq<char>|
            setting(vars.push(extra), name, default) == #[trigger] setting(vars, name, default),
    decreases vars.len(),
{
    let more = vars.push(extra);
    if vars.len() == 0 {
        assert(more.skip(1) =~= Seq::<Var>::empty());
        assert(value_of(more.skip(1), name) is None);
    } else {
        assert(more.skip(1) =~= vars.skip(1).push(extra));
        if vars[0].name@ != name {
            law_first_variable_counts(vars.skip(1), extra, name);
        }
    }
}

/// A setting of text is the value of its variable, or its default where the variable is not set.
pub open spec fn is_set(vars: Seq<Var>, name: Seq<char>, default: Seq<char>, value: Seq<char>) -> bool {
    ||| is_first(vars, name, value)
    ||| value == default && forall|i: int| 0 <= i < vars.len() ==> (#[trigger] vars[i]).name@ != name
}

/// `value` is that of the first variable with this name.
pub open spec fn is_first(vars: Seq<Var>, name: Seq<char>, value: Seq<char>) -> bool {
    exists|i: int|
        0 <= i < vars.len() && (#[trigger] vars[i]).name@ == name && vars[i].value@ == value
            && forall|j: int| 0 <= j < i ==> (#[trigger] vars[j]).name@ != name
}

proof fn lemma_setting(vars: Seq<Var>, name: Seq<char>, default: Seq<char>)
    ensures
        is_set(vars, name, default, setting(vars, name, default)),
{
    lemma_value(vars, name);
}

proof fn lemma_value(vars: Seq<Var>, name: Seq<char>)
    ensures
        value_of(vars, name) matches Some(value) ==> is_first(vars, name, value),
        value_of(vars, name) is None ==> forall|i: int|
            0 <= i < vars.len() ==> (#[trigger] vars[i]).name@ != name,
    decreases vars.len(),
{
    if vars.len() > 0 {
        let rest = vars.skip(1);
        assert forall|i: int| 0 <= i < rest.len() implies #[trigger] rest[i] == vars[i + 1] by {
        }
        lemma_value(rest, name);
        if vars[0].name@ == name {
            assert(is_first(vars, name, vars[0].value@));
        } else {
            if let Some(value) = value_of(rest, name) {
                let i = choose|i: int|
                    0 <= i < rest.len() && (#[trigger] rest[i]).name@ == name && rest[i].value@
                        == value && forall|j: int|
                        0 <= j < i ==> (#[trigger] rest[j]).name@ != name;
                assert(vars[i + 1].name@ == name && vars[i + 1].value@ == value);
                assert forall|j: int| 0 <= j < i + 1 implies (#[trigger] vars[j]).name@
                    != name by {
                    if j > 0 {
                        assert(rest[j - 1] == vars[j]);
                    }
                }
            } else {
                assert forall|i: int| 0 <= i < vars.len() implies (#[trigger] vars[i]).name@
                    != name by {
                    if i > 0 {
                        assert(rest[i - 1] == vars[i]);
                    }
                }
            }
        }
    }
}

/// Every setting of text comes from its own variable, and is its own default where that is not
/// set.
pub proof fn law_texts_come_from_their_variables(vars: Seq<Var>)
    ensures
        is_set(vars, "DATA_DIR"@, "."@, config_of(vars).data_dir),
        is_set(vars, "DOWNLOAD_DIR"@, "/downloads"@, config_of(vars).download_dir),
        is_set(vars, "LIBRARY_DIR"@, "/anime"@, config_of(vars).library_dir),
        is_set(vars, "ARIA2_RPC_URL"@, "http://localhost:6800/jsonrpc"@, config_of(vars).aria2_rpc_url),
        is_set(vars, "ARIA2_RPC_TOKEN"@, ""@, config_of(vars).aria2_rpc_token),
        is_set(vars, "QBITTORRENT_URL"@, "http://localhost:8080"@, config_of(vars).qbittorrent_url),
        is_set(vars, "QBITTORRENT_USER"@, "admin"@, config_of(vars).qbittorrent_user),
        is_set(vars, "QBITTORRENT_PASS"@, "adminadmin"@, config_of(vars).qbittorrent_pass),
        is_set(vars, "TRANSMISSION_RPC_URL"@, "http://localhost:9091/transmission/rpc"@, config_of(vars).transmission_rpc_url),
        is_set(vars, "TRANSMISSION_USER"@, ""@, config_of(vars).transmission_user),
        is_set(vars, "TRANSMISSION_PASS"@, ""@, config_of(vars).transmission_pass),
        is_set(vars, "BANGUMI_API_BASE"@, "https://api.bgm.tv"@, config_of(vars).bangumi_api_base),
        is_set(vars, "BIND_ADDR"@, "127.0.0.1"@, config_of(vars).bind_addr),
        is_set(vars, "AUTH_USERNAME"@, ""@, config_of(vars).auth_username),
        is_set(vars, "AUTH_PASSWORD"@, ""@, config_of(vars).auth_password),
        is_set(vars, "WEBHOOK_URL"@, ""@, config_of(vars).webhook_url),
        is_set(vars, "WEBHOOK_FORMAT"@, ""@, config_of(vars).webhook_format),
        is_set(vars, "WEBHOOK_TEMPLATE"@, ""@, config_of(vars).webhook_template),
        is_set(vars, "WEBHOOK_ERROR_TEMPLATE"@, ""@, config_of(vars).webhook_error_template),
{
    lemma_setting(vars, "DATA_DIR"@, "."@);
    lemma_setting(vars, "DOWNLOAD_DIR"@, "/downloads"@);
    lemma_setting(vars, "LIBRARY_DIR"@, "/anime"@);
    lemma_setting(vars, "ARIA2_RPC_URL"@, "http://localhost:6800/jsonrpc"@);
    lemma_setting(vars, "ARIA2_RPC_TOKEN"@, ""@);
    lemma_setting(vars, "QBITTORRENT_URL"@, "http://localhost:8080"@);
    lemma_setting(vars, "QBITTORRENT_USER"@, "admin"@);
    lemma_setting(vars, "QBITTORRENT_PASS"@, "adminadmin"@);
    lemma_setting(vars, "TRANSMISSION_RPC_URL"@, "http://localhost:9091/transmission/rpc"@);
    lemma_setting(vars, "TRANSMISSION_USER"@, ""@);
    lemma_setting(vars, "TRANSMISSION_PASS"@, ""@);
    lemma_setting(vars, "BANGUMI_API_BASE"@, "https://api.bgm.tv"@);
    lemma_setting(vars, "BIND_ADDR"@, "127.0.0.1"@);
    lemma_setting(vars, "AUTH_USERNAME"@, ""@);
    lemma_setting(vars, "AUTH_PASSWORD"@, ""@);
    lemma_setting(vars, "WEBHOOK_URL"@, ""@);
    lemma_setting(vars, "WEBHOOK_FORMAT"@, ""@);
    lemma_setting(vars, "WEBHOOK_TEMPLATE"@, ""@);
    lemma_setting(vars, "WEBHOOK_ERROR_TEMPLATE"@, ""@);
}

/// A setting in digits is the number that its variable says, or its default says where the
/// variable is not set.
pub open spec fn is_number_set(vars: Seq<Var>, name: Seq<char>, default: Seq<char>, n: nat) -> bool {
    exists|value: Seq<char>|
        #[trigger] is_set(vars, name, default, value) && text::parsed_uint(value, u64::MAX as nat)
            == Some(n)
}

proof fn lemma_number(vars: Seq<Var>, name: Seq<char>, default: Seq<char>, max: nat)
    requires
        number(setting(vars, name, default), max) is Some,
        max <= u64::MAX,
    ensures
        is_number_set(vars, name, default, number(setting(vars, name, default), max)->0),
        number(setting(vars, name, default), max)->0 <= max,
{
    lemma_setting(vars, name, default);
    let value = setting(vars, name, default);
    assert(text::parsed_uint(value, u64::MAX as nat) == text::parsed_uint(value, max));
}

/// Where every variable can be read, each number comes from its own variable, and is its own
/// default where that is not set.
pub proof fn law_numbers_come_from_their_variables(vars: Seq<Var>)
    requires
        first_invalid(vars) is None,
    ensures
        is_number_set(vars, "PORT"@, "7893"@, config_of(vars).port as nat),
        is_number_set(vars, "RSS_INTERVAL"@, "900"@, config_of(vars).rss_interval as nat),
        is_number_set(vars, "POLL_INTERVAL"@, "30"@, config_of(vars).poll_interval as nat),
        is_number_set(vars, "MAX_CONCURRENCY"@, "8"@, config_of(vars).max_concurrency as nat),
        is_number_set(vars, "TORRENT_CONCURRENCY"@, "4"@, config_of(vars).torrent_concurrency as nat),
        is_number_set(vars, "QUEUE_CAPACITY"@, "512"@, config_of(vars).queue_capacity as nat),
        is_number_set(vars, "MAX_CONNECTIONS"@, "16"@, config_of(vars).max_connections as nat),
{
    lemma_number(vars, "PORT"@, "7893"@, u16::MAX as nat);
    lemma_number(vars, "RSS_INTERVAL"@, "900"@, u64::MAX as nat);
    lemma_number(vars, "POLL_INTERVAL"@, "30"@, u64::MAX as nat);
    lemma_number(vars, "MAX_CONCURRENCY"@, "8"@, usize::MAX as nat);
    lemma_number(vars, "TORRENT_CONCURRENCY"@, "4"@, usize::MAX as nat);
    lemma_number(vars, "QUEUE_CAPACITY"@, "512"@, usize::MAX as nat);
    lemma_number(vars, "MAX_CONNECTIONS"@, "16"@, u32::MAX as nat);
}

/// Where every variable can be read, the switches and the downloader are those that their
/// variables name: both switches are off and the downloader is aria2 unless they say otherwise.
pub proof fn law_choices_come_from_their_variables(vars: Seq<Var>)
    requires
        first_invalid(vars) is None,
    ensures
        ({
            let c = config_of(vars);
            &&& c.no_server ==> is_first(vars, "NO_SERVER"@, "true"@)
            &&& !c.no_server ==> is_set(vars, "NO_SERVER"@, "false"@, "false"@)
            &&& c.mock_downloader ==> is_first(vars, "MOCK_DOWNLOADER"@, "true"@)
            &&& !c.mock_downloader ==> is_set(vars, "MOCK_DOWNLOADER"@, "false"@, "false"@)
            &&& c.downloader == Downloader::Aria2 ==> is_set(
                vars,
                "DOWNLOADER"@,
                "aria2"@,
                "aria2"@,
            )
            &&& c.downloader == Downloader::Qbittorrent ==> is_first(
                vars,
                "DOWNLOADER"@,
                "qbittorrent"@,
            )
        }),
{
    lemma_setting(vars, "NO_SERVER"@, "false"@);
    lemma_setting(vars, "MOCK_DOWNLOADER"@, "false"@);
    lemma_setting(vars, "DOWNLOADER"@, "aria2"@);
    reveal_strlit("true");
    reveal_strlit("false");
    reveal_strlit("aria2");
    reveal_strlit("qbittorrent");
    assert("true"@.len() != "false"@.len());
    assert("aria2"@.len() != "qbittorrent"@.len());
}

} // verus!
