//! Verified core of an RSS-driven anime downloader.

pub mod auth;
pub mod bangumi;
pub mod config;
pub mod dl_command;
pub mod downloader;
pub mod effect;
pub mod encode;
pub mod event;
pub mod executor;
pub mod feed_id;
pub mod fetch;
pub mod files;
pub mod filter;
pub mod handle;
pub mod handler;
pub mod http_code;
pub mod json;
pub mod logic;
pub mod logic_laws;
pub mod nesting;
pub mod notify;
pub mod pattern;
pub mod persistence;
pub mod preview;
pub mod problem_type;
pub mod range;
pub mod report;
pub mod response;
pub mod routes;
pub mod rss;
pub mod semaphore;
pub mod single;
pub mod state;
pub mod stream;
pub mod tables;
pub mod task_pool;
pub mod text;
pub mod timer;
pub mod tokenizer;
pub mod types;
