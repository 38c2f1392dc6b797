//! Torrent downloaders: what they are asked to do, and the calls that it takes.
//!
//! A downloader never does I/O itself. Each operation is a sequence of HTTP calls: `start` gives
//! the first call, `advance` takes the reply to a call and gives the next one or the result.
use vstd::prelude::*;

use crate::config::{Config, Downloader};
use crate::downloader::aria2::Aria2Downloader;
use crate::downloader::mock::MockDownloader;
use crate::downloader::qbittorrent::QbittorrentDownloader;
use crate::downloader::transmission::TransmissionDownloader;
use crate::event;
use crate::handler;
use crate::json::{self, Json, JsonView};
use crate::response::{self, Header};
use crate::text;
use crate::types::{
    CompletedDownload, DownloadSnapshot, DownloadSnapshotView, Number, TorrentFile,
    TorrentFileView,
};

pub mod aria2;
pub mod mock;
pub mod qbittorrent;
pub mod transmission;

verus! {

/// Result of an operation that a downloader may not support. `Unsupported` tells the caller to
/// fall back to an alternative.
#[derive(Debug, Clone, Copy, PartialEq, Eq, Structural)]
pub enum OpResult {
    Done,
    Unsupported,
}

/// An operation of a downloader.
#[allow(inconsistent_fields)]
#[derive(Debug, PartialEq)]
pub enum Op {
    /// Add a torrent by URI (magnet or HTTP URL). Gives its infohash.
    AddUri { uri: String, dir: String },
    /// Add a torrent from the bytes of a `.torrent` file. Gives its infohash.
    AddTorrentBytes { data: Vec<u8>, dir: String },
    /// List the files of a download.
    ListFiles { infohash: String },
    /// Rename a file of a download; the new name is its last component alone.
    RenameFile { infohash: String, old_path: String, new_name: String },
    /// Move all files of a download to another directory.
    MoveFiles { infohash: String, new_location: String },
    /// Pause a download.
    Pause { infohash: String },
    /// Resume a paused download.
    Resume { infohash: String },
    /// Remove a download, with or without its files.
    Remove { infohash: String, delete_files: bool },
    /// Poll for completed downloads.
    PollCompleted,
    /// Poll for failed downloads.
    PollFailed,
    /// Query all current tasks.
    QueryAll,
    /// Check that the downloader can be reached and takes the credentials.
    CheckConnection,
}

#[allow(inconsistent_fields)]
#[verifier::ext_equal]
pub enum OpView {
    AddUri { uri: Seq<char>, dir: Seq<char> },
    AddTorrentBytes { data: Seq<u8>, dir: Seq<char> },
    ListFiles { infohash: Seq<char> },
    RenameFile { infohash: Seq<char>, old_path: Seq<char>, new_name: Seq<char> },
    MoveFiles { infohash: Seq<char>, new_location: Seq<char> },
    Pause { infohash: Seq<char> },
    Resume { infohash: Seq<char> },
    Remove { infohash: Seq<char>, delete_files: bool },
    PollCompleted,
    PollFailed,
    QueryAll,
    CheckConnection,
}

impl View for Op {
    type V = OpView;

    open spec fn view(&self) -> OpView {
        match self {
            Op::AddUri { uri, dir } => OpView::AddUri { uri: uri@, dir: dir@ },
            Op::AddTorrentBytes { data, dir } => OpView::AddTorrentBytes {
                data: data@,
                dir: dir@,
            },
            Op::ListFiles { infohash } => OpView::ListFiles { infohash: infohash@ },
            Op::RenameFile { infohash, old_path, new_name } => OpView::RenameFile {
                infohash: infohash@,
                old_path: old_path@,
                new_name: new_name@,
            },
            Op::MoveFiles { infohash, new_location } => OpView::MoveFiles {
                infohash: infohash@,
                new_location: new_location@,
            },
            Op::Pause { infohash } => OpView::Pause { infohash: infohash@ },
            Op::Resume { infohash } => OpView::Resume { infohash: infohash@ },
            Op::Remove { infohash, delete_files } => OpView::Remove {
                infohash: infohash@,
                delete_files: *delete_files,
            },
            Op::PollCompleted => OpView::PollCompleted,
            Op::PollFailed => OpView::PollFailed,
            Op::QueryAll => OpView::QueryAll,
            Op::CheckConnection => OpView::CheckConnection,
        }
    }
}

/// What an operation gave.
#[derive(Debug, PartialEq)]
pub enum Answer {
    Infohash(String),
    Files(Vec<TorrentFile>),
    Changed(OpResult),
    Done,
    Tasks(Vec<CompletedDownload>),
    Snapshots(Vec<DownloadSnapshot>),
}

#[verifier::ext_equal]
pub enum AnswerView {
    Infohash(Seq<char>),
    Files(Seq<TorrentFileView>),
    Changed(OpResult),
    Done,
    Tasks(Seq<Seq<char>>),
    Snapshots(Seq<DownloadSnapshotView>),
}

/// The infohashes of tasks.
pub open spec fn task_views(tasks: Seq<CompletedDownload>) -> Seq<Seq<char>> {
    Seq::new(tasks.len(), |i: int| tasks[i].infohash@)
}

impl View for Answer {
    type V = AnswerView;

    open spec fn view(&self) -> AnswerView {
        match self {
            Answer::Infohash(h) => AnswerView::Infohash(h@),
            Answer::Files(files) => AnswerView::Files(handler::file_views(files@)),
            Answer::Changed(result) => AnswerView::Changed(*result),
            Answer::Done => AnswerView::Done,
            Answer::Tasks(tasks) => AnswerView::Tasks(task_views(tasks@)),
            Answer::Snapshots(list) => AnswerView::Snapshots(event::snapshot_views(list@)),
        }
    }
}

/// What an HTTP request carries.
#[derive(Debug, PartialEq)]
pub enum Payload {
    Nothing,
    Json(Json),
    Text(String),
    Bytes(Vec<u8>),
}

#[verifier::ext_equal]
pub enum PayloadView {
    Nothing,
    Json(JsonView),
    Text(Seq<char>),
    Bytes(Seq<u8>),
}

impl View for Payload {
    type V = PayloadView;

    open spec fn view(&self) -> PayloadView {
        match self {
            Payload::Nothing => PayloadView::Nothing,
            Payload::Json(v) => PayloadView::Json(v@),
            Payload::Text(t) => PayloadView::Text(t@),
            Payload::Bytes(b) => PayloadView::Bytes(b@),
        }
    }
}

/// An HTTP request to a downloader. `wait_ms` is waited for before it is sent.
#[derive(Debug, PartialEq)]
pub struct Call {
    pub wait_ms: u64,
    /// `POST`, otherwise `GET`.
    pub post: bool,
    pub url: String,
    pub headers: Vec<Header>,
    pub body: Payload,
}

#[verifier::ext_equal]
pub struct CallView {
    pub wait_ms: u64,
    pub post: bool,
    pub url: Seq<char>,
    pub headers: Seq<(Seq<char>, Seq<char>)>,
    pub body: PayloadView,
}

impl View for Call {
    type V = CallView;

    open spec fn view(&self) -> CallView {
        CallView {
            wait_ms: self.wait_ms,
            post: self.post,
            url: self.url@,
            headers: response::header_views(self.headers@),
            body: self.body@,
        }
    }
}

/// What came back from an HTTP request.
#[allow(inconsistent_fields)]
#[derive(Debug, PartialEq)]
pub enum HttpReply {
    /// No answer, or one with an error status.
    Failed {
        status: Option<u16>,
        /// The `X-Transmission-Session-Id` header.
        session_id: Option<String>,
        error: String,
    },
    /// An answer: its status, its text, and the JSON value of the text.
    Answered { status: u16, body: String, value: Result<Json, String> },
}

/// The next thing to do for an operation: a call, or nothing more than to take the result.
pub enum Next<S> {
    Call { call: Call, stage: S },
    Done(Result<Answer, String>),
}

#[verifier::ext_equal]
pub enum NextView<V> {
    Call { call: CallView, stage: V },
    Done(Result<AnswerView, Seq<char>>),
}

impl<S: View> View for Next<S> {
    type V = NextView<S::V>;

    open spec fn view(&self) -> NextView<S::V> {
        match self {
            Next::Call { call, stage } => NextView::Call { call: call@, stage: stage@ },
            Next::Done(Ok(answer)) => NextView::Done(Ok(answer@)),
            Next::Done(Err(error)) => NextView::Done(Err(error@)),
        }
    }
}

/// Manages torrent downloads.
pub trait TorrentDownloader {
    /// How far an operation has come.
    type Stage;

    /// Whether an operation can be started.
    spec fn can_start(&self) -> bool;

    /// Whether an operation can go on from a stage.
    spec fn can_advance(&self, stage: Self::Stage) -> bool;

    /// Whether an operation can be started.
    fn is_ready(&self) -> (r: bool)
        ensures
            r == self.can_start(),
    ;

    /// Whether an operation can go on from a stage.
    fn is_open(&self, stage: &Self::Stage) -> (r: bool)
        ensures
            r == self.can_advance(*stage),
    ;

    /// Starts an operation. `stamp` makes up a text that does not occur in what is sent.
    fn start(&mut self, op: Op, stamp: u128) -> Next<Self::Stage>
        requires
            old(self).can_start(),
    ;

    /// Takes the reply to a call, at time `now` in milliseconds.
    fn advance(&mut self, stage: Self::Stage, reply: HttpReply, now: u64) -> Next<Self::Stage>
        requires
            old(self).can_advance(stage),
    ;
}

/// The downloader that a configuration chooses.
#[derive(Debug)]
pub enum Backend {
    Mock(MockDownloader),
    Aria2(Aria2Downloader),
    Qbittorrent(QbittorrentDownloader),
    Transmission(TransmissionDownloader),
}

/// Builds the downloader that a configuration chooses, with its URL and credentials.
pub fn build_downloader(config: &Config) -> (r: Backend)
    ensures
        ({
            let c = config@;
            match r {
                Backend::Mock(d) => c.mock_downloader && d@ == (mock::MockView {
                    tasks: mock::first_tasks(),
                    counter: 3,
                }),
                Backend::Aria2(d) => !c.mock_downloader && c.downloader == Downloader::Aria2 && d@
                    == (aria2::Aria2View { rpc_url: c.aria2_rpc_url, secret: c.aria2_rpc_token }),
                Backend::Qbittorrent(d) => !c.mock_downloader && c.downloader
                    == Downloader::Qbittorrent && d@ == (qbittorrent::QbittorrentView {
                    api_url: without_slashes(c.qbittorrent_url),
                    username: c.qbittorrent_user,
                    password: c.qbittorrent_pass,
                }),
                Backend::Transmission(d) => !c.mock_downloader && c.downloader
                    == Downloader::Transmission && d@ == (transmission::TransmissionView {
                    rpc_url: without_slashes(c.transmission_rpc_url),
                    username: c.transmission_user,
                    password: c.transmission_pass,
                    session_id: None,
                }),
            }
        }),
{
    if config.mock_downloader {
        return Backend::Mock(MockDownloader::new());
    }
    match config.downloader {
        Downloader::Qbittorrent => Backend::Qbittorrent(
            QbittorrentDownloader::from_config(
                config.qbittorrent_url.clone(),
                config.qbittorrent_user.clone(),
                config.qbittorrent_pass.clone(),
            ),
        ),
        Downloader::Transmission => Backend::Transmission(
            TransmissionDownloader::with_rpc_url(
                config.transmission_rpc_url.clone(),
                config.transmission_user.clone(),
                config.transmission_pass.clone(),
            ),
        ),
        Downloader::Aria2 => Backend::Aria2(
            Aria2Downloader::with_rpc_url(
                config.aria2_rpc_url.clone(),
                config.aria2_rpc_token.clone(),
            ),
        ),
    }
}

// ── Replies ──

/// The JSON value of a reply.
pub open spec fn reply_value(reply: HttpReply) -> Option<Json> {
    match reply {
        HttpReply::Answered { status, body, value: Ok(v) } => Some(v),
        _ => None,
    }
}

/// The JSON value of a reply.
pub fn value_of(reply: &HttpReply) -> (r: Option<&Json>)
    ensures
        match r {
            Some(v) => reply_value(*reply) == Some(*v),
            None => reply_value(*reply) is None,
        },
{
    match reply {
        HttpReply::Answered { status, body, value } => match value {
            Ok(v) => Some(v),
            Err(e) => None,
        },
        _ => None,
    }
}

/// The result of a JSON-RPC call; `None` if the call failed or the reply holds an error.
pub open spec fn rpc_result(reply: HttpReply) -> Option<Json> {
    match reply_value(reply) {
        Some(body) => if json::member(body, "error"@) is Some {
            None
        } else {
            match json::member(body, "result"@) {
                Some(v) => Some(v),
                None => Some(Json::Null),
            }
        },
        None => None,
    }
}

/// The result of a JSON-RPC call.
pub fn result_of(reply: &HttpReply) -> (r: Option<&Json>)
    ensures
        match r {
            Some(v) => rpc_result(*reply) == Some(*v),
            None => rpc_result(*reply) is None,
        },
{
    match value_of(reply) {
        Some(body) => match body.get("error") {
            Some(e) => None,
            None => match body.get("result") {
                Some(v) => Some(v),
                None => Some(&Json::Null),
            },
        },
        None => None,
    }
}

/// The values of a list; none of anything else.
pub open spec fn list_or_none(v: Option<Json>) -> Seq<Json> {
    match json::list_of(v) {
        Some(items) => items,
        None => seq![],
    }
}

/// The text of a member; empty where there is none.
pub open spec fn text_in(v: Json, key: Seq<char>) -> Seq<char> {
    match json::text_of(json::member(v, key)) {
        Some(t) => t,
        None => seq![],
    }
}

/// The text of a member; empty where there is none.
pub fn text_member(v: &Json, key: &str) -> (r: String)
    ensures
        r@ == text_in(*v, key@),
{
    match v.text_at(key) {
        Some(t) => t.to_owned(),
        None => String::new(),
    }
}

/// The unsigned integer of a member; 0 where there is none.
pub open spec fn unsigned_in(v: Json, key: Seq<char>) -> u64 {
    match json::unsigned_of(json::member(v, key)) {
        Some(n) => n,
        None => 0,
    }
}

/// The unsigned integer of a member; 0 where there is none.
pub fn unsigned_member(v: &Json, key: &str) -> (r: u64)
    ensures
        r == unsigned_in(*v, key@),
{
    match v.unsigned_at(key) {
        Some(n) => n,
        None => 0,
    }
}

/// A text without the slashes at its end.
pub open spec fn without_slashes(s: Seq<char>) -> Seq<char>
    decreases s.len(),
{
    if s.len() > 0 && s.last() == '/' {
        without_slashes(s.drop_last())
    } else {
        s
    }
}

/// A text without the slashes at its end.
pub fn trim_slashes(s: &str) -> (r: String)
    ensures
        r@ == without_slashes(s@),
{
    let chars = text::chars_of(s);
    let mut n: usize = chars.len();
    assert(s@.take(n as int) =~= s@);
    while n > 0 && chars[n - 1] == '/'
        invariant
            n <= chars@.len(),
            chars@ == s@,
            without_slashes(s@) == without_slashes(s@.take(n as int)),
        decreases n,
    {
        assert(s@.take(n as int).drop_last() =~= s@.take(n - 1));
        n = n - 1;
    }
    assert(s@.subrange(0, n as int) =~= s@.take(n as int));
    text::text_of(&chars, 0, n)
}

/// The double 1.0 in its IEEE-754 bits.
pub const DOUBLE_ONE: u64 = 0x3ff0_0000_0000_0000;

/// The least double that single precision rounds to 1: 1 - 2^-25.
pub const NEARLY_ONE: u64 = 0x3fef_ffff_f000_0000;

/// Infinity in its IEEE-754 bits; those of the positive doubles below it are in their order.
pub const DOUBLE_INFINITY: u64 = 0x7ff0_0000_0000_0000;

/// Whether a number is at least 1, or at least a double just below it.
pub open spec fn at_least(n: Number, double: u64) -> bool {
    match n {
        Number::Unsigned(v) => v >= 1,
        Number::Negative(v) => false,
        Number::Double(bits) => double <= bits <= DOUBLE_INFINITY,
    }
}

/// Whether a number is at least 1, or at least a double just below it.
pub fn is_at_least(n: Number, double: u64) -> (r: bool)
    ensures
        r == at_least(n, double),
{
    match n {
        Number::Unsigned(v) => v >= 1,
        Number::Negative(v) => false,
        Number::Double(bits) => double <= bits && bits <= DOUBLE_INFINITY,
    }
}

/// The number of a member; 0 where there is none.
pub open spec fn number_in(v: Json, key: Seq<char>) -> Number {
    match json::number_of(json::member(v, key)) {
        Some(n) => n,
        None => Number::Unsigned(0),
    }
}

/// The number of a member; 0 where there is none.
pub fn number_member(v: &Json, key: &str) -> (r: Number)
    ensures
        r == number_in(*v, key@),
{
    match v.number_at(key) {
        Some(n) => n,
        None => Number::Unsigned(0),
    }
}

/// A file of a download that goes by its path; the name of a path without one is empty.
pub open spec fn named_file(entry: Json) -> TorrentFileView {
    let path = text_in(entry, "name"@);
    TorrentFileView {
        path,
        name: match handler::file_name(path) {
            Some(name) => name,
            None => seq![],
        },
    }
}

/// The files of a download.
pub open spec fn named_files(entries: Seq<Json>) -> Seq<TorrentFileView> {
    Seq::new(entries.len(), |i: int| named_file(entries[i]))
}

/// Reads the files of a download.
pub fn read_named_files(entries: &Vec<Json>) -> (r: Vec<TorrentFile>)
    ensures
        handler::file_views(r@) == named_files(entries@),
{
    let mut out: Vec<TorrentFile> = Vec::new();
    let mut i: usize = 0;
    while i < entries.len()
        invariant
            i <= entries@.len(),
            out@.len() == i,
            forall|j: int| 0 <= j < i ==> (#[trigger] out@[j])@ == named_file(entries@[j]),
        decreases entries@.len() - i,
    {
        let path = text_member(&entries[i], "name");
        let name = match handler::path_file_name(&path) {
            Some(name) => name,
            None => String::new(),
        };
        out.push(TorrentFile { path, name });
        i = i + 1;
    }
    assert(handler::file_views(out@) =~= named_files(entries@));
    out
}

/// The operation failed.
pub fn error<S: View>(message: &str) -> (r: Next<S>)
    ensures
        r@ == NextView::<S::V>::Done(Err(message@)),
{
    Next::Done(Err(message.to_owned()))
}

/// The operation failed for a torrent.
pub fn error_for<S: View>(message: &str, infohash: &str) -> (r: Next<S>)
    ensures
        r@ == NextView::<S::V>::Done(Err(message@ + infohash@)),
{
    Next::Done(Err(text::join2(message, infohash)))
}

/// A header.
pub fn header(name: &str, value: String) -> (r: Header)
    ensures
        r.name@ == name@,
        r.value@ == value@,
{
    Header { name: name.to_owned(), value }
}

// ── Laws ──

/// A reply is an answer with this JSON value, whatever its status.
pub open spec fn answers(reply: HttpReply, v: Json) -> bool {
    match reply {
        HttpReply::Answered { status, body, value: Ok(given) } => given == v,
        _ => false,
    }
}

/// A reply is an answer to a JSON-RPC call: an object with this result and without an error.
pub open spec fn gives(reply: HttpReply, body: Json, v: Json) -> bool {
    &&& answers(reply, body)
    &&& json::member(body, "error"@) is None
    &&& json::member(body, "result"@) == Some(v)
}

/// A reply is no answer to a JSON-RPC call, or one with an error.
pub open spec fn refuses(reply: HttpReply, body: Json) -> bool {
    ||| reply is Failed
    ||| answers(reply, body) && json::member(body, "error"@) is Some
}

/// `files` are the files of a list, in its order: each with the path that it is listed under, and
/// with what stands behind the last slash of the path as its name.
pub open spec fn is_file_list(files: Seq<TorrentFileView>, entries: Seq<Json>) -> bool {
    &&& files.len() == entries.len()
    &&& forall|i: int|
        0 <= i < entries.len() ==> (json::text_of(
            json::member(#[trigger] entries[i], "name"@),
        ) matches Some(path) ==> is_file_at(files[i], path))
}

/// A path ends in the name of a file: the name alone, or behind a slash.
pub open spec fn ends_in(path: Seq<char>, name: Seq<char>) -> bool {
    &&& path == name || exists|dir: Seq<char>| path == #[trigger] (dir + "/"@ + name)
    &&& name.len() > 0
    &&& !name.contains('/')
    &&& name != seq!['.']
    &&& name != seq!['.', '.']
}

/// A file with this path, and with the name that the path ends in.
pub open spec fn is_file_at(file: TorrentFileView, path: Seq<char>) -> bool {
    &&& file.path == path
    &&& forall|name: Seq<char>| #[trigger] ends_in(path, name) ==> file.name == name
}

/// The files of a list are given as they are listed.
pub proof fn law_files_are_listed(entries: Seq<Json>)
    ensures
        is_file_list(named_files(entries), entries),
{
    let files = named_files(entries);
    assert forall|i: int| 0 <= i < entries.len() implies (json::text_of(
        json::member(#[trigger] entries[i], "name"@),
    ) matches Some(path) ==> is_file_at(files[i], path)) by {
        if let Some(path) = json::text_of(json::member(entries[i], "name"@)) {
            lemma_file_at(path);
        }
    }
}

/// The name of a file is the one that its path ends in.
pub proof fn lemma_file_at(path: Seq<char>)
    ensures
        forall|name: Seq<char>|
            #[trigger] ends_in(path, name) ==> handler::file_name(path) == Some(name),
{
    assert forall|name: Seq<char>| #[trigger] ends_in(path, name) implies handler::file_name(path)
        == Some(name) by {
        if path == name {
            handler::law_file_name_follows_the_last_slash(seq![], name);
        } else {
            let dir = choose|dir: Seq<char>| path == #[trigger] (dir + "/"@ + name);
            handler::law_file_name_follows_the_last_slash(dir, name);
        }
    }
}

} // verus!
