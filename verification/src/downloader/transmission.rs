//! Transmission: a JSON-RPC 2.0 client.
//!
//! Transmission answers a request without a valid session id with status 409 and the id to use.
//! The id is kept, and the request is sent once more.
use vstd::prelude::*;
use vstd::utf8::*;

use crate::auth;
use crate::downloader::{
    self, Answer, AnswerView, Call, CallView, HttpReply, Next, NextView, Op, OpResult, Payload,
    PayloadView, TorrentDownloader,
};
use crate::encode;
use crate::event;
use crate::handler;
use crate::json::{self, Json, JsonView, Member};
use crate::response::{self, Header};
use crate::text;
use crate::types::{
    CompletedDownload, DownloadSnapshot, DownloadSnapshotView, DownloadState, Number, Progress,
};

verus! {

/// Client of Transmission's RPC API.
#[derive(Debug)]
pub struct TransmissionDownloader {
    rpc_url: String,
    username: String,
    password: String,
    /// The session id that Transmission last asked for.
    session_id: Option<String>,
}

#[verifier::ext_equal]
pub struct TransmissionView {
    pub rpc_url: Seq<char>,
    pub username: Seq<char>,
    pub password: Seq<char>,
    pub session_id: Option<Seq<char>>,
}

impl View for TransmissionDownloader {
    type V = TransmissionView;

    closed spec fn view(&self) -> TransmissionView {
        TransmissionView {
            rpc_url: self.rpc_url@,
            username: self.username@,
            password: self.password@,
            session_id: text::opt(self.session_id),
        }
    }
}

/// How far an operation has come: its request was sent, for the second time if `retried`.
#[derive(Debug)]
pub struct Stage {
    pub op: Op,
    pub retried: bool,
}

impl View for Stage {
    type V = Stage;

    open spec fn view(&self) -> Stage {
        *self
    }
}

// ── Calls ──

/// A list of one infohash.
pub open spec fn ids(infohash: Seq<char>) -> (Seq<char>, JsonView) {
    ("ids"@, JsonView::List(seq![JsonView::Text(infohash)]))
}

/// The fields that are asked for.
pub open spec fn fields(names: Seq<Seq<char>>) -> (Seq<char>, JsonView) {
    ("fields"@, json::text_list(names))
}

/// The method of an operation.
pub open spec fn method_of(op: Op) -> Seq<char> {
    match op {
        Op::AddUri { uri, dir } => "torrent_add"@,
        Op::AddTorrentBytes { data, dir } => "torrent_add"@,
        Op::ListFiles { infohash } => "torrent_get"@,
        Op::RenameFile { infohash, old_path, new_name } => "torrent_rename_path"@,
        Op::MoveFiles { infohash, new_location } => "torrent_set_location"@,
        Op::Pause { infohash } => "torrent_stop"@,
        Op::Resume { infohash } => "torrent-start-now"@,
        Op::Remove { infohash, delete_files } => "torrent_remove"@,
        Op::PollCompleted => "torrent_get"@,
        Op::PollFailed => "torrent_get"@,
        Op::QueryAll => "torrent_get"@,
        Op::CheckConnection => "session_get"@,
    }
}

/// The parameters of an operation.
pub open spec fn params_of(op: Op) -> Seq<(Seq<char>, JsonView)> {
    match op {
        Op::AddUri { uri, dir } => seq![
            ("filename"@, JsonView::Text(uri@)),
            ("download_dir"@, JsonView::Text(dir@)),
            ("paused"@, JsonView::Bool(false)),
        ],
        Op::AddTorrentBytes { data, dir } => seq![
            ("metainfo"@, JsonView::Text(encode::base64_text(data@))),
            ("download_dir"@, JsonView::Text(dir@)),
            ("paused"@, JsonView::Bool(false)),
        ],
        Op::ListFiles { infohash } => seq![
            fields(seq!["id"@, "files"@, "file_stats"@]),
            ids(infohash@),
        ],
        Op::RenameFile { infohash, old_path, new_name } => seq![
            ids(infohash@),
            ("path"@, JsonView::Text(old_path@)),
            ("name"@, JsonView::Text(new_name@)),
        ],
        Op::MoveFiles { infohash, new_location } => seq![
            ids(infohash@),
            ("location"@, JsonView::Text(new_location@)),
            ("move"@, JsonView::Bool(true)),
        ],
        Op::Pause { infohash } => seq![ids(infohash@)],
        Op::Resume { infohash } => seq![ids(infohash@)],
        Op::Remove { infohash, delete_files } => seq![
            ids(infohash@),
            ("delete_local_data"@, JsonView::Bool(delete_files)),
        ],
        Op::PollCompleted => seq![
            fields(seq!["id"@, "hash_string"@, "status"@, "percent_done"@, "error"@]),
        ],
        Op::PollFailed => seq![
            fields(seq!["id"@, "hash_string"@, "status"@, "error"@, "error_string"@]),
        ],
        Op::QueryAll => seq![
            fields(
                seq![
                    "id"@,
                    "hash_string"@,
                    "name"@,
                    "status"@,
                    "percent_done"@,
                    "rate_download"@,
                    "total_size"@,
                ],
            ),
        ],
        Op::CheckConnection => seq![fields(seq!["version"@])],
    }
}

/// The headers of a request: the credentials where there is a username, and the session id where
/// there is one.
pub open spec fn headers_of(d: TransmissionView) -> Seq<(Seq<char>, Seq<char>)> {
    let plain = seq![("Content-Type"@, "application/json"@)];
    let signed = if d.username.len() == 0 {
        plain
    } else {
        plain.push(("Authorization"@, auth::credentials(d.username, d.password)))
    };
    match d.session_id {
        Some(id) => signed.push(("X-Transmission-Session-Id"@, id)),
        None => signed,
    }
}

/// The request of an operation.
pub open spec fn rpc_call(d: TransmissionView, op: Op) -> CallView {
    CallView {
        wait_ms: 0,
        post: true,
        url: d.rpc_url,
        headers: headers_of(d),
        body: PayloadView::Json(
            JsonView::Object(
                seq![
                    ("jsonrpc"@, JsonView::Text("2.0"@)),
                    ("id"@, JsonView::Number(Number::Unsigned(1))),
                    ("method"@, JsonView::Text(method_of(op))),
                    ("params"@, JsonView::Object(params_of(op))),
                ],
            ),
        ),
    }
}

fn method(op: &Op) -> (r: &'static str)
    ensures
        r@ == method_of(*op),
{
    match op {
        Op::AddUri { uri, dir } => "torrent_add",
        Op::AddTorrentBytes { data, dir } => "torrent_add",
        Op::ListFiles { infohash } => "torrent_get",
        Op::RenameFile { infohash, old_path, new_name } => "torrent_rename_path",
        Op::MoveFiles { infohash, new_location } => "torrent_set_location",
        Op::Pause { infohash } => "torrent_stop",
        Op::Resume { infohash } => "torrent-start-now",
        Op::Remove { infohash, delete_files } => "torrent_remove",
        Op::PollCompleted => "torrent_get",
        Op::PollFailed => "torrent_get",
        Op::QueryAll => "torrent_get",
        Op::CheckConnection => "session_get",
    }
}

fn member(key: &str, value: Json) -> (r: Member)
    ensures
        (r.key@, r.value@) == (key@, value@),
{
    Member::new(key, value)
}

fn ids_member(infohash: &str) -> (r: Member)
    ensures
        (r.key@, r.value@) == ids(infohash@),
{
    let list = vec![Json::text(infohash)];
    assert(json::json_views(list@) =~= seq![JsonView::Text(infohash@)]);
    member("ids", Json::list(list))
}

fn fields_member(names: Vec<&'static str>) -> (r: Member)
    ensures
        (r.key@, r.value@) == fields(text::str_views(names@)),
{
    member("fields", Json::texts(&names))
}

fn params(op: &Op) -> (r: Vec<Member>)
    ensures
        json::member_views(r@) == params_of(*op),
{
    let r = match op {
        Op::AddUri { uri, dir } => vec![
            member("filename", Json::text(uri)),
            member("download_dir", Json::text(dir)),
            member("paused", Json::Bool(false)),
        ],
        Op::AddTorrentBytes { data, dir } => vec![
            member("metainfo", Json::text(&encode::base64_encode(data.as_slice()))),
            member("download_dir", Json::text(dir)),
            member("paused", Json::Bool(false)),
        ],
        Op::ListFiles { infohash } => {
            let names = vec!["id", "files", "file_stats"];
            assert(text::str_views(names@) =~= seq!["id"@, "files"@, "file_stats"@]);
            vec![fields_member(names), ids_member(infohash)]
        },
        Op::RenameFile { infohash, old_path, new_name } => vec![
            ids_member(infohash),
            member("path", Json::text(old_path)),
            member("name", Json::text(new_name)),
        ],
        Op::MoveFiles { infohash, new_location } => vec![
            ids_member(infohash),
            member("location", Json::text(new_location)),
            member("move", Json::Bool(true)),
        ],
        Op::Pause { infohash } => vec![ids_member(infohash)],
        Op::Resume { infohash } => vec![ids_member(infohash)],
        Op::Remove { infohash, delete_files } => vec![
            ids_member(infohash),
            member("delete_local_data", Json::Bool(*delete_files)),
        ],
        Op::PollCompleted => {
            let names = vec!["id", "hash_string", "status", "percent_done", "error"];
            assert(text::str_views(names@) =~= seq![
                "id"@,
                "hash_string"@,
                "status"@,
                "percent_done"@,
                "error"@,
            ]);
            vec![fields_member(names)]
        },
        Op::PollFailed => {
            let names = vec!["id", "hash_string", "status", "error", "error_string"];
            assert(text::str_views(names@) =~= seq![
                "id"@,
                "hash_string"@,
                "status"@,
                "error"@,
                "error_string"@,
            ]);
            vec![fields_member(names)]
        },
        Op::QueryAll => {
            let names = vec![
                "id",
                "hash_string",
                "name",
                "status",
                "percent_done",
                "rate_download",
                "total_size",
            ];
            assert(text::str_views(names@) =~= seq![
                "id"@,
                "hash_string"@,
                "name"@,
                "status"@,
                "percent_done"@,
                "rate_download"@,
                "total_size"@,
            ]);
            vec![fields_member(names)]
        },
        Op::CheckConnection => {
            let names = vec!["version"];
            assert(text::str_views(names@) =~= seq!["version"@]);
            vec![fields_member(names)]
        },
    };
    assert(json::member_views(r@) =~= params_of(*op));
    r
}

impl TransmissionDownloader {
    /// A client of the RPC interface at a URL.
    pub fn with_rpc_url(rpc_url: String, username: String, password: String) -> (r: Self)
        ensures
            r@ == (TransmissionView {
                rpc_url: downloader::without_slashes(rpc_url@),
                username: username@,
                password: password@,
                session_id: None,
            }),
    {
        TransmissionDownloader {
            rpc_url: downloader::trim_slashes(&rpc_url),
            username,
            password,
            session_id: None,
        }
    }

    fn headers(&self) -> (r: Vec<Header>)
        ensures
            response::header_views(r@) == headers_of(self@),
    {
        let mut headers: Vec<Header> = vec![
            downloader::header("Content-Type", "application/json".to_owned()),
        ];
        if !self.username.as_str().is_empty() {
            headers.push(
                downloader::header(
                    "Authorization",
                    auth::basic_auth(&self.username, &self.password),
                ),
            );
        }
        if let Some(id) = &self.session_id {
            headers.push(downloader::header("X-Transmission-Session-Id", id.clone()));
        }
        assert(response::header_views(headers@) =~= headers_of(self@));
        headers
    }

    /// Builds the request of an operation.
    pub fn build_request(&self, op: &Op) -> (r: Call)
        ensures
            r@ == rpc_call(self@, *op),
    {
        let members = vec![
            member("jsonrpc", Json::text("2.0")),
            member("id", Json::integer(1)),
            member("method", Json::text(method(op))),
            member("params", Json::object(params(op))),
        ];
        assert(json::member_views(members@) =~= seq![
            ("jsonrpc"@, JsonView::Text("2.0"@)),
            ("id"@, JsonView::Number(Number::Unsigned(1))),
            ("method"@, JsonView::Text(method_of(*op))),
            ("params"@, JsonView::Object(params_of(*op))),
        ]);
        Call {
            wait_ms: 0,
            post: true,
            url: self.rpc_url.clone(),
            headers: self.headers(),
            body: Payload::Json(Json::object(members)),
        }
    }
}

// ── Replies ──

/// The infohash of an object that describes a torrent.
pub open spec fn hash_in(torrent: Json) -> Option<Seq<char>> {
    json::text_of(json::member(torrent, "hash_string"@))
}

/// The object under a key of a result.
pub open spec fn object_in(result: Option<Json>, key: Seq<char>) -> Option<Json> {
    match result {
        Some(v) => match json::member(v, key) {
            Some(Json::Object(members)) => Some(Json::Object(members)),
            _ => None,
        },
        None => None,
    }
}

fn read_object<'a>(result: Option<&'a Json>, key: &str) -> (r: Option<&'a Json>)
    ensures
        (match r {
            Some(v) => Some(*v),
            None => None,
        }) == object_in(
            match result {
                Some(v) => Some(*v),
                None => None,
            },
            key@,
        ),
{
    match result {
        Some(v) => match v.get(key) {
            Some(found) => match found {
                Json::Object(members) => Some(found),
                _ => None,
            },
            None => None,
        },
        None => None,
    }
}

/// The torrents that a result lists.
pub open spec fn torrents_in(result: Option<Json>) -> Option<Seq<Json>> {
    match result {
        Some(v) => json::list_of(json::member(v, "torrents"@)),
        None => None,
    }
}

/// The torrents that a result lists; none if the request failed.
pub open spec fn torrents_or_none(result: Option<Json>) -> Seq<Json> {
    match torrents_in(result) {
        Some(t) => t,
        None => seq![],
    }
}

fn read_torrents(result: Option<&Json>) -> (r: Option<&Vec<Json>>)
    ensures
        (match r {
            Some(t) => Some(t@),
            None => None,
        }) == torrents_in(
            match result {
                Some(v) => Some(*v),
                None => None,
            },
        ),
{
    match result {
        Some(v) => v.list_at("torrents"),
        None => None,
    }
}

/// The status of a torrent; -1 where there is none.
pub open spec fn status_of(torrent: Json) -> i64 {
    match json::signed_of(json::member(torrent, "status"@)) {
        Some(n) => n,
        None => (-1) as i64,
    }
}

fn read_status(torrent: &Json) -> (r: i64)
    ensures
        r == status_of(*torrent),
{
    match torrent.signed_at("status") {
        Some(n) => n,
        None => -1,
    }
}

/// Whether a torrent holds all its bytes.
pub open spec fn is_complete(torrent: Json) -> bool {
    downloader::at_least(
        downloader::number_in(torrent, "percent_done"@),
        downloader::DOUBLE_ONE,
    )
}

fn read_complete(torrent: &Json) -> (r: bool)
    ensures
        r == is_complete(*torrent),
{
    downloader::is_at_least(
        downloader::number_member(torrent, "percent_done"),
        downloader::DOUBLE_ONE,
    )
}

/// The infohash of a torrent that is complete: stopped or seeding, with all its bytes.
pub open spec fn completed_hash(torrent: Json) -> Option<Seq<char>> {
    if (status_of(torrent) == 0 || status_of(torrent) == 6) && is_complete(torrent) {
        hash_in(torrent)
    } else {
        None
    }
}

/// The error code of a torrent; 0 where there is none.
pub open spec fn error_of(torrent: Json) -> i64 {
    match json::signed_of(json::member(torrent, "error"@)) {
        Some(n) => n,
        None => 0,
    }
}

/// The infohash of a torrent that failed: stopped, with a local error.
pub open spec fn failed_hash(torrent: Json) -> Option<Seq<char>> {
    if status_of(torrent) == 0 && error_of(torrent) >= 3 {
        hash_in(torrent)
    } else {
        None
    }
}

/// The infohashes of the torrents that are complete.
pub open spec fn completed_hashes(torrents: Seq<Json>) -> Seq<Seq<char>> {
    json::collected(torrents, |t: Json| completed_hash(t))
}

/// The infohashes of the torrents that failed.
pub open spec fn failed_hashes(torrents: Seq<Json>) -> Seq<Seq<char>> {
    json::collected(torrents, |t: Json| failed_hash(t))
}

fn read_completed(torrents: Option<&Vec<Json>>) -> (r: Vec<CompletedDownload>)
    ensures
        downloader::task_views(r@) == completed_hashes(
            match torrents {
                Some(t) => t@,
                None => seq![],
            },
        ),
{
    let mut out: Vec<CompletedDownload> = Vec::new();
    assert(downloader::task_views(out@) =~= completed_hashes(Seq::<Json>::empty()));
    let items = match torrents {
        Some(t) => t,
        None => {
            return out;
        },
    };
    let ghost all = items@;
    let mut i: usize = 0;
    assert(all.take(0) =~= Seq::<Json>::empty());
    while i < items.len()
        invariant
            i <= items@.len(),
            all == items@,
            downloader::task_views(out@) == completed_hashes(all.take(i as int)),
        decreases items@.len() - i,
    {
        let ghost before = downloader::task_views(out@);
        assert(all.take(i + 1).drop_last() =~= all.take(i as int));
        let t = &items[i];
        let status: i64 = read_status(t);
        if (status == 0 || status == 6) && read_complete(t) {
            if let Some(hash) = t.text_at("hash_string") {
                out.push(CompletedDownload { infohash: hash.to_owned() });
                assert(downloader::task_views(out@) =~= before.push(hash@));
            }
        }
        i = i + 1;
    }
    assert(all.take(all.len() as int) =~= all);
    out
}

fn read_failed(torrents: Option<&Vec<Json>>) -> (r: Vec<CompletedDownload>)
    ensures
        downloader::task_views(r@) == failed_hashes(
            match torrents {
                Some(t) => t@,
                None => seq![],
            },
        ),
{
    let mut out: Vec<CompletedDownload> = Vec::new();
    assert(downloader::task_views(out@) =~= failed_hashes(Seq::<Json>::empty()));
    let items = match torrents {
        Some(t) => t,
        None => {
            return out;
        },
    };
    let ghost all = items@;
    let mut i: usize = 0;
    assert(all.take(0) =~= Seq::<Json>::empty());
    while i < items.len()
        invariant
            i <= items@.len(),
            all == items@,
            downloader::task_views(out@) == failed_hashes(all.take(i as int)),
        decreases items@.len() - i,
    {
        let ghost before = downloader::task_views(out@);
        assert(all.take(i + 1).drop_last() =~= all.take(i as int));
        let t = &items[i];
        let error: i64 = match t.signed_at("error") {
            Some(n) => n,
            None => 0,
        };
        if read_status(t) == 0 && error >= 3 {
            if let Some(hash) = t.text_at("hash_string") {
                out.push(CompletedDownload { infohash: hash.to_owned() });
                assert(downloader::task_views(out@) =~= before.push(hash@));
            }
        }
        i = i + 1;
    }
    assert(all.take(all.len() as int) =~= all);
    out
}

/// The state of a torrent.
pub open spec fn state_of(torrent: Json) -> DownloadState {
    let status = status_of(torrent);
    if status == 0 {
        if is_complete(torrent) {
            DownloadState::Completed
        } else {
            DownloadState::Paused
        }
    } else if status == 3 || status == 4 {
        DownloadState::Downloading
    } else if status == 6 {
        DownloadState::Seeding
    } else if status == 1 || status == 2 {
        DownloadState::Checking
    } else {
        DownloadState::Waiting
    }
}

fn read_state(torrent: &Json) -> (r: DownloadState)
    ensures
        r == state_of(*torrent),
{
    let status: i64 = read_status(torrent);
    if status == 0 {
        if read_complete(torrent) {
            DownloadState::Completed
        } else {
            DownloadState::Paused
        }
    } else if status == 3 || status == 4 {
        DownloadState::Downloading
    } else if status == 6 {
        DownloadState::Seeding
    } else if status == 1 || status == 2 {
        DownloadState::Checking
    } else {
        DownloadState::Waiting
    }
}

/// The snapshot of a torrent.
pub open spec fn snapshot_of(torrent: Json) -> DownloadSnapshotView {
    DownloadSnapshotView {
        infohash: downloader::text_in(torrent, "hash_string"@),
        state: state_of(torrent),
        progress: Progress::Reported(downloader::number_in(torrent, "percent_done"@)),
        speed: downloader::unsigned_in(torrent, "rate_download"@),
        size: downloader::unsigned_in(torrent, "total_size"@),
        name: downloader::text_in(torrent, "name"@),
    }
}

/// The snapshots of torrents.
pub open spec fn snapshots_of(torrents: Seq<Json>) -> Seq<DownloadSnapshotView> {
    Seq::new(torrents.len(), |i: int| snapshot_of(torrents[i]))
}

fn read_snapshots(torrents: Option<&Vec<Json>>) -> (r: Vec<DownloadSnapshot>)
    ensures
        event::snapshot_views(r@) == snapshots_of(
            match torrents {
                Some(t) => t@,
                None => seq![],
            },
        ),
{
    let mut out: Vec<DownloadSnapshot> = Vec::new();
    assert(event::snapshot_views(out@) =~= snapshots_of(Seq::<Json>::empty()));
    let items = match torrents {
        Some(t) => t,
        None => {
            return out;
        },
    };
    let mut i: usize = 0;
    while i < items.len()
        invariant
            i <= items@.len(),
            out@.len() == i,
            forall|j: int| 0 <= j < i ==> (#[trigger] out@[j])@ == snapshot_of(items@[j]),
        decreases items@.len() - i,
    {
        let t = &items[i];
        out.push(
            DownloadSnapshot {
                infohash: downloader::text_member(t, "hash_string"),
                state: read_state(t),
                progress: Progress::Reported(downloader::number_member(t, "percent_done")),
                speed: downloader::unsigned_member(t, "rate_download"),
                size: downloader::unsigned_member(t, "total_size"),
                name: downloader::text_member(t, "name"),
            },
        );
        i = i + 1;
    }
    assert(event::snapshot_views(out@) =~= snapshots_of(items@));
    out
}

// ── Operations ──

/// The infohash of an added torrent, or the error that there is none.
pub open spec fn added(torrent: Option<Json>, nothing: Seq<char>, nameless: Seq<char>) -> Result<
    AnswerView,
    Seq<char>,
> {
    match torrent {
        Some(t) => match hash_in(t) {
            Some(hash) => Ok(AnswerView::Infohash(hash)),
            None => Err(nameless),
        },
        None => Err(nothing),
    }
}

/// The files of the first torrent that is listed.
pub open spec fn listed_files(result: Option<Json>, infohash: Seq<char>) -> Result<
    AnswerView,
    Seq<char>,
> {
    match torrents_in(result) {
        None => Err("transmission: torrent_get returned no torrents"@),
        Some(torrents) => if torrents.len() == 0 {
            Err("transmission: torrent not found: "@ + infohash)
        } else {
            Ok(
                AnswerView::Files(
                    downloader::named_files(
                        downloader::list_or_none(json::member(torrents[0], "files"@)),
                    ),
                ),
            )
        },
    }
}

/// Success, or the error for a torrent.
pub open spec fn unless_failed(
    result: Option<Json>,
    answer: AnswerView,
    failure: Seq<char>,
) -> Result<AnswerView, Seq<char>> {
    if result is Some {
        Ok(answer)
    } else {
        Err(failure)
    }
}

/// What an operation gives, by the result of its request.
pub open spec fn answer_of(op: Op, result: Option<Json>) -> Result<AnswerView, Seq<char>> {
    match op {
        Op::AddUri { uri, dir } => added(
            object_in(result, "torrent_added"@),
            "transmission: torrent_add returned no result"@,
            "transmission: no hash_string in torrent_add response"@,
        ),
        Op::AddTorrentBytes { data, dir } => added(
            match object_in(result, "torrent_added"@) {
                Some(t) => Some(t),
                None => object_in(result, "torrent_duplicate"@),
            },
            "transmission: torrent_add (bytes) returned no result"@,
            "transmission: no hash_string in add response"@,
        ),
        Op::ListFiles { infohash } => listed_files(result, infohash@),
        Op::RenameFile { infohash, old_path, new_name } => unless_failed(
            result,
            AnswerView::Changed(OpResult::Done),
            "transmission: rename_file failed for "@ + infohash@,
        ),
        Op::MoveFiles { infohash, new_location } => unless_failed(
            result,
            AnswerView::Changed(OpResult::Done),
            "transmission: move_files failed for "@ + infohash@,
        ),
        Op::Pause { infohash } => unless_failed(
            result,
            AnswerView::Done,
            "transmission: pause failed for "@ + infohash@,
        ),
        Op::Resume { infohash } => unless_failed(
            result,
            AnswerView::Done,
            "transmission: resume failed for "@ + infohash@,
        ),
        Op::Remove { infohash, delete_files } => unless_failed(
            result,
            AnswerView::Done,
            "transmission: remove failed for "@ + infohash@,
        ),
        Op::PollCompleted => Ok(AnswerView::Tasks(completed_hashes(torrents_or_none(result)))),
        Op::PollFailed => Ok(AnswerView::Tasks(failed_hashes(torrents_or_none(result)))),
        Op::QueryAll => Ok(AnswerView::Snapshots(snapshots_of(torrents_or_none(result)))),
        Op::CheckConnection => unless_failed(
            result,
            AnswerView::Done,
            "transmission: session_get failed"@,
        ),
    }
}

/// The first request of an operation.
pub open spec fn first_step(d: TransmissionView, op: Op) -> NextView<Stage> {
    NextView::Call { call: rpc_call(d, op), stage: Stage { op, retried: false } }
}

/// The session id that a reply asks for: that of a 409 with a session id that is not empty.
pub open spec fn demanded(reply: HttpReply) -> Option<Seq<char>> {
    match reply {
        HttpReply::Failed { status: Some(code), session_id: Some(id), error } => if code == 409
            && id@.len() > 0 {
            Some(id@)
        } else {
            None
        },
        _ => None,
    }
}

/// The client after a reply: it keeps the session id that is asked for.
pub open spec fn client_after(d: TransmissionView, stage: Stage, reply: HttpReply) -> TransmissionView {
    match demanded(reply) {
        Some(id) => if stage.retried {
            d
        } else {
            TransmissionView { session_id: Some(id), ..d }
        },
        None => d,
    }
}

/// What follows a reply: the same request once more if a session id is asked for the first time,
/// otherwise the result.
pub open spec fn next_step(d: TransmissionView, stage: Stage, reply: HttpReply) -> NextView<Stage> {
    if demanded(reply) is Some && !stage.retried {
        NextView::Call {
            call: rpc_call(client_after(d, stage, reply), stage.op),
            stage: Stage { op: stage.op, retried: true },
        }
    } else {
        NextView::Done(answer_of(stage.op, downloader::rpc_result(reply)))
    }
}

fn read_added(torrent: Option<&Json>, nothing: &str, nameless: &str) -> (r: Next<Stage>)
    ensures
        r@ == NextView::<Stage>::Done(
            added(
                match torrent {
                    Some(t) => Some(*t),
                    None => None,
                },
                nothing@,
                nameless@,
            ),
        ),
{
    match torrent {
        Some(t) => match t.text_at("hash_string") {
            Some(hash) => Next::Done(Ok(Answer::Infohash(hash.to_owned()))),
            None => downloader::error(nameless),
        },
        None => downloader::error(nothing),
    }
}

fn read_listed_files(result: Option<&Json>, infohash: &str) -> (r: Next<Stage>)
    ensures
        r@ == NextView::<Stage>::Done(
            listed_files(
                match result {
                    Some(v) => Some(*v),
                    None => None,
                },
                infohash@,
            ),
        ),
{
    match read_torrents(result) {
        None => downloader::error("transmission: torrent_get returned no torrents"),
        Some(torrents) => if torrents.len() == 0 {
            downloader::error_for("transmission: torrent not found: ", infohash)
        } else {
            match torrents[0].list_at("files") {
                Some(files) => Next::Done(
                    Ok(Answer::Files(downloader::read_named_files(files))),
                ),
                None => {
                    let none = Vec::new();
                    assert(handler::file_views(none@) =~= downloader::named_files(
                        Seq::<Json>::empty(),
                    ));
                    Next::Done(Ok(Answer::Files(none)))
                },
            }
        },
    }
}

fn read_unless_failed(worked: bool, answer: Answer, failure: &str, infohash: &str) -> (r: Next<
    Stage,
>)
    ensures
        r@ == if worked {
            NextView::<Stage>::Done(Ok(answer@))
        } else {
            NextView::<Stage>::Done(Err(failure@ + infohash@))
        },
{
    if worked {
        Next::Done(Ok(answer))
    } else {
        downloader::error_for(failure, infohash)
    }
}

fn read_answer(op: &Op, result: Option<&Json>) -> (r: Next<Stage>)
    ensures
        r@ == NextView::<Stage>::Done(
            answer_of(
                *op,
                match result {
                    Some(v) => Some(*v),
                    None => None,
                },
            ),
        ),
{
    let worked = result.is_some();
    match op {
        Op::AddUri { uri, dir } => read_added(
            read_object(result, "torrent_added"),
            "transmission: torrent_add returned no result",
            "transmission: no hash_string in torrent_add response",
        ),
        Op::AddTorrentBytes { data, dir } => {
            let torrent = match read_object(result, "torrent_added") {
                Some(t) => Some(t),
                None => read_object(result, "torrent_duplicate"),
            };
            read_added(
                torrent,
                "transmission: torrent_add (bytes) returned no result",
                "transmission: no hash_string in add response",
            )
        },
        Op::ListFiles { infohash } => read_listed_files(result, infohash),
        Op::RenameFile { infohash, old_path, new_name } => read_unless_failed(
            worked,
            Answer::Changed(OpResult::Done),
            "transmission: rename_file failed for ",
            infohash,
        ),
        Op::MoveFiles { infohash, new_location } => read_unless_failed(
            worked,
            Answer::Changed(OpResult::Done),
            "transmission: move_files failed for ",
            infohash,
        ),
        Op::Pause { infohash } => read_unless_failed(
            worked,
            Answer::Done,
            "transmission: pause failed for ",
            infohash,
        ),
        Op::Resume { infohash } => read_unless_failed(
            worked,
            Answer::Done,
            "transmission: resume failed for ",
            infohash,
        ),
        Op::Remove { infohash, delete_files } => read_unless_failed(
            worked,
            Answer::Done,
            "transmission: remove failed for ",
            infohash,
        ),
        Op::PollCompleted => Next::Done(Ok(Answer::Tasks(read_completed(read_torrents(result))))),
        Op::PollFailed => Next::Done(Ok(Answer::Tasks(read_failed(read_torrents(result))))),
        Op::QueryAll => Next::Done(Ok(Answer::Snapshots(read_snapshots(read_torrents(result))))),
        Op::CheckConnection => if worked {
            Next::Done(Ok(Answer::Done))
        } else {
            downloader::error("transmission: session_get failed")
        },
    }
}

fn read_demanded(reply: &HttpReply) -> (r: Option<String>)
    ensures
        text::opt(r) == demanded(*reply),
{
    match reply {
        HttpReply::Failed { status, session_id, error } => match (status, session_id) {
            (Some(code), Some(id)) => if *code == 409 && !id.as_str().is_empty() {
                Some(id.clone())
            } else {
                None
            },
            _ => None,
        },
        _ => None,
    }
}

impl TorrentDownloader for TransmissionDownloader {
    type Stage = Stage;

    open spec fn can_start(&self) -> bool {
        true
    }

    open spec fn can_advance(&self, stage: Stage) -> bool {
        true
    }

    fn is_ready(&self) -> (r: bool) {
        true
    }

    fn is_open(&self, stage: &Stage) -> (r: bool) {
        true
    }

    fn start(&mut self, op: Op, stamp: u128) -> (r: Next<Stage>)
        ensures
            r@ == first_step(old(self)@, op),
            final(self)@ == old(self)@,
    {
        let call = self.build_request(&op);
        Next::Call { call, stage: Stage { op, retried: false } }
    }

    fn advance(&mut self, stage: Stage, reply: HttpReply, now: u64) -> (r: Next<Stage>)
        ensures
            r@ == next_step(old(self)@, stage, reply),
            final(self)@ == client_after(old(self)@, stage, reply),
    {
        if !stage.retried {
            if let Some(id) = read_demanded(&reply) {
                self.session_id = Some(id);
                let call = self.build_request(&stage.op);
                return Next::Call { call, stage: Stage { op: stage.op, retried: true } };
            }
        }
        read_answer(&stage.op, downloader::result_of(&reply))
    }
}

// ── Laws ──

/// A request is sent at most twice.
pub proof fn law_request_is_sent_at_most_twice(
    d: TransmissionView,
    op: Op,
    first: HttpReply,
    second: HttpReply,
)
    ensures
        ({
            let begun = Stage { op, retried: false };
            next_step(d, begun, first) matches NextView::Call { call, stage } ==> next_step(
                client_after(d, begun, first),
                stage,
                second,
            ) is Done
        }),
{
}

/// The second request differs from the first only in the session id that was asked for, and
/// later requests carry that id too.
pub proof fn law_session_id_is_kept(d: TransmissionView, op: Op, reply: HttpReply, other: Op)
    requires
        demanded(reply) is Some,
    ensures
        ({
            let begun = Stage { op, retried: false };
            let after = client_after(d, begun, reply);
            &&& after == TransmissionView { session_id: demanded(reply), ..d }
            &&& next_step(d, begun, reply) matches NextView::Call { call, stage } && call
                == rpc_call(after, op) && call.body == rpc_call(d, op).body
            &&& rpc_call(after, other).headers.contains(
                ("X-Transmission-Session-Id"@, demanded(reply)->Some_0),
            )
        }),
{
    let begun = Stage { op, retried: false };
    let after = client_after(d, begun, reply);
    let headers = headers_of(after);
    assert(headers.last() == ("X-Transmission-Session-Id"@, demanded(reply)->Some_0));
}

/// A request calls a method of Transmission with parameters. It carries the credentials exactly if
/// there is a user name, and the session identifier exactly if one is known.
pub open spec fn calls(
    d: TransmissionView,
    call: CallView,
    method: Seq<char>,
    params: Seq<(Seq<char>, JsonView)>,
) -> bool {
    &&& call.post
    &&& call.url == d.rpc_url
    &&& call.body == PayloadView::Json(
        JsonView::Object(
            seq![
                ("jsonrpc"@, JsonView::Text("2.0"@)),
                ("id"@, JsonView::Number(Number::Unsigned(1))),
                ("method"@, JsonView::Text(method)),
                ("params"@, JsonView::Object(params)),
            ],
        ),
    )
    &&& call.headers == seq![("Content-Type"@, "application/json"@)] + (if d.username.len() == 0 {
        seq![]
    } else {
        seq![
            (
                "Authorization"@,
                "Basic "@ + encode::base64_text(encode_utf8(d.username + ":"@ + d.password)),
            ),
        ]
    }) + (match d.session_id {
        Some(id) => seq![("X-Transmission-Session-Id"@, id)],
        None => seq![],
    })
}

/// Parameters that name one torrent.
pub open spec fn one_torrent(infohash: Seq<char>) -> (Seq<char>, JsonView) {
    ("ids"@, JsonView::List(seq![JsonView::Text(infohash)]))
}

/// Parameters that ask for fields.
pub open spec fn asks_for(params: Seq<(Seq<char>, JsonView)>, field: Seq<char>) -> bool {
    &&& params.len() > 0
    &&& params[0].0 == "fields"@
    &&& params[0].1 is List
    &&& params[0].1->List_0.contains(JsonView::Text(field))
}

proof fn lemma_calls(d: TransmissionView, op: Op)
    ensures
        calls(d, rpc_call(d, op), method_of(op), params_of(op)),
{
    let h = rpc_call(d, op).headers;
    let plain = seq![("Content-Type"@, "application/json"@)];
    let signature = if d.username.len() == 0 {
        seq![]
    } else {
        seq![
            (
                "Authorization"@,
                "Basic "@ + encode::base64_text(encode_utf8(d.username + ":"@ + d.password)),
            ),
        ]
    };
    let session = match d.session_id {
        Some(id) => seq![("X-Transmission-Session-Id"@, id)],
        None => seq![],
    };
    assert(h =~= plain + signature + session);
}

/// Each operation calls its own method with what it says: a torrent is added from its link or its
/// bytes in Base64, into its directory and not paused; all others name the torrent by its
/// infohash.
pub proof fn law_operations_call_their_method(
    d: TransmissionView,
    infohash: String,
    one: String,
    two: String,
    data: Vec<u8>,
    delete_files: bool,
)
    ensures
        first_step(d, Op::AddUri { uri: one, dir: two }) matches NextView::Call { call, stage }
            && calls(
            d,
            call,
            "torrent_add"@,
            seq![
                ("filename"@, JsonView::Text(one@)),
                ("download_dir"@, JsonView::Text(two@)),
                ("paused"@, JsonView::Bool(false)),
            ],
        ),
        first_step(d, Op::AddTorrentBytes { data, dir: two }) matches NextView::Call { call, stage }
            && calls(
            d,
            call,
            "torrent_add"@,
            seq![
                ("metainfo"@, JsonView::Text(encode::base64_text(data@))),
                ("download_dir"@, JsonView::Text(two@)),
                ("paused"@, JsonView::Bool(false)),
            ],
        ),
        first_step(
            d,
            Op::RenameFile { infohash, old_path: one, new_name: two },
        ) matches NextView::Call { call, stage } && calls(
            d,
            call,
            "torrent_rename_path"@,
            seq![
                one_torrent(infohash@),
                ("path"@, JsonView::Text(one@)),
                ("name"@, JsonView::Text(two@)),
            ],
        ),
        first_step(d, Op::MoveFiles { infohash, new_location: one }) matches NextView::Call {
            call,
            stage,
        } && calls(
            d,
            call,
            "torrent_set_location"@,
            seq![
                one_torrent(infohash@),
                ("location"@, JsonView::Text(one@)),
                ("move"@, JsonView::Bool(true)),
            ],
        ),
        first_step(d, Op::Pause { infohash }) matches NextView::Call { call, stage } && calls(
            d,
            call,
            "torrent_stop"@,
            seq![one_torrent(infohash@)],
        ),
        first_step(d, Op::Resume { infohash }) matches NextView::Call { call, stage } && calls(
            d,
            call,
            "torrent-start-now"@,
            seq![one_torrent(infohash@)],
        ),
        first_step(d, Op::Remove { infohash, delete_files }) matches NextView::Call { call, stage }
            && calls(
            d,
            call,
            "torrent_remove"@,
            seq![
                one_torrent(infohash@),
                ("delete_local_data"@, JsonView::Bool(delete_files)),
            ],
        ),
        first_step(d, Op::CheckConnection) matches NextView::Call { call, stage } && call
            == rpc_call(d, Op::CheckConnection) && calls(
            d,
            call,
            "session_get"@,
            params_of(Op::CheckConnection),
        ),
{
    lemma_calls(d, Op::AddUri { uri: one, dir: two });
    lemma_calls(d, Op::AddTorrentBytes { data, dir: two });
    lemma_calls(d, Op::RenameFile { infohash, old_path: one, new_name: two });
    lemma_calls(d, Op::MoveFiles { infohash, new_location: one });
    lemma_calls(d, Op::Pause { infohash });
    lemma_calls(d, Op::Resume { infohash });
    lemma_calls(d, Op::Remove { infohash, delete_files });
    lemma_calls(d, Op::CheckConnection);
}

/// A request that is refused for want of a session identifier is sent once more: the same call,
/// with the identifier that the refusal gave.
pub proof fn law_refused_request_is_sent_with_its_session(
    d: TransmissionView,
    op: Op,
    id: String,
    error: String,
)
    requires
        id@.len() > 0,
    ensures
        ({
            let reply = HttpReply::Failed { status: Some(409), session_id: Some(id), error };
            let known = TransmissionView { session_id: Some(id@), ..d };
            &&& first_step(d, op) matches NextView::Call { call, stage }
            &&& next_step(d, stage, reply) matches NextView::Call { call: again, stage: last }
            &&& again.body == call.body
            &&& again.url == call.url
            &&& calls(known, again, method_of(op), params_of(op))
            &&& last.op == op
            &&& client_after(d, stage, reply) == known
            &&& next_step(known, last, reply) is Done
        }),
{
    lemma_calls(d, op);
    lemma_calls(TransmissionView { session_id: Some(id@), ..d }, op);
}

/// The state of a torrent as Transmission numbers it; -1 where it gives none.
pub open spec fn number_of_state(torrent: Json) -> int {
    match json::signed_of(json::member(torrent, "status"@)) {
        Some(n) => n as int,
        None => -1,
    }
}

/// All data of a torrent is there: the part that is done is 1 or more.
pub open spec fn is_full(torrent: Json) -> bool {
    match json::number_of(json::member(torrent, "percent_done"@)) {
        Some(Number::Unsigned(n)) => n > 0,
        Some(Number::Double(bits)) => 0x3ff0_0000_0000_0000 <= bits <= 0x7ff0_0000_0000_0000,
        _ => false,
    }
}

/// The infohash of a torrent that is full and either stopped (0) or seeding (6), if it has one.
pub open spec fn full_hash() -> spec_fn(Json) -> Option<Seq<char>> {
    |t: Json|
        if is_full(t) && (number_of_state(t) == 0 || number_of_state(t) == 6) {
            json::text_of(json::member(t, "hash_string"@))
        } else {
            None
        }
}

/// The infohash of a torrent that is stopped (0) with a local error (3 or more), if it has one.
pub open spec fn broken_hash() -> spec_fn(Json) -> Option<Seq<char>> {
    |t: Json|
        if number_of_state(t) == 0 && (json::signed_of(json::member(t, "error"@)) matches Some(e)
            && e >= 3) {
            json::text_of(json::member(t, "hash_string"@))
        } else {
            None
        }
}

/// A poll for completed downloads asks for all torrents with their states and progress. It reports
/// the infohash of every one that is full and stopped or seeding, in the order of the list, and no
/// other.
pub proof fn law_completed_torrents_are_reported(
    d: TransmissionView,
    reply: HttpReply,
    body: Json,
    v: Json,
    torrents: Vec<Json>,
)
    requires
        downloader::gives(reply, body, v),
        json::member(v, "torrents"@) == Some(Json::List(torrents)),
    ensures
        ({
            &&& first_step(d, Op::PollCompleted) matches NextView::Call { call, stage }
            &&& exists|params: Seq<(Seq<char>, JsonView)>|
                #[trigger] calls(d, call, "torrent_get"@, params) && params.len() == 1 && asks_for(
                    params,
                    "hash_string"@,
                ) && asks_for(params, "status"@) && asks_for(params, "percent_done"@)
            &&& next_step(d, stage, reply) matches NextView::Done(Ok(answer))
            &&& answer is Tasks
            &&& json::are_those_given(answer->Tasks_0, torrents@, full_hash())
        }),
{
    let op = Op::PollCompleted;
    lemma_calls(d, op);
    let list = params_of(op)[0].1->List_0;
    assert(list[1] == JsonView::Text("hash_string"@));
    assert(list[2] == JsonView::Text("status"@));
    assert(list[3] == JsonView::Text("percent_done"@));
    let f = |t: Json| completed_hash(t);
    assert forall|t: Json| #[trigger] f(t) == full_hash()(t) by {
    }
    assert(f =~= full_hash());
    json::law_collected_in_order(torrents@, f);
}

/// A poll for failed downloads asks for all torrents with their states and errors. It reports the
/// infohash of every one that is stopped with a local error, in the order of the list, and no
/// other.
pub proof fn law_failed_torrents_are_reported(
    d: TransmissionView,
    reply: HttpReply,
    body: Json,
    v: Json,
    torrents: Vec<Json>,
)
    requires
        downloader::gives(reply, body, v),
        json::member(v, "torrents"@) == Some(Json::List(torrents)),
    ensures
        ({
            &&& first_step(d, Op::PollFailed) matches NextView::Call { call, stage }
            &&& exists|params: Seq<(Seq<char>, JsonView)>|
                #[trigger] calls(d, call, "torrent_get"@, params) && params.len() == 1 && asks_for(
                    params,
                    "hash_string"@,
                ) && asks_for(params, "status"@) && asks_for(params, "error"@)
            &&& next_step(d, stage, reply) matches NextView::Done(Ok(answer))
            &&& answer is Tasks
            &&& json::are_those_given(answer->Tasks_0, torrents@, broken_hash())
        }),
{
    let op = Op::PollFailed;
    lemma_calls(d, op);
    let list = params_of(op)[0].1->List_0;
    assert(list[1] == JsonView::Text("hash_string"@));
    assert(list[2] == JsonView::Text("status"@));
    assert(list[3] == JsonView::Text("error"@));
    let f = |t: Json| failed_hash(t);
    assert forall|t: Json| #[trigger] f(t) == broken_hash()(t) by {
    }
    assert(f =~= broken_hash());
    json::law_collected_in_order(torrents@, f);
}

/// A query asks for all torrents with what is shown of them, and shows each that is listed, in the
/// order of the list: with its infohash, name, size, speed and progress as they are listed, and in
/// its state.
pub proof fn law_query_shows_every_torrent(
    d: TransmissionView,
    reply: HttpReply,
    body: Json,
    v: Json,
    torrents: Vec<Json>,
    i: int,
)
    requires
        downloader::gives(reply, body, v),
        json::member(v, "torrents"@) == Some(Json::List(torrents)),
        0 <= i < torrents@.len(),
    ensures
        ({
            &&& first_step(d, Op::QueryAll) matches NextView::Call { call, stage }
            &&& exists|params: Seq<(Seq<char>, JsonView)>|
                #[trigger] calls(d, call, "torrent_get"@, params) && params.len() == 1 && asks_for(
                    params,
                    "hash_string"@,
                ) && asks_for(params, "name"@) && asks_for(params, "status"@) && asks_for(
                    params,
                    "percent_done"@,
                ) && asks_for(params, "rate_download"@) && asks_for(params, "total_size"@)
            &&& next_step(d, stage, reply) matches NextView::Done(Ok(answer))
            &&& answer is Snapshots
            &&& answer->Snapshots_0.len() == torrents@.len()
            &&& is_shown(torrents@[i], answer->Snapshots_0[i])
        }),
{
    let op = Op::QueryAll;
    lemma_calls(d, op);
    let list = params_of(op)[0].1->List_0;
    assert(list[1] == JsonView::Text("hash_string"@));
    assert(list[2] == JsonView::Text("name"@));
    assert(list[3] == JsonView::Text("status"@));
    assert(list[4] == JsonView::Text("percent_done"@));
    assert(list[5] == JsonView::Text("rate_download"@));
    assert(list[6] == JsonView::Text("total_size"@));
}

/// A torrent is shown as it is listed: a stopped one (0) as completed if it is full and as paused
/// if it is not, one that waits to download or downloads (3, 4) as downloading, one that seeds (6)
/// as seeding, one that waits to be checked or is checked (1, 2) as checking, and no other so.
pub open spec fn is_shown(torrent: Json, shown: DownloadSnapshotView) -> bool {
    let n = number_of_state(torrent);
    &&& json::text_of(json::member(torrent, "hash_string"@)) matches Some(hash) ==> shown.infohash
        == hash
    &&& json::text_of(json::member(torrent, "name"@)) matches Some(name) ==> shown.name == name
    &&& json::unsigned_of(json::member(torrent, "total_size"@)) matches Some(size) ==> shown.size
        == size
    &&& json::unsigned_of(json::member(torrent, "rate_download"@)) matches Some(speed)
        ==> shown.speed == speed
    &&& json::number_of(json::member(torrent, "percent_done"@)) matches Some(part)
        ==> shown.progress == Progress::Reported(part)
    &&& shown.state == DownloadState::Completed <==> n == 0 && is_full(torrent)
    &&& shown.state == DownloadState::Paused <==> n == 0 && !is_full(torrent)
    &&& shown.state == DownloadState::Downloading <==> n == 3 || n == 4
    &&& shown.state == DownloadState::Seeding <==> n == 6
    &&& shown.state == DownloadState::Checking <==> n == 1 || n == 2
}

/// A torrent that was added is reported under the infohash that Transmission gives it; bytes of a
/// torrent that is there already are reported under its infohash, too. What is refused is not
/// reported as added.
pub proof fn law_added_torrent_is_reported(
    d: TransmissionView,
    uri: String,
    data: Vec<u8>,
    dir: String,
    retried: bool,
    reply: HttpReply,
    body: Json,
    v: Json,
    added: Json,
    hash: String,
)
    requires
        downloader::gives(reply, body, v),
        added is Object,
        json::member(added, "hash_string"@) == Some(Json::Text(hash)),
    ensures
        ({
            let link = next_step(d, Stage { op: Op::AddUri { uri, dir }, retried }, reply);
            let bytes = next_step(
                d,
                Stage { op: Op::AddTorrentBytes { data, dir }, retried },
                reply,
            );
            let told = NextView::<Stage>::Done(Ok(AnswerView::Infohash(hash@)));
            &&& json::member(v, "torrent_added"@) == Some(added) ==> link == told && bytes == told
            &&& json::member(v, "torrent_added"@) is None && json::member(v, "torrent_duplicate"@)
                == Some(added) ==> bytes == told
            &&& json::member(v, "torrent_added"@) is None ==> link is Done && link->Done_0 is Err
        }),
{
}

/// The files of a torrent are asked for under its infohash, and given as they are listed: each
/// with its path and the name that the path ends in. There are none of a torrent that is not
/// listed: that is a failure.
pub proof fn law_listed_files_are_given(
    d: TransmissionView,
    infohash: String,
    reply: HttpReply,
    body: Json,
    v: Json,
    torrents: Vec<Json>,
    entries: Vec<Json>,
)
    requires
        downloader::gives(reply, body, v),
        json::member(v, "torrents"@) == Some(Json::List(torrents)),
    ensures
        ({
            &&& first_step(d, Op::ListFiles { infohash }) matches NextView::Call { call, stage }
            &&& exists|params: Seq<(Seq<char>, JsonView)>|
                #[trigger] calls(d, call, "torrent_get"@, params) && params.len() == 2 && asks_for(
                    params,
                    "files"@,
                ) && params[1] == one_torrent(infohash@)
            &&& torrents@.len() == 0 ==> (next_step(d, stage, reply) matches NextView::Done(Err(_)))
            &&& torrents@.len() > 0 && json::member(torrents@[0], "files"@) == Some(
                Json::List(entries),
            ) ==> (next_step(d, stage, reply) matches NextView::Done(Ok(answer)) && answer is Files
                && downloader::is_file_list(answer->Files_0, entries@))
        }),
{
    let op = Op::ListFiles { infohash };
    lemma_calls(d, op);
    let list = params_of(op)[0].1->List_0;
    assert(list[1] == JsonView::Text("files"@));
    downloader::law_files_are_listed(entries@);
}

/// A change, or a check, worked if it is answered with a result, and failed if it is refused.
pub proof fn law_changes_work_if_they_are_answered(
    d: TransmissionView,
    op: Op,
    reply: HttpReply,
    body: Json,
    v: Json,
)
    requires
        op is RenameFile || op is MoveFiles || op is Pause || op is Resume || op is Remove
            || op is CheckConnection,
    ensures
        ({
            let after = next_step(d, Stage { op, retried: true }, reply);
            &&& downloader::gives(reply, body, v) && (op is RenameFile || op is MoveFiles) ==> after
                == NextView::<Stage>::Done(Ok(AnswerView::Changed(OpResult::Done)))
            &&& downloader::gives(reply, body, v) && !(op is RenameFile || op is MoveFiles)
                ==> after == NextView::<Stage>::Done(Ok(AnswerView::Done))
            &&& downloader::gives(reply, body, v) ==> after == next_step(
                d,
                Stage { op, retried: false },
                reply,
            )
            &&& downloader::refuses(reply, body) ==> after is Done && after->Done_0 is Err
        }),
{
}

} // verus!
