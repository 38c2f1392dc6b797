//! aria2: a JSON-RPC client.
//!
//! aria2 knows its tasks by GID. The GID of an infohash is looked up anew for every operation:
//! first among the active tasks, then page by page among the stopped ones.
use vstd::prelude::*;

use crate::downloader::{
    self, Answer, AnswerView, Call, CallView, HttpReply, Next, NextView, Op, OpResult, Payload,
    PayloadView, TorrentDownloader,
};
use crate::encode;
use crate::event;
use crate::handler;
use crate::json::{self, Json, JsonView, Member};
use crate::response::{self, Header};
use crate::text;
use crate::types::{
    CompletedDownload, DownloadSnapshot, DownloadSnapshotView, DownloadState, Number, Progress,
    TorrentFile, TorrentFileView,
};

verus! {

/// How many stopped tasks are asked for at once.
pub const PAGE: i32 = 1000;

/// How often the infohash of an added URI is asked for.
pub const STATUS_TRIES: u8 = 30;

/// Client of aria2's JSON-RPC API. It holds no state of its own.
#[derive(Debug)]
pub struct Aria2Downloader {
    rpc_url: String,
    secret: String,
}

#[verifier::ext_equal]
pub struct Aria2View {
    pub rpc_url: Seq<char>,
    pub secret: Seq<char>,
}

impl View for Aria2Downloader {
    type V = Aria2View;

    closed spec fn view(&self) -> Aria2View {
        Aria2View { rpc_url: self.rpc_url@, secret: self.secret@ }
    }
}

/// What is done with a task once its GID is known.
#[derive(Debug, Clone, Copy, PartialEq, Eq, Structural)]
pub enum Goal {
    ListFiles,
    Pause,
    Resume,
    Remove,
}

/// How far an operation has come: the call whose reply is awaited.
#[allow(inconsistent_fields)]
#[derive(Debug)]
pub enum Stage {
    AddUri,
    /// The infohash of an added URI was asked for `tries` times.
    UriStatus { gid: String, tries: u8 },
    AddBytes,
    BytesStatus,
    FindActive { goal: Goal, infohash: String },
    FindStopped { goal: Goal, infohash: String, offset: i32 },
    Act { goal: Goal, infohash: String, gid: String },
    /// A removed task is taken off the list of stopped tasks.
    Purge { infohash: String },
    CompletedStopped,
    CompletedActive { found: Vec<CompletedDownload> },
    FailedStopped,
    QueryActive,
    QueryStopped { found: Vec<DownloadSnapshot> },
    Version,
}

#[allow(inconsistent_fields)]
#[verifier::ext_equal]
pub enum StageView {
    AddUri,
    UriStatus { gid: Seq<char>, tries: u8 },
    AddBytes,
    BytesStatus,
    FindActive { goal: Goal, infohash: Seq<char> },
    FindStopped { goal: Goal, infohash: Seq<char>, offset: i32 },
    Act { goal: Goal, infohash: Seq<char>, gid: Seq<char> },
    Purge { infohash: Seq<char> },
    CompletedStopped,
    CompletedActive { found: Seq<Seq<char>> },
    FailedStopped,
    QueryActive,
    QueryStopped { found: Seq<DownloadSnapshotView> },
    Version,
}

impl View for Stage {
    type V = StageView;

    open spec fn view(&self) -> StageView {
        match self {
            Stage::AddUri => StageView::AddUri,
            Stage::UriStatus { gid, tries } => StageView::UriStatus { gid: gid@, tries: *tries },
            Stage::AddBytes => StageView::AddBytes,
            Stage::BytesStatus => StageView::BytesStatus,
            Stage::FindActive { goal, infohash } => StageView::FindActive {
                goal: *goal,
                infohash: infohash@,
            },
            Stage::FindStopped { goal, infohash, offset } => StageView::FindStopped {
                goal: *goal,
                infohash: infohash@,
                offset: *offset,
            },
            Stage::Act { goal, infohash, gid } => StageView::Act {
                goal: *goal,
                infohash: infohash@,
                gid: gid@,
            },
            Stage::Purge { infohash } => StageView::Purge { infohash: infohash@ },
            Stage::CompletedStopped => StageView::CompletedStopped,
            Stage::CompletedActive { found } => StageView::CompletedActive {
                found: downloader::task_views(found@),
            },
            Stage::FailedStopped => StageView::FailedStopped,
            Stage::QueryActive => StageView::QueryActive,
            Stage::QueryStopped { found } => StageView::QueryStopped {
                found: event::snapshot_views(found@),
            },
            Stage::Version => StageView::Version,
        }
    }
}

// ── Calls ──

/// A JSON-RPC request. The secret, where there is one, goes first among the parameters.
pub open spec fn rpc_payload(secret: Seq<char>, method: Seq<char>, params: Seq<JsonView>) -> JsonView {
    let all = if secret.len() == 0 {
        params
    } else {
        seq![JsonView::Text("token:"@ + secret)] + params
    };
    JsonView::Object(
        seq![
            ("jsonrpc"@, JsonView::Text("2.0"@)),
            ("id"@, JsonView::Text("1"@)),
            ("method"@, JsonView::Text("aria2."@ + method)),
            ("params"@, JsonView::List(all)),
        ],
    )
}

/// A JSON-RPC call.
pub open spec fn rpc_call(
    d: Aria2View,
    wait_ms: u64,
    method: Seq<char>,
    params: Seq<JsonView>,
) -> CallView {
    CallView {
        wait_ms,
        post: true,
        url: d.rpc_url,
        headers: seq![("Content-Type"@, "application/json"@)],
        body: PayloadView::Json(rpc_payload(d.secret, method, params)),
    }
}

/// The keys by which a GID is looked up.
pub open spec fn gid_keys() -> JsonView {
    json::text_list(seq!["gid"@, "infoHash"@])
}

/// The key of the infohash.
pub open spec fn hash_key() -> JsonView {
    json::text_list(seq!["infoHash"@])
}

/// The keys by which stopped tasks are judged.
pub open spec fn status_keys() -> JsonView {
    json::text_list(seq!["gid"@, "infoHash"@, "status"@])
}

/// The keys by which active tasks are judged.
pub open spec fn length_keys() -> JsonView {
    json::text_list(seq!["gid"@, "infoHash"@, "status"@, "totalLength"@, "completedLength"@])
}

/// The keys of a full query.
pub open spec fn query_keys() -> JsonView {
    json::text_list(
        seq![
            "gid"@,
            "infoHash"@,
            "status"@,
            "totalLength"@,
            "completedLength"@,
            "downloadSpeed"@,
            "bittorrent"@,
        ],
    )
}

/// The parameters that ask for stopped tasks.
pub open spec fn stopped_params(offset: i32, keys: JsonView) -> Seq<JsonView> {
    seq![
        JsonView::Number(json::integer(offset as i64)),
        JsonView::Number(json::integer(PAGE as i64)),
        keys,
    ]
}

/// The options that set a directory.
pub open spec fn dir_options(dir: Seq<char>) -> JsonView {
    JsonView::Object(seq![("dir"@, JsonView::Text(dir))])
}

fn keys(names: Vec<&'static str>) -> (r: Json)
    ensures
        r@ == json::text_list(text::str_views(names@)),
{
    Json::texts(&names)
}

fn make_gid_keys() -> (r: Json)
    ensures
        r@ == gid_keys(),
{
    let names = vec!["gid", "infoHash"];
    assert(text::str_views(names@) =~= seq!["gid"@, "infoHash"@]);
    keys(names)
}

fn make_hash_key() -> (r: Json)
    ensures
        r@ == hash_key(),
{
    let names = vec!["infoHash"];
    assert(text::str_views(names@) =~= seq!["infoHash"@]);
    keys(names)
}

fn make_status_keys() -> (r: Json)
    ensures
        r@ == status_keys(),
{
    let names = vec!["gid", "infoHash", "status"];
    assert(text::str_views(names@) =~= seq!["gid"@, "infoHash"@, "status"@]);
    keys(names)
}

fn make_length_keys() -> (r: Json)
    ensures
        r@ == length_keys(),
{
    let names = vec!["gid", "infoHash", "status", "totalLength", "completedLength"];
    assert(text::str_views(names@) =~= seq![
        "gid"@,
        "infoHash"@,
        "status"@,
        "totalLength"@,
        "completedLength"@,
    ]);
    keys(names)
}

fn make_query_keys() -> (r: Json)
    ensures
        r@ == query_keys(),
{
    let names = vec![
        "gid",
        "infoHash",
        "status",
        "totalLength",
        "completedLength",
        "downloadSpeed",
        "bittorrent",
    ];
    assert(text::str_views(names@) =~= seq![
        "gid"@,
        "infoHash"@,
        "status"@,
        "totalLength"@,
        "completedLength"@,
        "downloadSpeed"@,
        "bittorrent"@,
    ]);
    keys(names)
}

fn one(v: Json) -> (r: Vec<Json>)
    ensures
        json::json_views(r@) == seq![v@],
{
    let r = vec![v];
    assert(json::json_views(r@) =~= seq![v@]);
    r
}

fn stopped(offset: i32, keys: Json) -> (r: Vec<Json>)
    ensures
        json::json_views(r@) == stopped_params(offset, keys@),
{
    let r = vec![Json::integer(offset as i64), Json::integer(PAGE as i64), keys];
    assert(json::json_views(r@) =~= stopped_params(offset, keys@));
    r
}

fn options(dir: &str) -> (r: Json)
    ensures
        r@ == dir_options(dir@),
{
    let members = vec![Member::new("dir", Json::text(dir))];
    assert(json::member_views(members@) =~= seq![("dir"@, JsonView::Text(dir@))]);
    Json::object(members)
}

impl Aria2Downloader {
    /// A client of the RPC interface at a URL, with the secret that it asks for.
    pub fn with_rpc_url(rpc_url: String, secret: String) -> (r: Self)
        ensures
            r@ == (Aria2View { rpc_url: rpc_url@, secret: secret@ }),
    {
        Aria2Downloader { rpc_url, secret }
    }

    /// Builds a JSON-RPC call.
    pub fn rpc(&self, wait_ms: u64, method: &str, params: Vec<Json>) -> (r: Call)
        ensures
            r@ == rpc_call(self@, wait_ms, method@, json::json_views(params@)),
    {
        let ghost given = json::json_views(params@);
        let mut rest = params;
        let mut all: Vec<Json> = Vec::new();
        if !self.secret.as_str().is_empty() {
            all.push(Json::text(&text::join2("token:", &self.secret)));
        }
        let ghost head = json::json_views(all@);
        let ghost tail = rest@;
        all.append(&mut rest);
        proof {
            assert(json::json_views(all@) =~= head + given);
            if self@.secret.len() == 0 {
                assert(head + given =~= given);
            } else {
                assert(head =~= seq![JsonView::Text("token:"@ + self@.secret)]);
            }
        }
        let members = vec![
            Member::new("jsonrpc", Json::text("2.0")),
            Member::new("id", Json::text("1")),
            Member::new("method", Json::text(&text::join2("aria2.", method))),
            Member::new("params", Json::list(all)),
        ];
        assert(json::member_views(members@) =~= rpc_payload(
            self@.secret,
            method@,
            given,
        )->Object_0);
        let headers: Vec<Header> = vec![
            downloader::header("Content-Type", "application/json".to_owned()),
        ];
        assert(response::header_views(headers@) =~= seq![
            ("Content-Type"@, "application/json"@),
        ]);
        Call {
            wait_ms,
            post: true,
            url: self.rpc_url.clone(),
            headers,
            body: Payload::Json(Json::object(members)),
        }
    }
}

// ── GID lookup ──

/// The infohash and GID of a task, where it has both.
pub open spec fn gid_pair(task: Json) -> Option<(Seq<char>, Seq<char>)> {
    match (
        json::text_of(json::member(task, "infoHash"@)),
        json::text_of(json::member(task, "gid"@)),
    ) {
        (Some(infohash), Some(gid)) => Some((infohash, gid)),
        _ => None,
    }
}

/// The infohashes and GIDs of tasks.
pub open spec fn gid_pairs(tasks: Seq<Json>) -> Seq<(Seq<char>, Seq<char>)> {
    json::collected(tasks, |t: Json| gid_pair(t))
}

/// A task that is known by its infohash and its GID.
#[derive(Debug)]
struct GidPair {
    infohash: String,
    gid: String,
}

spec fn pair_views(pairs: Seq<GidPair>) -> Seq<(Seq<char>, Seq<char>)> {
    Seq::new(pairs.len(), |i: int| (pairs[i].infohash@, pairs[i].gid@))
}

fn read_pairs(tasks: Option<&Vec<Json>>) -> (r: Vec<GidPair>)
    ensures
        pair_views(r@) == gid_pairs(
            match tasks {
                Some(t) => t@,
                None => seq![],
            },
        ),
{
    let mut out: Vec<GidPair> = Vec::new();
    assert(pair_views(out@) =~= gid_pairs(Seq::<Json>::empty()));
    let items = match tasks {
        Some(t) => t,
        None => {
            return out;
        },
    };
    let ghost all = items@;
    let mut i: usize = 0;
    assert(all.take(0) =~= Seq::<Json>::empty());
    while i < items.len()
        invariant
            i <= items@.len(),
            all == items@,
            pair_views(out@) == gid_pairs(all.take(i as int)),
        decreases items@.len() - i,
    {
        let ghost before = pair_views(out@);
        assert(all.take(i + 1).drop_last() =~= all.take(i as int));
        let task = &items[i];
        if let Some(infohash) = task.text_at("infoHash") {
            if let Some(gid) = task.text_at("gid") {
                out.push(GidPair { infohash: infohash.to_owned(), gid: gid.to_owned() });
                assert(pair_views(out@) =~= before.push((infohash@, gid@)));
            }
        }
        i = i + 1;
    }
    assert(all.take(all.len() as int) =~= all);
    out
}

/// The GID of the first task with an infohash.
pub open spec fn first_gid(pairs: Seq<(Seq<char>, Seq<char>)>, infohash: Seq<char>) -> Option<
    Seq<char>,
>
    decreases pairs.len(),
{
    if pairs.len() == 0 {
        None
    } else if pairs[0].0 == infohash {
        Some(pairs[0].1)
    } else {
        first_gid(pairs.skip(1), infohash)
    }
}

/// The GID of the last task with an infohash.
pub open spec fn last_gid(pairs: Seq<(Seq<char>, Seq<char>)>, infohash: Seq<char>) -> Option<
    Seq<char>,
>
    decreases pairs.len(),
{
    if pairs.len() == 0 {
        None
    } else if pairs.last().0 == infohash {
        Some(pairs.last().1)
    } else {
        last_gid(pairs.drop_last(), infohash)
    }
}

/// Whether some task has an infohash.
pub open spec fn has_hash(pairs: Seq<(Seq<char>, Seq<char>)>, infohash: Seq<char>) -> bool {
    exists|i: int| 0 <= i < pairs.len() && (#[trigger] pairs[i]).0 == infohash
}

/// How many infohashes tasks have.
pub open spec fn distinct_hashes(pairs: Seq<(Seq<char>, Seq<char>)>) -> nat
    decreases pairs.len(),
{
    if pairs.len() == 0 {
        0
    } else {
        distinct_hashes(pairs.drop_last()) + if has_hash(pairs.drop_last(), pairs.last().0) {
            0nat
        } else {
            1nat
        }
    }
}

fn find_first(pairs: &Vec<GidPair>, infohash: &str) -> (r: Option<String>)
    ensures
        text::opt(r) == first_gid(pair_views(pairs@), infohash@),
{
    let ghost all = pair_views(pairs@);
    let mut i: usize = 0;
    assert(all.skip(0) =~= all);
    while i < pairs.len()
        invariant
            i <= pairs@.len(),
            all == pair_views(pairs@),
            first_gid(all, infohash@) == first_gid(all.skip(i as int), infohash@),
        decreases pairs@.len() - i,
    {
        if *pairs[i].infohash.as_str() == *infohash {
            return Some(pairs[i].gid.clone());
        }
        assert(all.skip(i as int).skip(1) =~= all.skip(i + 1));
        i = i + 1;
    }
    None
}

fn find_last(pairs: &Vec<GidPair>, infohash: &str) -> (r: Option<String>)
    ensures
        text::opt(r) == last_gid(pair_views(pairs@), infohash@),
{
    let ghost all = pair_views(pairs@);
    let mut i: usize = pairs.len();
    assert(all.take(all.len() as int) =~= all);
    while i > 0
        invariant
            i <= pairs@.len(),
            all == pair_views(pairs@),
            last_gid(all, infohash@) == last_gid(all.take(i as int), infohash@),
        decreases i,
    {
        i = i - 1;
        if *pairs[i].infohash.as_str() == *infohash {
            return Some(pairs[i].gid.clone());
        }
        assert(all.take(i + 1).drop_last() =~= all.take(i as int));
    }
    None
}

fn count_distinct(pairs: &Vec<GidPair>) -> (r: usize)
    ensures
        r == distinct_hashes(pair_views(pairs@)),
{
    let ghost all = pair_views(pairs@);
    let mut n: usize = 0;
    let mut i: usize = 0;
    while i < pairs.len()
        invariant
            i <= pairs@.len(),
            n <= i,
            all == pair_views(pairs@),
            n == distinct_hashes(all.take(i as int)),
        decreases pairs@.len() - i,
    {
        let ghost seen = all.take(i as int);
        assert(all.take(i + 1).drop_last() =~= seen);
        let mut known = false;
        let mut k: usize = 0;
        while k < i
            invariant
                k <= i < pairs@.len(),
                all == pair_views(pairs@),
                seen == all.take(i as int),
                known == exists|j: int| 0 <= j < k && (#[trigger] seen[j]).0 == all[i as int].0,
            decreases i - k,
        {
            if *pairs[k].infohash.as_str() == *pairs[i].infohash.as_str() {
                assert(seen[k as int].0 == all[i as int].0);
                known = true;
            }
            k = k + 1;
        }
        assert(known == has_hash(seen, all[i as int].0));
        if !known {
            n = n + 1;
        }
        i = i + 1;
    }
    assert(all.take(all.len() as int) =~= all);
    n
}

// ── Reading tasks ──

/// A number that aria2 writes as text; 0 where there is none.
pub open spec fn number_in(task: Json, key: Seq<char>) -> u64 {
    match json::text_of(json::member(task, key)) {
        Some(t) => match text::parsed_uint(t, u64::MAX as nat) {
            Some(n) => n as u64,
            None => 0,
        },
        None => 0,
    }
}

fn number_member(task: &Json, key: &str) -> (r: u64)
    ensures
        r == number_in(*task, key@),
{
    match task.text_at(key) {
        Some(t) => match text::parse_uint(t, u64::MAX) {
            Some(n) => n,
            None => 0,
        },
        None => 0,
    }
}

/// A file of a download; one without a file name is left out.
pub open spec fn file_of(entry: Json) -> Option<TorrentFileView> {
    match json::text_of(json::member(entry, "path"@)) {
        Some(path) => match handler::file_name(path) {
            Some(name) => Some(TorrentFileView { path, name }),
            None => None,
        },
        None => None,
    }
}

/// The files of a download.
pub open spec fn files_of(entries: Seq<Json>) -> Seq<TorrentFileView> {
    json::collected(entries, |e: Json| file_of(e))
}

fn read_files(entries: Option<&Vec<Json>>) -> (r: Vec<TorrentFile>)
    ensures
        handler::file_views(r@) == files_of(
            match entries {
                Some(e) => e@,
                None => seq![],
            },
        ),
{
    let mut out: Vec<TorrentFile> = Vec::new();
    assert(handler::file_views(out@) =~= files_of(Seq::<Json>::empty()));
    let items = match entries {
        Some(e) => e,
        None => {
            return out;
        },
    };
    let ghost all = items@;
    let mut i: usize = 0;
    assert(all.take(0) =~= Seq::<Json>::empty());
    while i < items.len()
        invariant
            i <= items@.len(),
            all == items@,
            handler::file_views(out@) == files_of(all.take(i as int)),
        decreases items@.len() - i,
    {
        let ghost before = handler::file_views(out@);
        assert(all.take(i + 1).drop_last() =~= all.take(i as int));
        if let Some(path) = items[i].text_at("path") {
            if let Some(name) = handler::path_file_name(path) {
                let file = TorrentFile { path: path.to_owned(), name };
                let ghost v = file@;
                out.push(file);
                assert(handler::file_views(out@) =~= before.push(v));
            }
        }
        i = i + 1;
    }
    assert(all.take(all.len() as int) =~= all);
    out
}

/// The infohash of a stopped task with a status.
pub open spec fn hash_if(task: Json, status: Seq<char>) -> Option<Seq<char>> {
    if json::text_of(json::member(task, "status"@)) == Some(status) {
        json::text_of(json::member(task, "infoHash"@))
    } else {
        None
    }
}

/// The infohashes of the stopped tasks with a status.
pub open spec fn hashes_with(tasks: Seq<Json>, status: Seq<char>) -> Seq<Seq<char>> {
    json::collected(tasks, |t: Json| hash_if(t, status))
}

fn read_hashes(tasks: Option<&Vec<Json>>, status: &str) -> (r: Vec<CompletedDownload>)
    ensures
        downloader::task_views(r@) == hashes_with(
            match tasks {
                Some(t) => t@,
                None => seq![],
            },
            status@,
        ),
{
    let mut out: Vec<CompletedDownload> = Vec::new();
    assert(downloader::task_views(out@) =~= hashes_with(Seq::<Json>::empty(), status@));
    let items = match tasks {
        Some(t) => t,
        None => {
            return out;
        },
    };
    let ghost all = items@;
    let mut i: usize = 0;
    assert(all.take(0) =~= Seq::<Json>::empty());
    while i < items.len()
        invariant
            i <= items@.len(),
            all == items@,
            downloader::task_views(out@) == hashes_with(all.take(i as int), status@),
        decreases items@.len() - i,
    {
        let ghost before = downloader::task_views(out@);
        assert(all.take(i + 1).drop_last() =~= all.take(i as int));
        let task = &items[i];
        let fits = match task.text_at("status") {
            Some(s) => *s == *status,
            None => false,
        };
        if fits {
            if let Some(infohash) = task.text_at("infoHash") {
                out.push(CompletedDownload { infohash: infohash.to_owned() });
                assert(downloader::task_views(out@) =~= before.push(infohash@));
            }
        }
        i = i + 1;
    }
    assert(all.take(all.len() as int) =~= all);
    out
}

/// The infohash of an active task that holds all its bytes and only seeds.
pub open spec fn seeding_hash(task: Json) -> Option<Seq<char>> {
    let total = number_in(task, "totalLength"@);
    if total > 0 && number_in(task, "completedLength"@) >= total {
        json::text_of(json::member(task, "infoHash"@))
    } else {
        None
    }
}

/// The infohashes of the active tasks that only seed.
pub open spec fn seeding_hashes(tasks: Seq<Json>) -> Seq<Seq<char>> {
    json::collected(tasks, |t: Json| seeding_hash(t))
}

fn add_seeding(found: Vec<CompletedDownload>, tasks: Option<&Vec<Json>>) -> (r: Vec<
    CompletedDownload,
>)
    ensures
        downloader::task_views(r@) == downloader::task_views(found@) + seeding_hashes(
            match tasks {
                Some(t) => t@,
                None => seq![],
            },
        ),
{
    let ghost first = downloader::task_views(found@);
    let mut out = found;
    assert(first =~= first + seeding_hashes(Seq::<Json>::empty()));
    let items = match tasks {
        Some(t) => t,
        None => {
            return out;
        },
    };
    let ghost all = items@;
    let mut i: usize = 0;
    assert(all.take(0) =~= Seq::<Json>::empty());
    while i < items.len()
        invariant
            i <= items@.len(),
            all == items@,
            downloader::task_views(out@) == first + seeding_hashes(all.take(i as int)),
        decreases items@.len() - i,
    {
        let ghost before = downloader::task_views(out@);
        let ghost part = seeding_hashes(all.take(i as int));
        assert(all.take(i + 1).drop_last() =~= all.take(i as int));
        let task = &items[i];
        let total: u64 = number_member(task, "totalLength");
        let done: u64 = number_member(task, "completedLength");
        if total > 0 && done >= total {
            if let Some(infohash) = task.text_at("infoHash") {
                out.push(CompletedDownload { infohash: infohash.to_owned() });
                assert(downloader::task_views(out@) =~= before.push(infohash@));
                assert(first + part.push(infohash@) =~= (first + part).push(infohash@));
            }
        }
        i = i + 1;
    }
    assert(all.take(all.len() as int) =~= all);
    out
}

/// The state of a task; `None` for a status that is not known.
pub open spec fn state_of(status: Seq<char>, done: u64, total: u64) -> Option<DownloadState> {
    if status == "complete"@ {
        Some(DownloadState::Completed)
    } else if status == "active"@ {
        if done >= total && total > 0 {
            Some(DownloadState::Seeding)
        } else {
            Some(DownloadState::Downloading)
        }
    } else if status == "waiting"@ {
        Some(DownloadState::Waiting)
    } else if status == "paused"@ {
        Some(DownloadState::Paused)
    } else if status == "error"@ {
        Some(DownloadState::Failed)
    } else if status == "removed"@ {
        Some(DownloadState::Removed)
    } else {
        None
    }
}

fn read_state(status: &str, done: u64, total: u64) -> (r: Option<DownloadState>)
    ensures
        r == state_of(status@, done, total),
{
    if *status == *"complete" {
        Some(DownloadState::Completed)
    } else if *status == *"active" {
        if done >= total && total > 0 {
            Some(DownloadState::Seeding)
        } else {
            Some(DownloadState::Downloading)
        }
    } else if *status == *"waiting" {
        Some(DownloadState::Waiting)
    } else if *status == *"paused" {
        Some(DownloadState::Paused)
    } else if *status == *"error" {
        Some(DownloadState::Failed)
    } else if *status == *"removed" {
        Some(DownloadState::Removed)
    } else {
        None
    }
}

/// The name in the metadata of a torrent.
pub open spec fn torrent_name(task: Json) -> Option<Seq<char>> {
    match json::member(task, "bittorrent"@) {
        Some(bt) => match json::member(bt, "info"@) {
            Some(info) => json::text_of(json::member(info, "name"@)),
            None => None,
        },
        None => None,
    }
}

fn read_name(task: &Json) -> (r: Option<&str>)
    ensures
        text::opt_str(r) == torrent_name(*task),
{
    match task.get("bittorrent") {
        Some(bt) => match bt.get("info") {
            Some(info) => info.text_at("name"),
            None => None,
        },
        None => None,
    }
}

/// The snapshot of a task. One without an infohash or with an unknown status is left out; one
/// without a name goes by its GID.
pub open spec fn snapshot_of(task: Json) -> Option<DownloadSnapshotView> {
    let infohash = downloader::text_in(task, "infoHash"@);
    let total = number_in(task, "totalLength"@);
    let done = number_in(task, "completedLength"@);
    match state_of(downloader::text_in(task, "status"@), done, total) {
        Some(state) => if infohash.len() == 0 {
            None
        } else {
            Some(
                DownloadSnapshotView {
                    infohash,
                    state,
                    progress: Progress::Fraction { done, total },
                    speed: number_in(task, "downloadSpeed"@),
                    size: total,
                    name: match torrent_name(task) {
                        Some(name) => name,
                        None => downloader::text_in(task, "gid"@),
                    },
                },
            )
        },
        None => None,
    }
}

/// The snapshots of tasks.
pub open spec fn snapshots_of(tasks: Seq<Json>) -> Seq<DownloadSnapshotView> {
    json::collected(tasks, |t: Json| snapshot_of(t))
}

fn read_snapshot(task: &Json) -> (r: Option<DownloadSnapshot>)
    ensures
        (match r {
            Some(s) => Some(s@),
            None => None,
        }) == snapshot_of(*task),
{
    let infohash = downloader::text_member(task, "infoHash");
    if infohash.as_str().is_empty() {
        return None;
    }
    let total: u64 = number_member(task, "totalLength");
    let done: u64 = number_member(task, "completedLength");
    let status = downloader::text_member(task, "status");
    let state = match read_state(&status, done, total) {
        Some(s) => s,
        None => {
            return None;
        },
    };
    let name = match read_name(task) {
        Some(n) => n.to_owned(),
        None => downloader::text_member(task, "gid"),
    };
    Some(
        DownloadSnapshot {
            infohash,
            state,
            progress: Progress::Fraction { done, total },
            speed: number_member(task, "downloadSpeed"),
            size: total,
            name,
        },
    )
}

fn add_snapshots(found: Vec<DownloadSnapshot>, tasks: Option<&Vec<Json>>) -> (r: Vec<
    DownloadSnapshot,
>)
    ensures
        event::snapshot_views(r@) == event::snapshot_views(found@) + snapshots_of(
            match tasks {
                Some(t) => t@,
                None => seq![],
            },
        ),
{
    let ghost first = event::snapshot_views(found@);
    let mut out = found;
    assert(first =~= first + snapshots_of(Seq::<Json>::empty()));
    let items = match tasks {
        Some(t) => t,
        None => {
            return out;
        },
    };
    let ghost all = items@;
    let mut i: usize = 0;
    assert(all.take(0) =~= Seq::<Json>::empty());
    while i < items.len()
        invariant
            i <= items@.len(),
            all == items@,
            event::snapshot_views(out@) == first + snapshots_of(all.take(i as int)),
        decreases items@.len() - i,
    {
        let ghost before = event::snapshot_views(out@);
        let ghost part = snapshots_of(all.take(i as int));
        assert(all.take(i + 1).drop_last() =~= all.take(i as int));
        if let Some(snapshot) = read_snapshot(&items[i]) {
            let ghost v = snapshot@;
            out.push(snapshot);
            assert(event::snapshot_views(out@) =~= before.push(v));
            assert(first + part.push(v) =~= (first + part).push(v));
        }
        i = i + 1;
    }
    assert(all.take(all.len() as int) =~= all);
    out
}

// ── Operations ──

/// An operation that failed.
pub open spec fn failed(error: Seq<char>) -> NextView<StageView> {
    NextView::Done(Err(error))
}

/// An operation that is over.
pub open spec fn finished(answer: AnswerView) -> NextView<StageView> {
    NextView::Done(Ok(answer))
}

/// The next call of an operation.
pub open spec fn calling(
    d: Aria2View,
    wait_ms: u64,
    method: Seq<char>,
    params: Seq<JsonView>,
    stage: StageView,
) -> NextView<StageView> {
    NextView::Call { call: rpc_call(d, wait_ms, method, params), stage }
}

/// The start of a GID lookup: the active tasks are asked for.
pub open spec fn look_up(d: Aria2View, goal: Goal, infohash: Seq<char>) -> NextView<StageView> {
    calling(d, 0, "tellActive"@, seq![gid_keys()], StageView::FindActive { goal, infohash })
}

/// The next page of a GID lookup.
pub open spec fn next_page(d: Aria2View, goal: Goal, infohash: Seq<char>, offset: i32) -> NextView<
    StageView,
> {
    calling(
        d,
        0,
        "tellStopped"@,
        stopped_params(offset, gid_keys()),
        StageView::FindStopped { goal, infohash, offset },
    )
}

/// The method that a goal comes down to.
pub open spec fn method_of(goal: Goal) -> Seq<char> {
    match goal {
        Goal::ListFiles => "getFiles"@,
        Goal::Pause => "forcePause"@,
        Goal::Resume => "unpause"@,
        Goal::Remove => "remove"@,
    }
}

/// The call of a goal once the GID is known.
pub open spec fn act(d: Aria2View, goal: Goal, infohash: Seq<char>, gid: Seq<char>) -> NextView<
    StageView,
> {
    calling(
        d,
        0,
        method_of(goal),
        seq![JsonView::Text(gid)],
        StageView::Act { goal, infohash, gid },
    )
}

/// The question for the infohash of a task.
pub open spec fn ask_status(d: Aria2View, wait_ms: u64, gid: Seq<char>, stage: StageView) -> NextView<
    StageView,
> {
    calling(d, wait_ms, "tellStatus"@, seq![JsonView::Text(gid), hash_key()], stage)
}

/// The first call of an operation. aria2 can neither rename nor move files.
pub open spec fn first_step(d: Aria2View, op: Op) -> NextView<StageView> {
    match op {
        Op::AddUri { uri, dir } => calling(
            d,
            0,
            "addUri"@,
            seq![json::text_list(seq![uri@]), dir_options(dir@)],
            StageView::AddUri,
        ),
        Op::AddTorrentBytes { data, dir } => calling(
            d,
            0,
            "addTorrent"@,
            seq![
                JsonView::Text(encode::base64_text(data@)),
                JsonView::List(seq![]),
                dir_options(dir@),
            ],
            StageView::AddBytes,
        ),
        Op::ListFiles { infohash } => look_up(d, Goal::ListFiles, infohash@),
        Op::RenameFile { infohash, old_path, new_name } => finished(
            AnswerView::Changed(OpResult::Unsupported),
        ),
        Op::MoveFiles { infohash, new_location } => finished(
            AnswerView::Changed(OpResult::Unsupported),
        ),
        Op::Pause { infohash } => look_up(d, Goal::Pause, infohash@),
        Op::Resume { infohash } => look_up(d, Goal::Resume, infohash@),
        Op::Remove { infohash, delete_files } => look_up(d, Goal::Remove, infohash@),
        Op::PollCompleted => calling(
            d,
            0,
            "tellStopped"@,
            stopped_params((-1) as i32, status_keys()),
            StageView::CompletedStopped,
        ),
        Op::PollFailed => calling(
            d,
            0,
            "tellStopped"@,
            stopped_params((-1) as i32, status_keys()),
            StageView::FailedStopped,
        ),
        Op::QueryAll => calling(d, 0, "tellActive"@, seq![query_keys()], StageView::QueryActive),
        Op::CheckConnection => calling(d, 0, "getVersion"@, seq![], StageView::Version),
    }
}

/// The GID that a call which adds a torrent gave.
pub open spec fn added_gid(reply: HttpReply) -> Option<Seq<char>> {
    json::text_of(downloader::rpc_result(reply))
}

/// The infohash that the status of a task gives.
pub open spec fn status_hash(reply: HttpReply) -> Option<Seq<char>> {
    match downloader::rpc_result(reply) {
        Some(v) => json::text_of(json::member(v, "infoHash"@)),
        None => None,
    }
}

/// The tasks that a call listed.
pub open spec fn listed_tasks(reply: HttpReply) -> Seq<Json> {
    downloader::list_or_none(downloader::rpc_result(reply))
}

/// What follows the status of an added URI: its infohash, or up to 30 questions in all, a second
/// apart.
pub open spec fn after_status(d: Aria2View, gid: Seq<char>, tries: u8, reply: HttpReply) -> NextView<
    StageView,
> {
    match status_hash(reply) {
        Some(infohash) if infohash.len() > 0 => finished(AnswerView::Infohash(infohash)),
        _ => if tries < STATUS_TRIES {
            ask_status(
                d,
                1000,
                gid,
                StageView::UriStatus { gid, tries: (tries + 1) as u8 },
            )
        } else {
            failed(
                "aria2.addUri succeeded (gid="@ + gid
                    + ") but tellStatus returned no infoHash after 30 retries"@,
            )
        },
    }
}

/// What follows a page of stopped tasks: the goal if the infohash is among them, the next page
/// after a full one, and failure after the last.
pub open spec fn after_page(
    d: Aria2View,
    goal: Goal,
    infohash: Seq<char>,
    offset: i32,
    reply: HttpReply,
) -> NextView<StageView> {
    let pairs = gid_pairs(listed_tasks(reply));
    match last_gid(pairs, infohash) {
        Some(gid) => act(d, goal, infohash, gid),
        None => if distinct_hashes(pairs) < PAGE {
            failed("task not found in aria2: "@ + infohash)
        } else {
            next_page(d, goal, infohash, (offset + PAGE) as i32)
        },
    }
}

/// What a goal gave.
pub open spec fn after_act(
    d: Aria2View,
    goal: Goal,
    infohash: Seq<char>,
    gid: Seq<char>,
    reply: HttpReply,
) -> NextView<StageView> {
    let worked = downloader::rpc_result(reply) is Some;
    match goal {
        Goal::ListFiles => finished(AnswerView::Files(files_of(listed_tasks(reply)))),
        Goal::Pause => if worked {
            finished(AnswerView::Done)
        } else {
            failed("aria2: pause failed for "@ + infohash)
        },
        Goal::Resume => if worked {
            finished(AnswerView::Done)
        } else {
            failed("aria2: resume failed for "@ + infohash)
        },
        Goal::Remove => if worked {
            calling(
                d,
                0,
                "removeDownloadResult"@,
                seq![JsonView::Text(gid)],
                StageView::Purge { infohash },
            )
        } else {
            failed("aria2: remove failed for "@ + infohash)
        },
    }
}

/// What follows a reply.
pub open spec fn next_step(d: Aria2View, stage: StageView, reply: HttpReply) -> NextView<StageView> {
    match stage {
        StageView::AddUri => match added_gid(reply) {
            Some(gid) => ask_status(d, 0, gid, StageView::UriStatus { gid, tries: 1 }),
            None => failed("aria2.addUri returned no GID"@),
        },
        StageView::UriStatus { gid, tries } => after_status(d, gid, tries, reply),
        StageView::AddBytes => match added_gid(reply) {
            Some(gid) => ask_status(d, 0, gid, StageView::BytesStatus),
            None => failed("aria2.addTorrent returned no GID"@),
        },
        StageView::BytesStatus => finished(
            AnswerView::Infohash(
                match status_hash(reply) {
                    Some(infohash) => infohash,
                    None => seq![],
                },
            ),
        ),
        StageView::FindActive { goal, infohash } => match first_gid(
            gid_pairs(listed_tasks(reply)),
            infohash,
        ) {
            Some(gid) => act(d, goal, infohash, gid),
            None => next_page(d, goal, infohash, 0),
        },
        StageView::FindStopped { goal, infohash, offset } => after_page(
            d,
            goal,
            infohash,
            offset,
            reply,
        ),
        StageView::Act { goal, infohash, gid } => after_act(d, goal, infohash, gid, reply),
        StageView::Purge { infohash } => if downloader::rpc_result(reply) is Some {
            finished(AnswerView::Done)
        } else {
            failed("aria2: removeDownloadResult failed for "@ + infohash)
        },
        StageView::CompletedStopped => calling(
            d,
            0,
            "tellActive"@,
            seq![length_keys()],
            StageView::CompletedActive { found: hashes_with(listed_tasks(reply), "complete"@) },
        ),
        StageView::CompletedActive { found } => finished(
            AnswerView::Tasks(found + seeding_hashes(listed_tasks(reply))),
        ),
        StageView::FailedStopped => finished(
            AnswerView::Tasks(hashes_with(listed_tasks(reply), "error"@)),
        ),
        StageView::QueryActive => calling(
            d,
            0,
            "tellStopped"@,
            stopped_params((-1) as i32, query_keys()),
            StageView::QueryStopped { found: snapshots_of(listed_tasks(reply)) },
        ),
        StageView::QueryStopped { found } => finished(
            AnswerView::Snapshots(found + snapshots_of(listed_tasks(reply))),
        ),
        StageView::Version => if downloader::rpc_result(reply) is Some {
            finished(AnswerView::Done)
        } else {
            failed("aria2 not reachable or authentication failed"@)
        },
    }
}

fn tasks_in(reply: &HttpReply) -> (r: Option<&Vec<Json>>)
    ensures
        listed_tasks(*reply) == (match r {
            Some(t) => t@,
            None => seq![],
        }),
{
    match downloader::result_of(reply) {
        Some(Json::List(items)) => Some(items),
        _ => None,
    }
}

fn gid_in(reply: &HttpReply) -> (r: Option<String>)
    ensures
        text::opt(r) == added_gid(*reply),
{
    match downloader::result_of(reply) {
        Some(Json::Text(t)) => Some(t.clone()),
        _ => None,
    }
}

fn hash_in(reply: &HttpReply) -> (r: Option<String>)
    ensures
        text::opt(r) == status_hash(*reply),
{
    match downloader::result_of(reply) {
        Some(v) => match v.text_at("infoHash") {
            Some(t) => Some(t.to_owned()),
            None => None,
        },
        None => None,
    }
}

impl Aria2Downloader {
    fn call(&self, method: &str, params: Vec<Json>, stage: Stage) -> (r: Next<Stage>)
        ensures
            r@ == calling(self@, 0, method@, json::json_views(params@), stage@),
    {
        Next::Call { call: self.rpc(0, method, params), stage }
    }

    fn find(&self, goal: Goal, infohash: String) -> (r: Next<Stage>)
        ensures
            r@ == look_up(self@, goal, infohash@),
    {
        self.call("tellActive", one(make_gid_keys()), Stage::FindActive { goal, infohash })
    }

    fn turn_page(&self, goal: Goal, infohash: String, offset: i32) -> (r: Next<Stage>)
        ensures
            r@ == next_page(self@, goal, infohash@, offset),
    {
        self.call(
            "tellStopped",
            stopped(offset, make_gid_keys()),
            Stage::FindStopped { goal, infohash, offset },
        )
    }

    fn reach(&self, goal: Goal, infohash: String, gid: String) -> (r: Next<Stage>)
        ensures
            r@ == act(self@, goal, infohash@, gid@),
    {
        let method = match goal {
            Goal::ListFiles => "getFiles",
            Goal::Pause => "forcePause",
            Goal::Resume => "unpause",
            Goal::Remove => "remove",
        };
        let params = one(Json::text(&gid));
        self.call(method, params, Stage::Act { goal, infohash, gid })
    }

    fn ask(&self, wait_ms: u64, gid: &str, stage: Stage) -> (r: Next<Stage>)
        ensures
            r@ == ask_status(self@, wait_ms, gid@, stage@),
    {
        let params = vec![Json::text(gid), make_hash_key()];
        assert(json::json_views(params@) =~= seq![JsonView::Text(gid@), hash_key()]);
        Next::Call { call: self.rpc(wait_ms, "tellStatus", params), stage }
    }

    fn added(&self, gid: String, tries: u8, reply: &HttpReply) -> (r: Next<Stage>)
        ensures
            r@ == after_status(self@, gid@, tries, *reply),
    {
        if let Some(infohash) = hash_in(reply) {
            if !infohash.as_str().is_empty() {
                return Next::Done(Ok(Answer::Infohash(infohash)));
            }
        }
        if tries < STATUS_TRIES {
            let asked = gid.clone();
            self.ask(1000, &asked, Stage::UriStatus { gid, tries: tries + 1 })
        } else {
            let message = text::join3(
                "aria2.addUri succeeded (gid=",
                &gid,
                ") but tellStatus returned no infoHash after 30 retries",
            );
            Next::Done(Err(message))
        }
    }

    fn paged(&self, goal: Goal, infohash: String, offset: i32, reply: &HttpReply) -> (r: Next<
        Stage,
    >)
        requires
            offset <= i32::MAX - PAGE,
        ensures
            r@ == after_page(self@, goal, infohash@, offset, *reply),
    {
        let pairs = read_pairs(tasks_in(reply));
        if let Some(gid) = find_last(&pairs, &infohash) {
            return self.reach(goal, infohash, gid);
        }
        if count_distinct(&pairs) < PAGE as usize {
            downloader::error_for("task not found in aria2: ", &infohash)
        } else {
            self.turn_page(goal, infohash, offset + PAGE)
        }
    }

    fn acted(&self, goal: Goal, infohash: String, gid: String, reply: &HttpReply) -> (r: Next<
        Stage,
    >)
        ensures
            r@ == after_act(self@, goal, infohash@, gid@, *reply),
    {
        let worked = downloader::result_of(reply).is_some();
        match goal {
            Goal::ListFiles => Next::Done(Ok(Answer::Files(read_files(tasks_in(reply))))),
            Goal::Pause => if worked {
                Next::Done(Ok(Answer::Done))
            } else {
                downloader::error_for("aria2: pause failed for ", &infohash)
            },
            Goal::Resume => if worked {
                Next::Done(Ok(Answer::Done))
            } else {
                downloader::error_for("aria2: resume failed for ", &infohash)
            },
            Goal::Remove => if worked {
                self.call(
                    "removeDownloadResult",
                    one(Json::text(&gid)),
                    Stage::Purge { infohash },
                )
            } else {
                downloader::error_for("aria2: remove failed for ", &infohash)
            },
        }
    }
}

impl TorrentDownloader for Aria2Downloader {
    type Stage = Stage;

    open spec fn can_start(&self) -> bool {
        true
    }

    /// The number of stopped tasks that were passed over can go up by a page.
    open spec fn can_advance(&self, stage: Stage) -> bool {
        stage matches Stage::FindStopped { goal, infohash, offset } ==> offset <= i32::MAX - PAGE
    }

    fn is_ready(&self) -> (r: bool) {
        true
    }

    fn is_open(&self, stage: &Stage) -> (r: bool) {
        match stage {
            Stage::FindStopped { goal, infohash, offset } => *offset <= 2147483647 - PAGE,
            _ => true,
        }
    }

    fn start(&mut self, op: Op, stamp: u128) -> (r: Next<Stage>)
        ensures
            r@ == first_step(old(self)@, op),
            final(self)@ == old(self)@,
    {
        match op {
            Op::AddUri { uri, dir } => {
                let link = one(Json::text(&uri));
                let list = Json::list(link);
                assert(seq![JsonView::Text(uri@)] =~= json::text_list(seq![uri@])->List_0);
                let params = vec![list, options(&dir)];
                assert(json::json_views(params@) =~= seq![
                    json::text_list(seq![uri@]),
                    dir_options(dir@),
                ]);
                self.call("addUri", params, Stage::AddUri)
            },
            Op::AddTorrentBytes { data, dir } => {
                let none: Vec<Json> = Vec::new();
                assert(json::json_views(none@) =~= seq![]);
                let params = vec![
                    Json::text(&encode::base64_encode(data.as_slice())),
                    Json::list(none),
                    options(&dir),
                ];
                assert(json::json_views(params@) =~= seq![
                    JsonView::Text(encode::base64_text(data@)),
                    JsonView::List(seq![]),
                    dir_options(dir@),
                ]);
                self.call("addTorrent", params, Stage::AddBytes)
            },
            Op::ListFiles { infohash } => self.find(Goal::ListFiles, infohash),
            Op::RenameFile { infohash, old_path, new_name } => Next::Done(
                Ok(Answer::Changed(OpResult::Unsupported)),
            ),
            Op::MoveFiles { infohash, new_location } => Next::Done(
                Ok(Answer::Changed(OpResult::Unsupported)),
            ),
            Op::Pause { infohash } => self.find(Goal::Pause, infohash),
            Op::Resume { infohash } => self.find(Goal::Resume, infohash),
            Op::Remove { infohash, delete_files } => self.find(Goal::Remove, infohash),
            Op::PollCompleted => self.call(
                "tellStopped",
                stopped(-1, make_status_keys()),
                Stage::CompletedStopped,
            ),
            Op::PollFailed => self.call(
                "tellStopped",
                stopped(-1, make_status_keys()),
                Stage::FailedStopped,
            ),
            Op::QueryAll => self.call("tellActive", one(make_query_keys()), Stage::QueryActive),
            Op::CheckConnection => {
                let none: Vec<Json> = Vec::new();
                assert(json::json_views(none@) =~= seq![]);
                self.call("getVersion", none, Stage::Version)
            },
        }
    }

    fn advance(&mut self, stage: Stage, reply: HttpReply, now: u64) -> (r: Next<Stage>)
        ensures
            r@ == next_step(old(self)@, stage@, reply),
            final(self)@ == old(self)@,
    {
        match stage {
            Stage::AddUri => match gid_in(&reply) {
                Some(gid) => {
                    let asked = gid.clone();
                    self.ask(0, &asked, Stage::UriStatus { gid, tries: 1 })
                },
                None => downloader::error("aria2.addUri returned no GID"),
            },
            Stage::UriStatus { gid, tries } => self.added(gid, tries, &reply),
            Stage::AddBytes => match gid_in(&reply) {
                Some(gid) => self.ask(0, &gid, Stage::BytesStatus),
                None => downloader::error("aria2.addTorrent returned no GID"),
            },
            Stage::BytesStatus => {
                let infohash = match hash_in(&reply) {
                    Some(h) => h,
                    None => String::new(),
                };
                Next::Done(Ok(Answer::Infohash(infohash)))
            },
            Stage::FindActive { goal, infohash } => {
                let pairs = read_pairs(tasks_in(&reply));
                match find_first(&pairs, &infohash) {
                    Some(gid) => self.reach(goal, infohash, gid),
                    None => self.turn_page(goal, infohash, 0),
                }
            },
            Stage::FindStopped { goal, infohash, offset } => self.paged(
                goal,
                infohash,
                offset,
                &reply,
            ),
            Stage::Act { goal, infohash, gid } => self.acted(goal, infohash, gid, &reply),
            Stage::Purge { infohash } => if downloader::result_of(&reply).is_some() {
                Next::Done(Ok(Answer::Done))
            } else {
                downloader::error_for("aria2: removeDownloadResult failed for ", &infohash)
            },
            Stage::CompletedStopped => {
                let found = read_hashes(tasks_in(&reply), "complete");
                self.call(
                    "tellActive",
                    one(make_length_keys()),
                    Stage::CompletedActive { found },
                )
            },
            Stage::CompletedActive { found } => Next::Done(
                Ok(Answer::Tasks(add_seeding(found, tasks_in(&reply)))),
            ),
            Stage::FailedStopped => Next::Done(
                Ok(Answer::Tasks(read_hashes(tasks_in(&reply), "error"))),
            ),
            Stage::QueryActive => {
                let none: Vec<DownloadSnapshot> = Vec::new();
                let found = add_snapshots(none, tasks_in(&reply));
                assert(event::snapshot_views(found@) =~= snapshots_of(listed_tasks(reply)));
                self.call(
                    "tellStopped",
                    stopped(-1, make_query_keys()),
                    Stage::QueryStopped { found },
                )
            },
            Stage::QueryStopped { found } => Next::Done(
                Ok(Answer::Snapshots(add_snapshots(found, tasks_in(&reply)))),
            ),
            Stage::Version => if downloader::result_of(&reply).is_some() {
                Next::Done(Ok(Answer::Done))
            } else {
                downloader::error("aria2 not reachable or authentication failed")
            },
        }
    }
}

// ── Laws ──

/// A task that is listed is found, by the GID of a task with its infohash.
pub proof fn law_listed_task_is_found(pairs: Seq<(Seq<char>, Seq<char>)>, infohash: Seq<char>)
    ensures
        has_hash(pairs, infohash) <==> first_gid(pairs, infohash) is Some,
        has_hash(pairs, infohash) <==> last_gid(pairs, infohash) is Some,
        first_gid(pairs, infohash) matches Some(gid) ==> pairs.contains((infohash, gid)),
        last_gid(pairs, infohash) matches Some(gid) ==> pairs.contains((infohash, gid)),
    decreases pairs.len(),
{
    if pairs.len() > 0 {
        let tail = pairs.skip(1);
        let init = pairs.drop_last();
        law_listed_task_is_found(tail, infohash);
        law_listed_task_is_found(init, infohash);
        assert(pairs[0] == (pairs[0].0, pairs[0].1));
        assert(pairs[pairs.len() - 1] == (pairs.last().0, pairs.last().1));
        if has_hash(tail, infohash) {
            let i = choose|i: int| 0 <= i < tail.len() && (#[trigger] tail[i]).0 == infohash;
            assert(pairs[i + 1].0 == infohash);
        }
        if has_hash(init, infohash) {
            let i = choose|i: int| 0 <= i < init.len() && (#[trigger] init[i]).0 == infohash;
            assert(pairs[i].0 == infohash);
        }
        if has_hash(pairs, infohash) {
            let i = choose|i: int| 0 <= i < pairs.len() && (#[trigger] pairs[i]).0 == infohash;
            if i > 0 {
                assert(tail[i - 1].0 == infohash);
            }
            if i < pairs.len() - 1 {
                assert(init[i].0 == infohash);
            }
        }
        if let Some(gid) = first_gid(tail, infohash) {
            let i = choose|i: int| 0 <= i < tail.len() && tail[i] == (infohash, gid);
            assert(pairs[i + 1] == (infohash, gid));
        }
        if let Some(gid) = last_gid(init, infohash) {
            let i = choose|i: int| 0 <= i < init.len() && init[i] == (infohash, gid);
            assert(pairs[i] == (infohash, gid));
        }
    }
}

/// How far an operation is from its end.
pub open spec fn rank(stage: StageView) -> int {
    match stage {
        StageView::AddUri => 40,
        StageView::UriStatus { gid, tries } => if tries <= STATUS_TRIES {
            STATUS_TRIES - tries + 1
        } else {
            1
        },
        StageView::AddBytes => 2,
        StageView::FindActive { goal, infohash } => i32::MAX + 10,
        StageView::FindStopped { goal, infohash, offset } => i32::MAX - offset + 5,
        StageView::Act { goal, infohash, gid } => 3,
        StageView::Purge { infohash } => 2,
        StageView::CompletedStopped => 2,
        StageView::QueryActive => 2,
        _ => 1,
    }
}

/// Every operation comes to an end, whatever is replied: each call brings it nearer.
pub proof fn law_operations_end(d: Aria2View, stage: StageView, reply: HttpReply)
    requires
        stage matches StageView::FindStopped { goal, infohash, offset } ==> offset <= i32::MAX
            - PAGE,
    ensures
        next_step(d, stage, reply) matches NextView::Call { call, stage: next } ==> 0 < rank(next)
            < rank(stage),
{
}

/// A request calls a method of aria2 with parameters: the secret, if there is one, goes in front of
/// them.
pub open spec fn calls(
    d: Aria2View,
    call: CallView,
    method: Seq<char>,
    params: Seq<JsonView>,
) -> bool {
    &&& call.post
    &&& call.url == d.rpc_url
    &&& call.headers == seq![("Content-Type"@, "application/json"@)]
    &&& call.body == PayloadView::Json(
        JsonView::Object(
            seq![
                ("jsonrpc"@, JsonView::Text("2.0"@)),
                ("id"@, JsonView::Text("1"@)),
                ("method"@, JsonView::Text("aria2."@ + method)),
                (
                    "params"@,
                    JsonView::List(
                        if d.secret.len() == 0 {
                            params
                        } else {
                            seq![JsonView::Text("token:"@ + d.secret)] + params
                        },
                    ),
                ),
            ],
        ),
    )
}

/// The parameters that ask for up to a thousand stopped tasks from an offset on; from -1 on, the
/// newest come first.
pub open spec fn asks_for_stopped(params: Seq<JsonView>, offset: Number) -> bool {
    &&& params.len() == 3
    &&& params[0] == JsonView::Number(offset)
    &&& params[1] == JsonView::Number(Number::Unsigned(1000))
    &&& params[2] is List
}

/// A list of names holds a name.
pub open spec fn names_key(keys: JsonView, key: Seq<char>) -> bool {
    keys is List && keys->List_0.contains(JsonView::Text(key))
}

/// The infohash of a task with this status, if it has one.
pub open spec fn hash_with(status: Seq<char>) -> spec_fn(Json) -> Option<Seq<char>> {
    |t: Json|
        if json::text_of(json::member(t, "status"@)) == Some(status) {
            json::text_of(json::member(t, "infoHash"@))
        } else {
            None
        }
}

/// A number of bytes that a task is listed with in digits; 0 where there is none.
pub open spec fn bytes_in(task: Json, key: Seq<char>) -> nat {
    match json::text_of(json::member(task, key)) {
        Some(t) => match text::parsed_uint(t, 0xffff_ffff_ffff_ffff) {
            Some(n) => n,
            None => 0,
        },
        None => 0,
    }
}

/// The infohash of a task whose data is all there, if it has one.
pub open spec fn full_hash() -> spec_fn(Json) -> Option<Seq<char>> {
    |t: Json|
        if 0 < bytes_in(t, "totalLength"@) <= bytes_in(t, "completedLength"@) {
            json::text_of(json::member(t, "infoHash"@))
        } else {
            None
        }
}

proof fn lemma_key_lists()
    ensures
        names_key(status_keys(), "infoHash"@),
        names_key(status_keys(), "status"@),
        names_key(length_keys(), "infoHash"@),
        names_key(length_keys(), "totalLength"@),
        names_key(length_keys(), "completedLength"@),
        names_key(gid_keys(), "gid"@),
        names_key(gid_keys(), "infoHash"@),
        names_key(hash_key(), "infoHash"@),
        names_key(query_keys(), "gid"@),
        names_key(query_keys(), "infoHash"@),
        names_key(query_keys(), "status"@),
        names_key(query_keys(), "totalLength"@),
        names_key(query_keys(), "completedLength"@),
        names_key(query_keys(), "downloadSpeed"@),
        names_key(query_keys(), "bittorrent"@),
{
    assert(status_keys()->List_0[1] == JsonView::Text("infoHash"@));
    assert(status_keys()->List_0[2] == JsonView::Text("status"@));
    assert(length_keys()->List_0[1] == JsonView::Text("infoHash"@));
    assert(length_keys()->List_0[3] == JsonView::Text("totalLength"@));
    assert(length_keys()->List_0[4] == JsonView::Text("completedLength"@));
    assert(gid_keys()->List_0[0] == JsonView::Text("gid"@));
    assert(gid_keys()->List_0[1] == JsonView::Text("infoHash"@));
    assert(hash_key()->List_0[0] == JsonView::Text("infoHash"@));
    assert(query_keys()->List_0[0] == JsonView::Text("gid"@));
    assert(query_keys()->List_0[1] == JsonView::Text("infoHash"@));
    assert(query_keys()->List_0[2] == JsonView::Text("status"@));
    assert(query_keys()->List_0[3] == JsonView::Text("totalLength"@));
    assert(query_keys()->List_0[4] == JsonView::Text("completedLength"@));
    assert(query_keys()->List_0[5] == JsonView::Text("downloadSpeed"@));
    assert(query_keys()->List_0[6] == JsonView::Text("bittorrent"@));
}

proof fn lemma_hashes_with(tasks: Seq<Json>, status: Seq<char>)
    ensures
        json::are_those_given(hashes_with(tasks, status), tasks, hash_with(status)),
{
    let f = |t: Json| hash_if(t, status);
    assert(f =~= hash_with(status));
    json::law_collected_in_order(tasks, f);
}

proof fn lemma_full_hashes(tasks: Seq<Json>)
    ensures
        json::are_those_given(seeding_hashes(tasks), tasks, full_hash()),
{
    let f = |t: Json| seeding_hash(t);
    assert forall|t: Json| #[trigger] f(t) == full_hash()(t) by {
        assert(bytes_in(t, "totalLength"@) == number_in(t, "totalLength"@));
        assert(bytes_in(t, "completedLength"@) == number_in(t, "completedLength"@));
    }
    assert(f =~= full_hash());
    json::law_collected_in_order(tasks, f);
}

/// A poll for completed downloads asks aria2 for its stopped tasks, then for its active ones. It
/// reports the infohash of every stopped task that is complete, then of every active one whose
/// data is all there (it only seeds), each in the order of its list, and no other.
#[verifier::spinoff_prover]
#[verifier::rlimit(40)]
pub proof fn law_completed_tasks_are_reported(
    d: Aria2View,
    stopped_reply: HttpReply,
    stopped_body: Json,
    stopped: Vec<Json>,
    active_reply: HttpReply,
    active_body: Json,
    active: Vec<Json>,
)
    requires
        downloader::gives(stopped_reply, stopped_body, Json::List(stopped)),
        downloader::gives(active_reply, active_body, Json::List(active)),
    ensures
        ({
            &&& first_step(d, Op::PollCompleted) matches NextView::Call { call, stage }
            &&& exists|params: Seq<JsonView>|
                #[trigger] asks_for_stopped(params, Number::Negative((-1) as i64)) && calls(
                    d,
                    call,
                    "tellStopped"@,
                    params,
                ) && names_key(params[2], "infoHash"@) && names_key(params[2], "status"@)
            &&& next_step(d, stage, stopped_reply) matches NextView::Call {
                call: second,
                stage: waiting,
            }
            &&& exists|keys: JsonView|
                #[trigger] names_key(keys, "infoHash"@) && names_key(keys, "totalLength"@)
                    && names_key(keys, "completedLength"@) && calls(
                    d,
                    second,
                    "tellActive"@,
                    seq![keys],
                )
            &&& next_step(d, waiting, active_reply) matches NextView::Done(Ok(answer))
            &&& answer is Tasks
            &&& exists|complete: Seq<Seq<char>>, full: Seq<Seq<char>>|
                answer->Tasks_0 == #[trigger] (complete + full) && json::are_those_given(
                    complete,
                    stopped@,
                    hash_with("complete"@),
                ) && json::are_those_given(full, active@, full_hash())
        }),
{
    lemma_key_lists();
    let params = stopped_params((-1) as i32, status_keys());
    assert(asks_for_stopped(params, Number::Negative((-1) as i64)));
    let first = rpc_call(d, 0, "tellStopped"@, params);
    assert(calls(d, first, "tellStopped"@, params));
    let keys = length_keys();
    assert(calls(d, rpc_call(d, 0, "tellActive"@, seq![keys]), "tellActive"@, seq![keys]));
    assert(names_key(keys, "infoHash"@));
    lemma_hashes_with(stopped@, "complete"@);
    lemma_full_hashes(active@);
    let complete = hashes_with(stopped@, "complete"@);
    let full = seeding_hashes(active@);
    assert(complete + full == complete + full);
}

/// A poll for failed downloads asks aria2 for its stopped tasks, and reports the infohash of every
/// one with an error, in the order of the list, and no other.
pub proof fn law_failed_tasks_are_reported(
    d: Aria2View,
    reply: HttpReply,
    body: Json,
    stopped: Vec<Json>,
)
    requires
        downloader::gives(reply, body, Json::List(stopped)),
    ensures
        ({
            &&& first_step(d, Op::PollFailed) matches NextView::Call { call, stage }
            &&& exists|params: Seq<JsonView>|
                #[trigger] asks_for_stopped(params, Number::Negative((-1) as i64)) && calls(
                    d,
                    call,
                    "tellStopped"@,
                    params,
                ) && names_key(params[2], "infoHash"@) && names_key(params[2], "status"@)
            &&& next_step(d, stage, reply) matches NextView::Done(Ok(answer))
            &&& answer is Tasks
            &&& json::are_those_given(answer->Tasks_0, stopped@, hash_with("error"@))
        }),
{
    lemma_key_lists();
    let params = stopped_params((-1) as i32, status_keys());
    assert(asks_for_stopped(params, Number::Negative((-1) as i64)));
    assert(calls(d, rpc_call(d, 0, "tellStopped"@, params), "tellStopped"@, params));
    lemma_hashes_with(stopped@, "error"@);
}

/// A task is shown: with its infohash, its size and progress in bytes, its speed, and the name of
/// its torrent, or its GID where it has no name yet.
pub open spec fn is_shown(task: Json, shown: DownloadSnapshotView) -> bool {
    &&& json::text_of(json::member(task, "infoHash"@)) == Some(shown.infohash)
    &&& shown.infohash.len() > 0
    &&& shown.size == bytes_in(task, "totalLength"@)
    &&& shown.speed == bytes_in(task, "downloadSpeed"@)
    &&& shown.progress is Fraction
    &&& shown.progress->done == bytes_in(task, "completedLength"@)
    &&& shown.progress->total == bytes_in(task, "totalLength"@)
    &&& json::member(task, "bittorrent"@) is None ==> (json::text_of(
        json::member(task, "gid"@),
    ) matches Some(gid) ==> shown.name == gid)
    &&& json::member(task, "bittorrent"@) matches Some(torrent) ==> (json::member(
        torrent,
        "info"@,
    ) matches Some(info) ==> (json::text_of(json::member(info, "name"@)) matches Some(name)
        ==> shown.name == name))
    &&& json::text_of(json::member(task, "status"@)) matches Some(status) && {
        &&& shown.state == DownloadState::Completed <==> status == "complete"@
        &&& shown.state == DownloadState::Failed <==> status == "error"@
        &&& shown.state == DownloadState::Paused <==> status == "paused"@
        &&& shown.state == DownloadState::Waiting <==> status == "waiting"@
        &&& shown.state == DownloadState::Removed <==> status == "removed"@
        &&& shown.state == DownloadState::Seeding <==> status == "active"@ && 0 < bytes_in(
            task,
            "totalLength"@,
        ) <= bytes_in(task, "completedLength"@)
        &&& shown.state == DownloadState::Downloading <==> status == "active"@ && !(0 < bytes_in(
            task,
            "totalLength"@,
        ) <= bytes_in(task, "completedLength"@))
    }
}

proof fn lemma_statuses()
    ensures
        "complete"@ != "active"@,
        "complete"@ != "waiting"@,
        "complete"@ != "paused"@,
        "complete"@ != "error"@,
        "complete"@ != "removed"@,
        "active"@ != "waiting"@,
        "active"@ != "paused"@,
        "active"@ != "error"@,
        "active"@ != "removed"@,
        "waiting"@ != "paused"@,
        "waiting"@ != "error"@,
        "waiting"@ != "removed"@,
        "paused"@ != "error"@,
        "paused"@ != "removed"@,
        "error"@ != "removed"@,
        "complete"@.len() > 0,
        "active"@.len() > 0,
        "waiting"@.len() > 0,
        "paused"@.len() > 0,
        "error"@.len() > 0,
        "removed"@.len() > 0,
{
    reveal_strlit("complete");
    reveal_strlit("active");
    reveal_strlit("waiting");
    reveal_strlit("paused");
    reveal_strlit("error");
    reveal_strlit("removed");
    assert("complete"@[0] == 'c' && "active"@[0] == 'a' && "waiting"@[0] == 'w' && "paused"@[0]
        == 'p' && "error"@[0] == 'e' && "removed"@[0] == 'r');
}

/// Every task with an infohash and a status that aria2 knows is shown, as it is listed and in its
/// state.
pub proof fn law_tasks_are_shown_as_they_are(task: Json, status: Seq<char>)
    requires
        json::text_of(json::member(task, "status"@)) == Some(status),
        json::text_of(json::member(task, "infoHash"@)) matches Some(hash) && hash.len() > 0,
        status == "complete"@ || status == "active"@ || status == "waiting"@ || status
            == "paused"@ || status == "error"@ || status == "removed"@,
    ensures
        snapshot_of(task) is Some,
{
    lemma_statuses();
}

/// What is shown of a task is what it is listed with.
pub proof fn law_shown_tasks_are_listed(task: Json)
    ensures
        snapshot_of(task) matches Some(shown) ==> is_shown(task, shown),
{
    lemma_statuses();
    assert(bytes_in(task, "totalLength"@) == number_in(task, "totalLength"@));
    assert(bytes_in(task, "completedLength"@) == number_in(task, "completedLength"@));
    assert(bytes_in(task, "downloadSpeed"@) == number_in(task, "downloadSpeed"@));
}

/// A query asks for the active tasks, then for the stopped ones, and shows those of both lists, the
/// active ones first, each list in its order.
#[verifier::spinoff_prover]
#[verifier::rlimit(40)]
pub proof fn law_query_shows_both_lists(
    d: Aria2View,
    active_reply: HttpReply,
    active_body: Json,
    active: Vec<Json>,
    stopped_reply: HttpReply,
    stopped_body: Json,
    stopped: Vec<Json>,
)
    requires
        downloader::gives(active_reply, active_body, Json::List(active)),
        downloader::gives(stopped_reply, stopped_body, Json::List(stopped)),
    ensures
        ({
            &&& first_step(d, Op::QueryAll) matches NextView::Call { call, stage }
            &&& exists|keys: JsonView|
                #[trigger] calls(d, call, "tellActive"@, seq![keys]) && names_key(
                    keys,
                    "infoHash"@,
                ) && names_key(keys, "status"@) && names_key(keys, "totalLength"@) && names_key(
                    keys,
                    "completedLength"@,
                ) && names_key(keys, "downloadSpeed"@) && names_key(keys, "bittorrent"@)
                    && names_key(keys, "gid"@)
            &&& next_step(d, stage, active_reply) matches NextView::Call {
                call: second,
                stage: waiting,
            }
            &&& exists|params: Seq<JsonView>|
                #[trigger] asks_for_stopped(params, Number::Negative((-1) as i64)) && calls(
                    d,
                    second,
                    "tellStopped"@,
                    params,
                ) && names_key(params[2], "infoHash"@) && names_key(params[2], "status"@)
                    && names_key(params[2], "totalLength"@) && names_key(
                    params[2],
                    "completedLength"@,
                )
            &&& next_step(d, waiting, stopped_reply) matches NextView::Done(Ok(answer))
            &&& answer is Snapshots
            &&& exists|first: Seq<DownloadSnapshotView>, last: Seq<DownloadSnapshotView>|
                answer->Snapshots_0 == #[trigger] (first + last) && json::are_those_given(
                    first,
                    active@,
                    shown_task(),
                ) && json::are_those_given(last, stopped@, shown_task())
        }),
{
    lemma_key_lists();
    let keys = query_keys();
    assert(calls(d, rpc_call(d, 0, "tellActive"@, seq![keys]), "tellActive"@, seq![keys]));
    let params = stopped_params((-1) as i32, keys);
    assert(asks_for_stopped(params, Number::Negative((-1) as i64)));
    assert(calls(d, rpc_call(d, 0, "tellStopped"@, params), "tellStopped"@, params));
    let f = |t: Json| snapshot_of(t);
    assert(f =~= shown_task());
    json::law_collected_in_order(active@, f);
    json::law_collected_in_order(stopped@, f);
    let first = snapshots_of(active@);
    let last = snapshots_of(stopped@);
    assert(first + last == first + last);
}

/// What is shown of a task, if it is shown.
pub open spec fn shown_task() -> spec_fn(Json) -> Option<DownloadSnapshotView> {
    |t: Json| snapshot_of(t)
}

/// A link is added with the directory that it is to be saved in; the task that aria2 names is
/// asked for its infohash, which is reported, and asked again as long as it has none.
pub proof fn law_link_is_added(
    d: Aria2View,
    uri: String,
    dir: String,
    added_reply: HttpReply,
    added_body: Json,
    gid: String,
    status_reply: HttpReply,
    status_body: Json,
    status: Json,
    hash: String,
)
    requires
        downloader::gives(added_reply, added_body, Json::Text(gid)),
        downloader::gives(status_reply, status_body, status),
        json::member(status, "infoHash"@) == Some(Json::Text(hash)),
    ensures
        ({
            &&& first_step(d, Op::AddUri { uri, dir }) matches NextView::Call { call, stage }
            &&& calls(
                d,
                call,
                "addUri"@,
                seq![
                    JsonView::List(seq![JsonView::Text(uri@)]),
                    JsonView::Object(seq![("dir"@, JsonView::Text(dir@))]),
                ],
            )
            &&& next_step(d, stage, added_reply) matches NextView::Call {
                call: asked,
                stage: asking,
            }
            &&& asks_for_hash(d, asked, gid@)
            &&& hash@.len() > 0 ==> next_step(d, asking, status_reply) == NextView::<
                StageView,
            >::Done(Ok(AnswerView::Infohash(hash@)))
            &&& hash@.len() == 0 ==> (next_step(d, asking, status_reply) matches NextView::Call {
                call: again,
                stage: _,
            } && asks_for_hash(d, again, gid@))
        }),
{
    lemma_key_lists();
    let keys = hash_key();
    let params = seq![JsonView::Text(gid@), keys];
    assert(calls(d, rpc_call(d, 0, "tellStatus"@, params), "tellStatus"@, params));
    assert(calls(d, rpc_call(d, 1000, "tellStatus"@, params), "tellStatus"@, params));
    assert(json::text_list(seq![uri@]) == JsonView::List(seq![JsonView::Text(uri@)])) by {
        assert(json::text_list(seq![uri@])->List_0 =~= seq![JsonView::Text(uri@)]);
    }
}

/// A request asks for the infohash of a task.
pub open spec fn asks_for_hash(d: Aria2View, call: CallView, gid: Seq<char>) -> bool {
    exists|keys: JsonView|
        #[trigger] names_key(keys, "infoHash"@) && calls(
            d,
            call,
            "tellStatus"@,
            seq![JsonView::Text(gid), keys],
        )
}

/// The bytes of a torrent are added in Base64, with the directory that it is to be saved in; the
/// task that aria2 names is asked for its infohash, which is reported.
pub proof fn law_bytes_are_added(
    d: Aria2View,
    data: Vec<u8>,
    dir: String,
    added_reply: HttpReply,
    added_body: Json,
    gid: String,
    status_reply: HttpReply,
    status_body: Json,
    status: Json,
    hash: String,
)
    requires
        downloader::gives(added_reply, added_body, Json::Text(gid)),
        downloader::gives(status_reply, status_body, status),
        json::member(status, "infoHash"@) == Some(Json::Text(hash)),
    ensures
        ({
            &&& first_step(d, Op::AddTorrentBytes { data, dir }) matches NextView::Call {
                call,
                stage,
            }
            &&& calls(
                d,
                call,
                "addTorrent"@,
                seq![
                    JsonView::Text(encode::base64_text(data@)),
                    JsonView::List(seq![]),
                    JsonView::Object(seq![("dir"@, JsonView::Text(dir@))]),
                ],
            )
            &&& next_step(d, stage, added_reply) matches NextView::Call {
                call: asked,
                stage: asking,
            }
            &&& asks_for_hash(d, asked, gid@)
            &&& next_step(d, asking, status_reply) == NextView::<StageView>::Done(
                Ok(AnswerView::Infohash(hash@)),
            )
        }),
{
    lemma_key_lists();
    let keys = hash_key();
    let params = seq![JsonView::Text(gid@), keys];
    assert(calls(d, rpc_call(d, 0, "tellStatus"@, params), "tellStatus"@, params));
}

/// Files cannot be renamed nor moved by aria2.
pub proof fn law_files_are_left_where_they_are(
    d: Aria2View,
    infohash: String,
    one: String,
    two: String,
)
    ensures
        first_step(d, Op::RenameFile { infohash, old_path: one, new_name: two }) == NextView::<
            StageView,
        >::Done(Ok(AnswerView::Changed(OpResult::Unsupported))),
        first_step(d, Op::MoveFiles { infohash, new_location: one }) == NextView::<
            StageView,
        >::Done(Ok(AnswerView::Changed(OpResult::Unsupported))),
{
}

/// An operation that is done to the task with this infohash by calling a method with its GID.
pub open spec fn does(op: Op, infohash: Seq<char>, method: Seq<char>) -> bool {
    match op {
        Op::ListFiles { infohash: h } => h@ == infohash && method == "getFiles"@,
        Op::Pause { infohash: h } => h@ == infohash && method == "forcePause"@,
        Op::Resume { infohash: h } => h@ == infohash && method == "unpause"@,
        Op::Remove { infohash: h, delete_files: _ } => h@ == infohash && method == "remove"@,
        _ => false,
    }
}

/// A task with this infohash and GID is among those that are listed.
pub open spec fn is_task(tasks: Seq<Json>, infohash: Seq<char>, gid: Seq<char>) -> bool {
    exists|i: int|
        0 <= i < tasks.len() && json::text_of(json::member(#[trigger] tasks[i], "infoHash"@))
            == Some(infohash) && json::text_of(json::member(tasks[i], "gid"@)) == Some(gid)
}

proof fn lemma_pairs(tasks: Seq<Json>, infohash: Seq<char>, gid: Seq<char>)
    ensures
        first_gid(gid_pairs(tasks), infohash) == Some(gid) ==> is_task(tasks, infohash, gid),
        last_gid(gid_pairs(tasks), infohash) == Some(gid) ==> is_task(tasks, infohash, gid),
        is_task(tasks, infohash, gid) ==> first_gid(gid_pairs(tasks), infohash) is Some
            && last_gid(gid_pairs(tasks), infohash) is Some,
{
    let pairs = gid_pairs(tasks);
    let f = |t: Json| gid_pair(t);
    lemma_first_gid(pairs, infohash);
    lemma_last_gid(pairs, infohash);
    json::law_given_values(pairs, tasks, f, (infohash, gid));
    if is_task(tasks, infohash, gid) {
        let i = choose|i: int|
            0 <= i < tasks.len() && json::text_of(json::member(#[trigger] tasks[i], "infoHash"@))
                == Some(infohash) && json::text_of(json::member(tasks[i], "gid"@)) == Some(gid);
        assert(f(tasks[i]) == Some((infohash, gid)));
        let k = pairs.index_of((infohash, gid));
        assert(pairs[k].0 == infohash);
    }
    if pairs.contains((infohash, gid)) {
        let i = choose|i: int|
            0 <= i < tasks.len() && f(#[trigger] tasks[i]) == Some((infohash, gid));
        assert(json::text_of(json::member(tasks[i], "infoHash"@)) == Some(infohash));
    }
}

proof fn lemma_first_gid(pairs: Seq<(Seq<char>, Seq<char>)>, infohash: Seq<char>)
    ensures
        first_gid(pairs, infohash) matches Some(gid) ==> pairs.contains((infohash, gid)),
        first_gid(pairs, infohash) is None ==> forall|i: int|
            0 <= i < pairs.len() ==> (#[trigger] pairs[i]).0 != infohash,
    decreases pairs.len(),
{
    if pairs.len() > 0 {
        let rest = pairs.skip(1);
        lemma_first_gid(rest, infohash);
        assert(pairs[0] == (pairs[0].0, pairs[0].1));
        if pairs[0].0 == infohash {
            assert(pairs.contains((infohash, pairs[0].1)));
        } else {
            if let Some(gid) = first_gid(rest, infohash) {
                let k = rest.index_of((infohash, gid));
                assert(pairs[k + 1] == (infohash, gid));
            }
            assert forall|i: int| first_gid(rest, infohash) is None && 0 <= i < pairs.len() implies (
            #[trigger] pairs[i]).0 != infohash by {
                if i > 0 {
                    assert(rest[i - 1] == pairs[i]);
                }
            }
        }
    }
}

proof fn lemma_last_gid(pairs: Seq<(Seq<char>, Seq<char>)>, infohash: Seq<char>)
    ensures
        last_gid(pairs, infohash) matches Some(gid) ==> pairs.contains((infohash, gid)),
        last_gid(pairs, infohash) is None ==> forall|i: int|
            0 <= i < pairs.len() ==> (#[trigger] pairs[i]).0 != infohash,
    decreases pairs.len(),
{
    if pairs.len() > 0 {
        let init = pairs.drop_last();
        let n = pairs.len() - 1;
        lemma_last_gid(init, infohash);
        assert(pairs[n] == (pairs[n].0, pairs[n].1));
        if pairs.last().0 == infohash {
            assert(pairs.contains((infohash, pairs[n].1)));
        } else {
            if let Some(gid) = last_gid(init, infohash) {
                let k = init.index_of((infohash, gid));
                assert(pairs[k] == (infohash, gid));
            }
            assert forall|i: int| last_gid(init, infohash) is None && 0 <= i < pairs.len() implies (
            #[trigger] pairs[i]).0 != infohash by {
                if i < n {
                    assert(init[i] == pairs[i]);
                }
            }
        }
    }
}

/// What is done to a download is done to the task that has its infohash, under that task's GID. The
/// active tasks are asked for first; where none of them has the infohash, the stopped ones are, and
/// nothing is done to any other task.
#[verifier::spinoff_prover]
#[verifier::rlimit(40)]
pub proof fn law_operations_reach_their_task(
    d: Aria2View,
    op: Op,
    infohash: Seq<char>,
    method: Seq<char>,
    gid: Seq<char>,
    reply: HttpReply,
    body: Json,
    tasks: Vec<Json>,
)
    requires
        does(op, infohash, method),
        downloader::gives(reply, body, Json::List(tasks)),
    ensures
        ({
            &&& first_step(d, op) matches NextView::Call { call, stage }
            &&& asks_for_gids(d, call, "tellActive"@)
            &&& next_step(d, stage, reply) matches NextView::Call { call: second, stage: acting }
            &&& is_task(tasks@, infohash, gid) ==> exists|found: Seq<char>|
                #[trigger] is_task(tasks@, infohash, found) && calls(
                    d,
                    second,
                    method,
                    seq![JsonView::Text(found)],
                )
            &&& acting is Act || acting is FindStopped
            &&& acting is FindStopped ==> asks_for_gids(d, second, "tellStopped"@)
                && (forall|found: Seq<char>| !#[trigger] is_task(tasks@, infohash, found))
            &&& acting is Act ==> is_task(tasks@, infohash, acting->Act_gid) && calls(
                d,
                second,
                method,
                seq![JsonView::Text(acting->Act_gid)],
            )
        }),
{
    lemma_key_lists();
    let keys = gid_keys();
    assert(calls(d, rpc_call(d, 0, "tellActive"@, seq![keys]), "tellActive"@, seq![keys]));
    assert(seq![keys].last() == keys);
    assert(asks_for_gids(d, rpc_call(d, 0, "tellActive"@, seq![keys]), "tellActive"@));
    let params = stopped_params(0, keys);
    assert(params.last() == keys);
    assert(calls(d, rpc_call(d, 0, "tellStopped"@, params), "tellStopped"@, params));
    assert(asks_for_gids(d, rpc_call(d, 0, "tellStopped"@, params), "tellStopped"@));
    lemma_pairs(tasks@, infohash, gid);
    match first_gid(gid_pairs(tasks@), infohash) {
        Some(found) => {
            lemma_pairs(tasks@, infohash, found);
            assert(calls(
                d,
                rpc_call(d, 0, method, seq![JsonView::Text(found)]),
                method,
                seq![JsonView::Text(found)],
            ));
        },
        None => {
            assert forall|found: Seq<char>| !#[trigger] is_task(tasks@, infohash, found) by {
                lemma_pairs(tasks@, infohash, found);
            }
        },
    }
}

/// A request asks for the GIDs and infohashes of tasks.
pub open spec fn asks_for_gids(d: Aria2View, call: CallView, method: Seq<char>) -> bool {
    exists|params: Seq<JsonView>|
        #[trigger] calls(d, call, method, params) && params.len() > 0 && names_key(
            params.last(),
            "gid"@,
        ) && names_key(params.last(), "infoHash"@)
}

/// Among stopped tasks, too, only the one with the infohash is acted on.
pub proof fn law_stopped_tasks_are_searched(
    d: Aria2View,
    goal: Goal,
    infohash: Seq<char>,
    offset: i32,
    gid: Seq<char>,
    reply: HttpReply,
    body: Json,
    tasks: Vec<Json>,
)
    requires
        downloader::gives(reply, body, Json::List(tasks)),
        0 <= offset <= 0x7fff_ffff - 1000,
    ensures
        ({
            let after = next_step(d, StageView::FindStopped { goal, infohash, offset }, reply);
            &&& is_task(tasks@, infohash, gid) ==> after is Call && after->stage is Act
            &&& after matches NextView::Call { call, stage } ==> {
                &&& stage is Act ==> stage->Act_goal == goal && is_task(
                    tasks@,
                    infohash,
                    stage->Act_gid,
                )
                &&& stage is FindStopped ==> stage == (StageView::FindStopped {
                    goal,
                    infohash,
                    offset: (offset + 1000) as i32,
                })
                &&& stage is Act || stage is FindStopped
            }
            &&& after is Done ==> after->Done_0 is Err
        }),
{
    lemma_pairs(tasks@, infohash, gid);
    if let Some(found) = last_gid(gid_pairs(tasks@), infohash) {
        lemma_pairs(tasks@, infohash, found);
    }
}

/// What is done to a task is done once it is answered: its files are given as they are listed, a
/// pause or a resume is over, and a removal goes on to take the same task off the list of stopped
/// tasks. Where it is refused, it failed.
pub proof fn law_operations_end_as_answered(
    d: Aria2View,
    goal: Goal,
    infohash: Seq<char>,
    gid: Seq<char>,
    reply: HttpReply,
    body: Json,
    v: Json,
    entries: Vec<Json>,
)
    ensures
        ({
            let after = next_step(d, StageView::Act { goal, infohash, gid }, reply);
            &&& downloader::gives(reply, body, v) && (goal is Pause || goal is Resume) ==> after
                == NextView::<StageView>::Done(Ok(AnswerView::Done))
            &&& downloader::gives(reply, body, v) && goal is Remove ==> (
            after matches NextView::Call { call, stage } && calls(
                d,
                call,
                "removeDownloadResult"@,
                seq![JsonView::Text(gid)],
            ) && stage == (StageView::Purge { infohash }))
            &&& downloader::gives(reply, body, Json::List(entries)) && goal is ListFiles ==> (
            after matches NextView::Done(Ok(answer)) && answer is Files && json::are_those_given(
                answer->Files_0,
                entries@,
                file_listed(),
            ))
            &&& downloader::refuses(reply, body) && !(goal is ListFiles) ==> (
            after matches NextView::Done(Err(_)))
        }),
        downloader::gives(reply, body, v) ==> next_step(
            d,
            StageView::Purge { infohash },
            reply,
        ) == NextView::<StageView>::Done(Ok(AnswerView::Done)),
        downloader::refuses(reply, body) ==> (next_step(
            d,
            StageView::Purge { infohash },
            reply,
        ) matches NextView::Done(Err(_))),
{
    assert(calls(
        d,
        rpc_call(d, 0, "removeDownloadResult"@, seq![JsonView::Text(gid)]),
        "removeDownloadResult"@,
        seq![JsonView::Text(gid)],
    ));
    let f = |e: Json| file_of(e);
    assert(f =~= file_listed());
    json::law_collected_in_order(entries@, f);
}

/// A file that is listed with a path that ends in a name.
pub open spec fn file_listed() -> spec_fn(Json) -> Option<TorrentFileView> {
    |e: Json| file_of(e)
}

/// A file is given with the path that it is listed with, and with the name that the path ends in.
pub proof fn law_files_are_given_as_listed(entry: Json, path: Seq<char>, name: Seq<char>)
    requires
        json::text_of(json::member(entry, "path"@)) == Some(path),
        downloader::ends_in(path, name),
    ensures
        file_listed()(entry) == Some(TorrentFileView { path, name }),
{
    downloader::lemma_file_at(path);
}

/// aria2 is there if it tells its version, and not if it refuses to.
pub proof fn law_check_asks_for_the_version(d: Aria2View, reply: HttpReply, body: Json, v: Json)
    ensures
        ({
            &&& first_step(d, Op::CheckConnection) matches NextView::Call { call, stage }
            &&& calls(d, call, "getVersion"@, seq![])
            &&& downloader::gives(reply, body, v) ==> next_step(d, stage, reply) == NextView::<
                StageView,
            >::Done(Ok(AnswerView::Done))
            &&& downloader::refuses(reply, body) ==> (next_step(d, stage, reply) matches NextView::Done(
                Err(_),
            ))
        }),
{
}

/// A task whose infohash is not known yet is asked for it again every second, thirty times in all;
/// then it is a failure.
pub proof fn law_hash_is_asked_for_thirty_times(
    d: Aria2View,
    gid: Seq<char>,
    tries: u8,
    reply: HttpReply,
    body: Json,
    status: Json,
)
    requires
        downloader::refuses(reply, body) || downloader::gives(reply, body, status) && json::member(
            status,
            "infoHash"@,
        ) is None,
    ensures
        ({
            let after = next_step(d, StageView::UriStatus { gid, tries }, reply);
            &&& tries < 30 ==> {
                &&& after matches NextView::Call { call, stage }
                &&& asks_for_hash(d, call, gid)
                &&& call.wait_ms == 1000
                &&& stage == (StageView::UriStatus { gid, tries: (tries + 1) as u8 })
            }
            &&& tries >= 30 ==> after is Done && after->Done_0 is Err
        }),
{
    lemma_key_lists();
    let params = seq![JsonView::Text(gid), hash_key()];
    assert(calls(d, rpc_call(d, 1000, "tellStatus"@, params), "tellStatus"@, params));
}

} // verus!
