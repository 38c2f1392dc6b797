//! qBittorrent: a client of its Web API.
//!
//! qBittorrent knows its torrents by infohash, so no lookup is needed. Every request carries the
//! credentials (HTTP Basic, qBittorrent 5.0 or later).
use vstd::prelude::*;
use vstd::utf8::*;

use crate::auth;
use crate::downloader::{
    self, Answer, AnswerView, Call, CallView, HttpReply, Next, NextView, Op, OpResult, Payload,
    PayloadView, TorrentDownloader,
};
use crate::encode;
use crate::event;
use crate::json::{self, Json};
use crate::response::{self, Header};
use crate::tables;
use crate::text;
use crate::types::{
    CompletedDownload, DownloadSnapshot, DownloadSnapshotView, DownloadState, Number, Progress,
};

verus! {

/// How long an added torrent is waited for, in milliseconds.
pub const WAIT_LIMIT: u64 = 10_000;

/// How long is waited before the torrents are looked at again, in milliseconds.
pub const WAIT_STEP: u64 = 500;

/// Client of qBittorrent's Web API. It holds no state of its own.
#[derive(Debug)]
pub struct QbittorrentDownloader {
    api_url: String,
    username: String,
    password: String,
}

#[verifier::ext_equal]
pub struct QbittorrentView {
    pub api_url: Seq<char>,
    pub username: Seq<char>,
    pub password: Seq<char>,
}

impl View for QbittorrentDownloader {
    type V = QbittorrentView;

    closed spec fn view(&self) -> QbittorrentView {
        QbittorrentView {
            api_url: self.api_url@,
            username: self.username@,
            password: self.password@,
        }
    }
}

/// What is done to one torrent with one form.
#[derive(Debug, Clone, Copy, PartialEq, Eq, Structural)]
pub enum Change {
    Rename,
    Move,
    Pause,
    Resume,
    Remove,
}

/// How far an operation has come: the call whose reply is awaited.
#[allow(inconsistent_fields)]
#[derive(Debug)]
pub enum Stage {
    AddUri { dir: String },
    AddBytes { dir: String },
    /// The torrents that were there before.
    Before { dir: String },
    /// The torrents that are there now; waiting since `since`.
    Now { dir: String, before: Vec<String>, since: u64 },
    Files { infohash: String },
    Changed { change: Change, infohash: String },
    Completed,
    Failed,
    Query,
    Version,
}

#[allow(inconsistent_fields)]
#[verifier::ext_equal]
pub enum StageView {
    AddUri { dir: Seq<char> },
    AddBytes { dir: Seq<char> },
    Before { dir: Seq<char> },
    Now { dir: Seq<char>, before: Seq<Seq<char>>, since: u64 },
    Files { infohash: Seq<char> },
    Changed { change: Change, infohash: Seq<char> },
    Completed,
    Failed,
    Query,
    Version,
}

impl View for Stage {
    type V = StageView;

    open spec fn view(&self) -> StageView {
        match self {
            Stage::AddUri { dir } => StageView::AddUri { dir: dir@ },
            Stage::AddBytes { dir } => StageView::AddBytes { dir: dir@ },
            Stage::Before { dir } => StageView::Before { dir: dir@ },
            Stage::Now { dir, before, since } => StageView::Now {
                dir: dir@,
                before: text::views(before@),
                since: *since,
            },
            Stage::Files { infohash } => StageView::Files { infohash: infohash@ },
            Stage::Changed { change, infohash } => StageView::Changed {
                change: *change,
                infohash: infohash@,
            },
            Stage::Completed => StageView::Completed,
            Stage::Failed => StageView::Failed,
            Stage::Query => StageView::Query,
            Stage::Version => StageView::Version,
        }
    }
}

// ── Calls ──

/// The URL of an endpoint.
pub open spec fn endpoint(d: QbittorrentView, path: Seq<char>) -> Seq<char> {
    d.api_url + "/api/v2/"@ + path
}

/// The header that carries the credentials.
pub open spec fn credentials(d: QbittorrentView) -> (Seq<char>, Seq<char>) {
    ("Authorization"@, auth::credentials(d.username, d.password))
}

/// A request that reads.
pub open spec fn get_call(d: QbittorrentView, wait_ms: u64, path: Seq<char>) -> CallView {
    CallView {
        wait_ms,
        post: false,
        url: endpoint(d, path),
        headers: seq![credentials(d)],
        body: PayloadView::Nothing,
    }
}

/// The text of a form: its fields, encoded, with `&` between them.
pub open spec fn form_text(fields: Seq<(Seq<char>, Seq<char>)>) -> Seq<char>
    decreases fields.len(),
{
    if fields.len() == 0 {
        seq![]
    } else {
        let last = encode::field_encoded(fields.last().0) + "="@ + encode::field_encoded(
            fields.last().1,
        );
        if fields.len() == 1 {
            last
        } else {
            form_text(fields.drop_last()) + "&"@ + last
        }
    }
}

/// A request that sends a form.
pub open spec fn form_call(
    d: QbittorrentView,
    path: Seq<char>,
    fields: Seq<(Seq<char>, Seq<char>)>,
) -> CallView {
    CallView {
        wait_ms: 0,
        post: true,
        url: endpoint(d, path),
        headers: seq![credentials(d), ("Content-Type"@, "application/x-www-form-urlencoded"@)],
        body: PayloadView::Text(form_text(fields)),
    }
}

/// The text that separates the parts of a request, made from a time stamp.
pub open spec fn boundary(stamp: u128) -> Seq<char> {
    "----WebKitFormBoundary"@ + encode::zero_padded(encode::hex(stamp as nat, false), 16)
}

/// The head of the part that holds the file.
pub open spec fn file_head(mark: Seq<char>) -> Seq<char> {
    "--"@ + mark
        + "\r\nContent-Disposition: form-data; name=\"torrents\"; filename=\"download.torrent\"\r\nContent-Type: application/x-bittorrent\r\n\r\n"@
}

/// A part that holds a field.
pub open spec fn field_part(mark: Seq<char>, name: Seq<char>, value: Seq<char>) -> Seq<char> {
    "--"@ + mark + "\r\nContent-Disposition: form-data; name=\""@ + name + "\"\r\n\r\n"@ + value
        + "\r\n"@
}

/// A request in parts: the file, the directory, and that the directory is not chosen by
/// qBittorrent.
pub open spec fn multipart_bytes(mark: Seq<char>, data: Seq<u8>, dir: Seq<char>) -> Seq<u8> {
    encode_utf8(file_head(mark)) + data + encode_utf8(
        "\r\n"@ + field_part(mark, "savepath"@, dir) + field_part(mark, "autoTMM"@, "false"@)
            + "--"@ + mark + "--\r\n"@,
    )
}

/// A request that sends a `.torrent` file.
pub open spec fn upload_call(d: QbittorrentView, stamp: u128, data: Seq<u8>, dir: Seq<char>) -> CallView {
    CallView {
        wait_ms: 0,
        post: true,
        url: endpoint(d, "torrents/add"@),
        headers: seq![
            credentials(d),
            ("Content-Type"@, "multipart/form-data; boundary="@ + boundary(stamp)),
        ],
        body: PayloadView::Bytes(multipart_bytes(boundary(stamp), data, dir)),
    }
}

/// A field of a form.
struct Field<'a> {
    name: &'a str,
    value: &'a str,
}

spec fn field_views(fields: Seq<Field>) -> Seq<(Seq<char>, Seq<char>)> {
    Seq::new(fields.len(), |i: int| (fields[i].name@, fields[i].value@))
}

fn write_form(fields: &Vec<Field>) -> (r: String)
    ensures
        r@ == form_text(field_views(fields@)),
{
    let ghost all = field_views(fields@);
    let mut out = String::new();
    let mut i: usize = 0;
    while i < fields.len()
        invariant
            i <= fields@.len(),
            all == field_views(fields@),
            out@ == form_text(all.take(i as int)),
        decreases fields@.len() - i,
    {
        let ghost before = out@;
        assert(all.take(i + 1).drop_last() =~= all.take(i as int));
        if i > 0 {
            out.append("&");
        }
        out.append(&encode::encode_field(fields[i].name));
        out.append("=");
        out.append(&encode::encode_field(fields[i].value));
        assert(out@ =~= form_text(all.take(i + 1)));
        i = i + 1;
    }
    assert(all.take(all.len() as int) =~= all);
    out
}

fn push_field(out: &mut String, mark: &str, name: &str, value: &str)
    ensures
        final(out)@ == old(out)@ + field_part(mark@, name@, value@),
{
    let ghost before = out@;
    out.append("--");
    out.append(mark);
    out.append("\r\nContent-Disposition: form-data; name=\"");
    out.append(name);
    out.append("\"\r\n\r\n");
    out.append(value);
    out.append("\r\n");
    assert(out@ =~= before + field_part(mark@, name@, value@));
}

fn push_bytes(out: &mut Vec<u8>, bytes: &[u8])
    ensures
        final(out)@ == old(out)@ + bytes@,
{
    let ghost before = out@;
    let n: usize = bytes.len();
    let mut i: usize = 0;
    assert(bytes@.take(0) =~= Seq::<u8>::empty());
    assert(out@ =~= before + bytes@.take(0));
    while i < n
        invariant
            n == bytes@.len(),
            i <= n,
            out@ == before + bytes@.take(i as int),
        decreases n - i,
    {
        let ghost now = out@;
        out.push(bytes[i]);
        assert(before + bytes@.take(i + 1) =~= now.push(bytes@[i as int]));
        i = i + 1;
    }
    assert(bytes@.take(n as int) =~= bytes@);
}

fn write_parts(mark: &str, data: &Vec<u8>, dir: &str) -> (r: Vec<u8>)
    ensures
        r@ == multipart_bytes(mark@, data@, dir@),
{
    let head = text::join3(
        "--",
        mark,
        "\r\nContent-Disposition: form-data; name=\"torrents\"; filename=\"download.torrent\"\r\nContent-Type: application/x-bittorrent\r\n\r\n",
    );
    let mut tail = "\r\n".to_owned();
    push_field(&mut tail, mark, "savepath", dir);
    push_field(&mut tail, mark, "autoTMM", "false");
    tail.append("--");
    tail.append(mark);
    tail.append("--\r\n");
    let mut out: Vec<u8> = Vec::new();
    push_bytes(&mut out, head.as_str().as_bytes());
    push_bytes(&mut out, data.as_slice());
    push_bytes(&mut out, tail.as_str().as_bytes());
    assert(out@ =~= multipart_bytes(mark@, data@, dir@));
    out
}

impl QbittorrentDownloader {
    /// A client of the Web API at a URL.
    pub fn from_config(url: String, username: String, password: String) -> (r: Self)
        ensures
            r@ == (QbittorrentView {
                api_url: downloader::without_slashes(url@),
                username: username@,
                password: password@,
            }),
    {
        QbittorrentDownloader { api_url: downloader::trim_slashes(&url), username, password }
    }

    fn auth_header(&self) -> (r: Header)
        ensures
            (r.name@, r.value@) == credentials(self@),
    {
        downloader::header("Authorization", auth::basic_auth(&self.username, &self.password))
    }

    fn get(&self, wait_ms: u64, path: &str) -> (r: Call)
        ensures
            r@ == get_call(self@, wait_ms, path@),
    {
        let headers = vec![self.auth_header()];
        assert(response::header_views(headers@) =~= seq![credentials(self@)]);
        Call {
            wait_ms,
            post: false,
            url: text::join3(&self.api_url, "/api/v2/", path),
            headers,
            body: Payload::Nothing,
        }
    }

    fn post_form(&self, path: &str, fields: Vec<Field>) -> (r: Call)
        ensures
            r@ == form_call(self@, path@, field_views(fields@)),
    {
        let headers = vec![
            self.auth_header(),
            downloader::header("Content-Type", "application/x-www-form-urlencoded".to_owned()),
        ];
        assert(response::header_views(headers@) =~= seq![
            credentials(self@),
            ("Content-Type"@, "application/x-www-form-urlencoded"@),
        ]);
        Call {
            wait_ms: 0,
            post: true,
            url: text::join3(&self.api_url, "/api/v2/", path),
            headers,
            body: Payload::Text(write_form(&fields)),
        }
    }

    fn post_multipart(&self, stamp: u128, data: &Vec<u8>, dir: &str) -> (r: Call)
        ensures
            r@ == upload_call(self@, stamp, data@, dir@),
    {
        let mark = text::join2("----WebKitFormBoundary", &encode::hex_text(stamp, 16, false));
        let headers = vec![
            self.auth_header(),
            downloader::header(
                "Content-Type",
                text::join2("multipart/form-data; boundary=", &mark),
            ),
        ];
        assert(response::header_views(headers@) =~= seq![
            credentials(self@),
            ("Content-Type"@, "multipart/form-data; boundary="@ + boundary(stamp)),
        ]);
        Call {
            wait_ms: 0,
            post: true,
            url: text::join3(&self.api_url, "/api/v2/", "torrents/add"),
            headers,
            body: Payload::Bytes(write_parts(&mark, data, dir)),
        }
    }
}

// ── Replies ──

/// What a request that changes something gave: a value, nothing (an empty text or `Ok.`), or an
/// error.
pub open spec fn posted(reply: HttpReply, what: Seq<char>, failure: Seq<char>) -> Result<
    Option<Json>,
    Seq<char>,
> {
    match reply {
        HttpReply::Failed { status, session_id, error } => Err(failure + error@),
        HttpReply::Answered { status, body, value } => {
            let shown = text::trimmed(body@);
            if !(200 <= status < 300) {
                Err(what + " returned "@ + text::decimal(status as nat) + ": "@ + body@)
            } else if shown.len() == 0 || shown == "Ok."@ {
                Ok(None)
            } else {
                match value {
                    Ok(v) => Ok(Some(v)),
                    Err(e) => Err(what + " returned non-JSON: "@ + e@),
                }
            }
        },
    }
}

/// What a form gave.
pub open spec fn form_result(reply: HttpReply, path: Seq<char>) -> Result<Option<Json>, Seq<char>> {
    let what = "qbittorrent: POST "@ + path;
    posted(reply, what, what + " failed: "@)
}

/// What an upload gave.
pub open spec fn upload_result(reply: HttpReply) -> Result<Option<Json>, Seq<char>> {
    posted(reply, "qbittorrent: multipart POST torrents/add"@, seq![])
}

fn read_posted<'a>(reply: &'a HttpReply, what: &str, failure: &str) -> (r: Result<
    Option<&'a Json>,
    String,
>)
    ensures
        match r {
            Ok(Some(v)) => posted(*reply, what@, failure@) == Ok::<Option<Json>, Seq<char>>(
                Some(*v),
            ),
            Ok(None) => posted(*reply, what@, failure@) == Ok::<Option<Json>, Seq<char>>(None),
            Err(e) => posted(*reply, what@, failure@) == Err::<Option<Json>, Seq<char>>(e@),
        },
{
    match reply {
        HttpReply::Failed { status, session_id, error } => Err(text::join2(failure, error)),
        HttpReply::Answered { status, body, value } => {
            if *status < 200 || *status >= 300 {
                let mut message = text::join2(what, " returned ");
                message.append(&text::decimal_text(*status as u64));
                message.append(": ");
                message.append(body);
                return Err(message);
            }
            let shown = text::trim(body);
            if shown.as_str().is_empty() || *shown.as_str() == *"Ok." {
                return Ok(None);
            }
            match value {
                Ok(v) => Ok(Some(v)),
                Err(e) => Err(text::join3(what, " returned non-JSON: ", e)),
            }
        },
    }
}

fn read_form<'a>(reply: &'a HttpReply, path: &str) -> (r: Result<Option<&'a Json>, String>)
    ensures
        match r {
            Ok(Some(v)) => form_result(*reply, path@) == Ok::<Option<Json>, Seq<char>>(Some(*v)),
            Ok(None) => form_result(*reply, path@) == Ok::<Option<Json>, Seq<char>>(None),
            Err(e) => form_result(*reply, path@) == Err::<Option<Json>, Seq<char>>(e@),
        },
{
    let what = text::join2("qbittorrent: POST ", path);
    let failure = text::join2(&what, " failed: ");
    read_posted(reply, &what, &failure)
}

/// The first infohash that a request which adds a torrent gives at once.
pub open spec fn added_id(value: Option<Json>) -> Option<Seq<char>> {
    match value {
        Some(v) => match json::list_of(json::member(v, "added_torrent_ids"@)) {
            Some(ids) => if ids.len() > 0 {
                json::text_of(Some(ids[0]))
            } else {
                None
            },
            None => None,
        },
        None => None,
    }
}

fn read_added(value: Option<&Json>) -> (r: Option<String>)
    ensures
        text::opt(r) == added_id(
            match value {
                Some(v) => Some(*v),
                None => None,
            },
        ),
{
    match value {
        Some(v) => match v.list_at("added_torrent_ids") {
            Some(ids) => if ids.len() > 0 {
                match &ids[0] {
                    Json::Text(t) => Some(t.clone()),
                    _ => None,
                }
            } else {
                None
            },
            None => None,
        },
        None => None,
    }
}

/// The infohash of a torrent.
pub open spec fn hash_of(torrent: Json) -> Option<Seq<char>> {
    json::text_of(json::member(torrent, "hash"@))
}

/// The infohashes of torrents.
pub open spec fn hashes_of(torrents: Seq<Json>) -> Seq<Seq<char>> {
    json::collected(torrents, |t: Json| hash_of(t))
}

fn read_hashes(torrents: &Vec<Json>) -> (r: Vec<String>)
    ensures
        text::views(r@) == hashes_of(torrents@),
{
    let mut out: Vec<String> = Vec::new();
    let ghost all = torrents@;
    let mut i: usize = 0;
    assert(text::views(out@) =~= hashes_of(all.take(0)));
    while i < torrents.len()
        invariant
            i <= torrents@.len(),
            all == torrents@,
            text::views(out@) == hashes_of(all.take(i as int)),
        decreases torrents@.len() - i,
    {
        let ghost before = text::views(out@);
        assert(all.take(i + 1).drop_last() =~= all.take(i as int));
        if let Some(hash) = torrents[i].text_at("hash") {
            out.push(hash.to_owned());
            assert(text::views(out@) =~= before.push(hash@));
        }
        i = i + 1;
    }
    assert(all.take(all.len() as int) =~= all);
    out
}

/// The torrents that a reply lists; `None` if the query failed.
pub open spec fn listed(reply: HttpReply) -> Option<Seq<Json>> {
    json::list_of(downloader::reply_value(reply))
}

fn read_list(reply: &HttpReply) -> (r: Option<&Vec<Json>>)
    ensures
        match r {
            Some(items) => listed(*reply) == Some(items@),
            None => listed(*reply) is None,
        },
{
    match downloader::value_of(reply) {
        Some(Json::List(items)) => Some(items),
        _ => None,
    }
}

/// The infohashes that a reply lists; none if the query failed.
pub open spec fn known_hashes(reply: HttpReply) -> Seq<Seq<char>> {
    match listed(reply) {
        Some(torrents) => hashes_of(torrents),
        None => seq![],
    }
}

fn read_known(reply: &HttpReply) -> (r: Vec<String>)
    ensures
        text::views(r@) == known_hashes(*reply),
{
    match read_list(reply) {
        Some(torrents) => read_hashes(torrents),
        None => {
            let none: Vec<String> = Vec::new();
            assert(text::views(none@) =~= seq![]);
            none
        },
    }
}

/// The first infohash that was not there before.
pub open spec fn first_new(now: Seq<Seq<char>>, before: Seq<Seq<char>>) -> Option<Seq<char>>
    decreases now.len(),
{
    if now.len() == 0 {
        None
    } else if !before.contains(now[0]) {
        Some(now[0])
    } else {
        first_new(now.skip(1), before)
    }
}

fn find_new(now: &Vec<String>, before: &Vec<String>) -> (r: Option<String>)
    ensures
        text::opt(r) == first_new(text::views(now@), text::views(before@)),
{
    let ghost all = text::views(now@);
    let ghost known = text::views(before@);
    let mut i: usize = 0;
    assert(all.skip(0) =~= all);
    while i < now.len()
        invariant
            i <= now@.len(),
            all == text::views(now@),
            known == text::views(before@),
            first_new(all, known) == first_new(all.skip(i as int), known),
        decreases now@.len() - i,
    {
        if !tables::is_listed(before, &now[i]) {
            return Some(now[i].clone());
        }
        assert(all.skip(i as int).skip(1) =~= all.skip(i + 1));
        i = i + 1;
    }
    None
}

/// The state of a torrent. One that qBittorrent calls downloading but that is complete is
/// seeding.
pub open spec fn state_of(state: Seq<char>, complete: bool) -> DownloadState {
    if state == "uploading"@ || state == "stalledUP"@ || state == "queuedUP"@ || state
        == "checkingUP"@ {
        DownloadState::Seeding
    } else if state == "downloading"@ || state == "stalledDL"@ || state == "queuedDL"@ || state
        == "checkingDL"@ || state == "metaDL"@ || state == "forcedDL"@ || state == "forcedUP"@
        || state == "allocating"@ || state == "moving"@ {
        if complete {
            DownloadState::Seeding
        } else {
            DownloadState::Downloading
        }
    } else if state == "pausedUP"@ || state == "pausedDL"@ {
        DownloadState::Paused
    } else if state == "error"@ || state == "missingFiles"@ || state == "unknown"@ {
        DownloadState::Failed
    } else {
        DownloadState::Waiting
    }
}

fn read_state(state: &str, complete: bool) -> (r: DownloadState)
    ensures
        r == state_of(state@, complete),
{
    if *state == *"uploading" || *state == *"stalledUP" || *state == *"queuedUP" || *state
        == *"checkingUP" {
        DownloadState::Seeding
    } else if *state == *"downloading" || *state == *"stalledDL" || *state == *"queuedDL"
        || *state == *"checkingDL" || *state == *"metaDL" || *state == *"forcedDL" || *state
        == *"forcedUP" || *state == *"allocating" || *state == *"moving" {
        if complete {
            DownloadState::Seeding
        } else {
            DownloadState::Downloading
        }
    } else if *state == *"pausedUP" || *state == *"pausedDL" {
        DownloadState::Paused
    } else if *state == *"error" || *state == *"missingFiles" || *state == *"unknown" {
        DownloadState::Failed
    } else {
        DownloadState::Waiting
    }
}

/// The snapshot of a torrent. Its progress is taken in single precision.
pub open spec fn snapshot_of(torrent: Json) -> DownloadSnapshotView {
    let progress = downloader::number_in(torrent, "progress"@);
    DownloadSnapshotView {
        infohash: downloader::text_in(torrent, "hash"@),
        state: state_of(
            downloader::text_in(torrent, "state"@),
            downloader::at_least(progress, downloader::NEARLY_ONE),
        ),
        progress: Progress::Reported(progress),
        speed: downloader::unsigned_in(torrent, "dlspeed"@),
        size: downloader::unsigned_in(torrent, "size"@),
        name: downloader::text_in(torrent, "name"@),
    }
}

/// The snapshots of torrents.
pub open spec fn snapshots_of(torrents: Seq<Json>) -> Seq<DownloadSnapshotView> {
    Seq::new(torrents.len(), |i: int| snapshot_of(torrents[i]))
}

fn read_snapshots(torrents: &Vec<Json>) -> (r: Vec<DownloadSnapshot>)
    ensures
        event::snapshot_views(r@) == snapshots_of(torrents@),
{
    let mut out: Vec<DownloadSnapshot> = Vec::new();
    let mut i: usize = 0;
    while i < torrents.len()
        invariant
            i <= torrents@.len(),
            out@.len() == i,
            forall|j: int| 0 <= j < i ==> (#[trigger] out@[j])@ == snapshot_of(torrents@[j]),
        decreases torrents@.len() - i,
    {
        let t = &torrents[i];
        let progress = downloader::number_member(t, "progress");
        let complete = downloader::is_at_least(progress, downloader::NEARLY_ONE);
        out.push(
            DownloadSnapshot {
                infohash: downloader::text_member(t, "hash"),
                state: read_state(&downloader::text_member(t, "state"), complete),
                progress: Progress::Reported(progress),
                speed: downloader::unsigned_member(t, "dlspeed"),
                size: downloader::unsigned_member(t, "size"),
                name: downloader::text_member(t, "name"),
            },
        );
        i = i + 1;
    }
    assert(event::snapshot_views(out@) =~= snapshots_of(torrents@));
    out
}

fn as_tasks(hashes: Vec<String>) -> (r: Vec<CompletedDownload>)
    ensures
        downloader::task_views(r@) == text::views(hashes@),
{
    let mut out: Vec<CompletedDownload> = Vec::new();
    let mut i: usize = 0;
    while i < hashes.len()
        invariant
            i <= hashes@.len(),
            out@.len() == i,
            forall|j: int| 0 <= j < i ==> (#[trigger] out@[j]).infohash@ == hashes@[j]@,
        decreases hashes@.len() - i,
    {
        out.push(CompletedDownload { infohash: hashes[i].clone() });
        i = i + 1;
    }
    assert(downloader::task_views(out@) =~= text::views(hashes@));
    out
}

// ── Operations ──

/// An operation that failed.
pub open spec fn failed(error: Seq<char>) -> NextView<StageView> {
    NextView::Done(Err(error))
}

/// An operation that is over.
pub open spec fn finished(answer: AnswerView) -> NextView<StageView> {
    NextView::Done(Ok(answer))
}

/// A change to a torrent with one form.
pub open spec fn changing(
    d: QbittorrentView,
    change: Change,
    infohash: Seq<char>,
    fields: Seq<(Seq<char>, Seq<char>)>,
) -> NextView<StageView> {
    NextView::Call {
        call: form_call(d, path_of(change), fields),
        stage: StageView::Changed { change, infohash },
    }
}

/// The endpoint of a change.
pub open spec fn path_of(change: Change) -> Seq<char> {
    match change {
        Change::Rename => "torrents/renameFile"@,
        Change::Move => "torrents/setLocation"@,
        Change::Pause => "torrents/stop"@,
        Change::Resume => "torrents/start"@,
        Change::Remove => "torrents/delete"@,
    }
}

/// What a failed change is reported as.
pub open spec fn failure_of(change: Change) -> Seq<char> {
    match change {
        Change::Rename => "qbittorrent: rename failed for "@,
        Change::Move => "qbittorrent: move failed for "@,
        Change::Pause => "qbittorrent: pause failed for "@,
        Change::Resume => "qbittorrent: resume failed for "@,
        Change::Remove => "qbittorrent: remove failed for "@,
    }
}

/// The first call of an operation.
pub open spec fn first_step(d: QbittorrentView, op: Op, stamp: u128) -> NextView<StageView> {
    match op {
        Op::AddUri { uri, dir } => NextView::Call {
            call: form_call(
                d,
                "torrents/add"@,
                seq![("urls"@, uri@), ("savepath"@, dir@), ("autoTMM"@, "false"@)],
            ),
            stage: StageView::AddUri { dir: dir@ },
        },
        Op::AddTorrentBytes { data, dir } => NextView::Call {
            call: upload_call(d, stamp, data@, dir@),
            stage: StageView::AddBytes { dir: dir@ },
        },
        Op::ListFiles { infohash } => NextView::Call {
            call: get_call(d, 0, "torrents/files?hash="@ + infohash@),
            stage: StageView::Files { infohash: infohash@ },
        },
        Op::RenameFile { infohash, old_path, new_name } => changing(
            d,
            Change::Rename,
            infohash@,
            seq![("hash"@, infohash@), ("oldPath"@, old_path@), ("newPath"@, new_name@)],
        ),
        Op::MoveFiles { infohash, new_location } => changing(
            d,
            Change::Move,
            infohash@,
            seq![("hashes"@, infohash@), ("location"@, new_location@)],
        ),
        Op::Pause { infohash } => changing(
            d,
            Change::Pause,
            infohash@,
            seq![("hashes"@, infohash@)],
        ),
        Op::Resume { infohash } => changing(
            d,
            Change::Resume,
            infohash@,
            seq![("hashes"@, infohash@)],
        ),
        Op::Remove { infohash, delete_files } => changing(
            d,
            Change::Remove,
            infohash@,
            seq![
                ("hashes"@, infohash@),
                ("deleteFiles"@, if delete_files { "true"@ } else { "false"@ }),
            ],
        ),
        Op::PollCompleted => NextView::Call {
            call: get_call(d, 0, "torrents/info?filter=completed"@),
            stage: StageView::Completed,
        },
        Op::PollFailed => NextView::Call {
            call: get_call(d, 0, "torrents/info?filter=errored"@),
            stage: StageView::Failed,
        },
        Op::QueryAll => NextView::Call {
            call: get_call(d, 0, "torrents/info"@),
            stage: StageView::Query,
        },
        Op::CheckConnection => NextView::Call {
            call: get_call(d, 0, "app/version"@),
            stage: StageView::Version,
        },
    }
}

/// What follows a torrent that was added: its infohash where it is known at once, otherwise the
/// torrents are watched until a new one appears.
pub open spec fn after_add(
    d: QbittorrentView,
    dir: Seq<char>,
    result: Result<Option<Json>, Seq<char>>,
) -> NextView<StageView> {
    match result {
        Ok(value) => match added_id(value) {
            Some(infohash) => finished(AnswerView::Infohash(infohash)),
            None => NextView::Call {
                call: get_call(d, 0, "torrents/info?filter=all"@),
                stage: StageView::Before { dir },
            },
        },
        Err(e) => failed(e),
    }
}

/// The torrents are looked at again after a while.
pub open spec fn watching(
    d: QbittorrentView,
    dir: Seq<char>,
    before: Seq<Seq<char>>,
    since: u64,
) -> NextView<StageView> {
    NextView::Call {
        call: get_call(d, WAIT_STEP, "torrents/info?filter=all"@),
        stage: StageView::Now { dir, before, since },
    }
}

/// What follows a reply at time `now`.
pub open spec fn next_step(d: QbittorrentView, stage: StageView, reply: HttpReply, now: u64) -> NextView<
    StageView,
> {
    match stage {
        StageView::AddUri { dir } => after_add(d, dir, form_result(reply, "torrents/add"@)),
        StageView::AddBytes { dir } => after_add(d, dir, upload_result(reply)),
        StageView::Before { dir } => watching(d, dir, known_hashes(reply), now),
        StageView::Now { dir, before, since } => match first_new(known_hashes(reply), before) {
            Some(infohash) => finished(AnswerView::Infohash(infohash)),
            None => if now > since && now - since > WAIT_LIMIT {
                failed("qbittorrent: timed out waiting for torrent to appear in "@ + dir)
            } else {
                watching(d, dir, before, since)
            },
        },
        StageView::Files { infohash } => match listed(reply) {
            Some(files) => finished(AnswerView::Files(downloader::named_files(files))),
            None => failed("qbittorrent: list_files failed for "@ + infohash),
        },
        StageView::Changed { change, infohash } => match form_result(reply, path_of(change)) {
            Ok(value) => finished(
                if change is Rename || change is Move {
                    AnswerView::Changed(OpResult::Done)
                } else {
                    AnswerView::Done
                },
            ),
            Err(e) => failed(failure_of(change) + infohash + ": "@ + e),
        },
        StageView::Completed => match listed(reply) {
            Some(torrents) => finished(AnswerView::Tasks(hashes_of(torrents))),
            None => failed("qbittorrent: poll_completed failed"@),
        },
        StageView::Failed => match listed(reply) {
            Some(torrents) => finished(AnswerView::Tasks(hashes_of(torrents))),
            None => failed("qbittorrent: poll_failed failed"@),
        },
        StageView::Query => match listed(reply) {
            Some(torrents) => finished(AnswerView::Snapshots(snapshots_of(torrents))),
            None => failed("qbittorrent: query_all failed"@),
        },
        StageView::Version => match reply {
            HttpReply::Answered { status, body, value } => if status == 200 {
                finished(AnswerView::Done)
            } else {
                failed("qbittorrent returned HTTP "@ + text::decimal(status as nat))
            },
            HttpReply::Failed { status, session_id, error } => failed(
                "qbittorrent not reachable: "@ + error@,
            ),
        },
    }
}

impl QbittorrentDownloader {
    fn read(&self, path: &str, stage: Stage) -> (r: Next<Stage>)
        ensures
            r@ == (NextView::Call { call: get_call(self@, 0, path@), stage: stage@ }),
    {
        Next::Call { call: self.get(0, path), stage }
    }

    fn change(&self, change: Change, infohash: String, fields: Vec<Field>) -> (r: Next<Stage>)
        ensures
            r@ == changing(self@, change, infohash@, field_views(fields@)),
    {
        let call = self.post_form(change_path(change), fields);
        Next::Call { call, stage: Stage::Changed { change, infohash } }
    }

    fn added(&self, dir: String, result: Result<Option<&Json>, String>) -> (r: Next<Stage>)
        ensures
            r@ == after_add(
                self@,
                dir@,
                match result {
                    Ok(Some(v)) => Ok(Some(*v)),
                    Ok(None) => Ok(None),
                    Err(e) => Err(e@),
                },
            ),
    {
        match result {
            Ok(value) => match read_added(value) {
                Some(infohash) => Next::Done(Ok(Answer::Infohash(infohash))),
                None => self.read("torrents/info?filter=all", Stage::Before { dir }),
            },
            Err(e) => Next::Done(Err(e)),
        }
    }

    fn watch(&self, dir: String, before: Vec<String>, since: u64) -> (r: Next<Stage>)
        ensures
            r@ == watching(self@, dir@, text::views(before@), since),
    {
        Next::Call {
            call: self.get(WAIT_STEP, "torrents/info?filter=all"),
            stage: Stage::Now { dir, before, since },
        }
    }
}

fn change_path(change: Change) -> (r: &'static str)
    ensures
        r@ == path_of(change),
{
    match change {
        Change::Rename => "torrents/renameFile",
        Change::Move => "torrents/setLocation",
        Change::Pause => "torrents/stop",
        Change::Resume => "torrents/start",
        Change::Remove => "torrents/delete",
    }
}

fn change_failure(change: Change) -> (r: &'static str)
    ensures
        r@ == failure_of(change),
{
    match change {
        Change::Rename => "qbittorrent: rename failed for ",
        Change::Move => "qbittorrent: move failed for ",
        Change::Pause => "qbittorrent: pause failed for ",
        Change::Resume => "qbittorrent: resume failed for ",
        Change::Remove => "qbittorrent: remove failed for ",
    }
}

fn changed(change: Change, infohash: &str, reply: &HttpReply) -> (r: Next<Stage>)
    ensures
        r@ == (match form_result(*reply, path_of(change)) {
            Ok(value) => finished(
                if change is Rename || change is Move {
                    AnswerView::Changed(OpResult::Done)
                } else {
                    AnswerView::Done
                },
            ),
            Err(e) => failed(failure_of(change) + infohash@ + ": "@ + e),
        }),
{
    match read_form(reply, change_path(change)) {
        Ok(value) => match change {
            Change::Rename => Next::Done(Ok(Answer::Changed(OpResult::Done))),
            Change::Move => Next::Done(Ok(Answer::Changed(OpResult::Done))),
            _ => Next::Done(Ok(Answer::Done)),
        },
        Err(e) => {
            let mut message = text::join3(change_failure(change), infohash, ": ");
            message.append(&e);
            Next::Done(Err(message))
        },
    }
}

fn field<'a>(name: &'a str, value: &'a str) -> (r: Field<'a>)
    ensures
        r.name@ == name@,
        r.value@ == value@,
{
    Field { name, value }
}

impl TorrentDownloader for QbittorrentDownloader {
    type Stage = Stage;

    open spec fn can_start(&self) -> bool {
        true
    }

    open spec fn can_advance(&self, stage: Stage) -> bool {
        true
    }

    fn is_ready(&self) -> (r: bool) {
        true
    }

    fn is_open(&self, stage: &Stage) -> (r: bool) {
        true
    }

    fn start(&mut self, op: Op, stamp: u128) -> (r: Next<Stage>)
        ensures
            r@ == first_step(old(self)@, op, stamp),
            final(self)@ == old(self)@,
    {
        match op {
            Op::AddUri { uri, dir } => {
                let fields = vec![
                    field("urls", &uri),
                    field("savepath", &dir),
                    field("autoTMM", "false"),
                ];
                assert(field_views(fields@) =~= seq![
                    ("urls"@, uri@),
                    ("savepath"@, dir@),
                    ("autoTMM"@, "false"@),
                ]);
                let call = self.post_form("torrents/add", fields);
                Next::Call { call, stage: Stage::AddUri { dir } }
            },
            Op::AddTorrentBytes { data, dir } => {
                let call = self.post_multipart(stamp, &data, &dir);
                Next::Call { call, stage: Stage::AddBytes { dir } }
            },
            Op::ListFiles { infohash } => {
                let path = text::join2("torrents/files?hash=", &infohash);
                self.read(&path, Stage::Files { infohash })
            },
            Op::RenameFile { infohash, old_path, new_name } => {
                let torrent = infohash.clone();
                let fields = vec![
                    field("hash", &torrent),
                    field("oldPath", &old_path),
                    field("newPath", &new_name),
                ];
                assert(field_views(fields@) =~= seq![
                    ("hash"@, infohash@),
                    ("oldPath"@, old_path@),
                    ("newPath"@, new_name@),
                ]);
                self.change(Change::Rename, infohash, fields)
            },
            Op::MoveFiles { infohash, new_location } => {
                let torrent = infohash.clone();
                let fields = vec![field("hashes", &torrent), field("location", &new_location)];
                assert(field_views(fields@) =~= seq![
                    ("hashes"@, infohash@),
                    ("location"@, new_location@),
                ]);
                self.change(Change::Move, infohash, fields)
            },
            Op::Pause { infohash } => {
                let torrent = infohash.clone();
                let fields = vec![field("hashes", &torrent)];
                assert(field_views(fields@) =~= seq![("hashes"@, infohash@)]);
                self.change(Change::Pause, infohash, fields)
            },
            Op::Resume { infohash } => {
                let torrent = infohash.clone();
                let fields = vec![field("hashes", &torrent)];
                assert(field_views(fields@) =~= seq![("hashes"@, infohash@)]);
                self.change(Change::Resume, infohash, fields)
            },
            Op::Remove { infohash, delete_files } => {
                let torrent = infohash.clone();
                let both = if delete_files {
                    "true"
                } else {
                    "false"
                };
                let fields = vec![field("hashes", &torrent), field("deleteFiles", both)];
                assert(field_views(fields@) =~= seq![
                    ("hashes"@, infohash@),
                    ("deleteFiles"@, if delete_files { "true"@ } else { "false"@ }),
                ]);
                self.change(Change::Remove, infohash, fields)
            },
            Op::PollCompleted => self.read("torrents/info?filter=completed", Stage::Completed),
            Op::PollFailed => self.read("torrents/info?filter=errored", Stage::Failed),
            Op::QueryAll => self.read("torrents/info", Stage::Query),
            Op::CheckConnection => self.read("app/version", Stage::Version),
        }
    }

    fn advance(&mut self, stage: Stage, reply: HttpReply, now: u64) -> (r: Next<Stage>)
        ensures
            r@ == next_step(old(self)@, stage@, reply, now),
            final(self)@ == old(self)@,
    {
        match stage {
            Stage::AddUri { dir } => self.added(dir, read_form(&reply, "torrents/add")),
            Stage::AddBytes { dir } => {
                let result = read_posted(&reply, "qbittorrent: multipart POST torrents/add", "");
                proof {
                    reveal_strlit("");
                    assert(""@ =~= Seq::<char>::empty());
                }
                self.added(dir, result)
            },
            Stage::Before { dir } => self.watch(dir, read_known(&reply), now),
            Stage::Now { dir, before, since } => match find_new(&read_known(&reply), &before) {
                Some(infohash) => Next::Done(Ok(Answer::Infohash(infohash))),
                None => if now > since && now - since > WAIT_LIMIT {
                    downloader::error_for(
                        "qbittorrent: timed out waiting for torrent to appear in ",
                        &dir,
                    )
                } else {
                    self.watch(dir, before, since)
                },
            },
            Stage::Files { infohash } => match read_list(&reply) {
                Some(files) => Next::Done(
                    Ok(Answer::Files(downloader::read_named_files(files))),
                ),
                None => downloader::error_for("qbittorrent: list_files failed for ", &infohash),
            },
            Stage::Changed { change, infohash } => changed(change, &infohash, &reply),
            Stage::Completed => match read_list(&reply) {
                Some(torrents) => Next::Done(
                    Ok(Answer::Tasks(as_tasks(read_hashes(torrents)))),
                ),
                None => downloader::error("qbittorrent: poll_completed failed"),
            },
            Stage::Failed => match read_list(&reply) {
                Some(torrents) => Next::Done(
                    Ok(Answer::Tasks(as_tasks(read_hashes(torrents)))),
                ),
                None => downloader::error("qbittorrent: poll_failed failed"),
            },
            Stage::Query => match read_list(&reply) {
                Some(torrents) => Next::Done(Ok(Answer::Snapshots(read_snapshots(torrents)))),
                None => downloader::error("qbittorrent: query_all failed"),
            },
            Stage::Version => match &reply {
                HttpReply::Answered { status, body, value } => if *status == 200 {
                    Next::Done(Ok(Answer::Done))
                } else {
                    let code = text::decimal_text(*status as u64);
                    downloader::error_for("qbittorrent returned HTTP ", &code)
                },
                HttpReply::Failed { status, session_id, error } => downloader::error_for(
                    "qbittorrent not reachable: ",
                    error,
                ),
            },
        }
    }
}

// ── Laws ──

/// A failed query is told from an empty one: it gives an error, never an empty list.
pub proof fn law_failed_query_is_an_error(
    d: QbittorrentView,
    stage: StageView,
    reply: HttpReply,
    now: u64,
)
    requires
        stage is Query || stage is Completed || stage is Failed,
    ensures
        next_step(d, stage, reply, now) matches NextView::Done(result) && (result is Ok <==> listed(
            reply,
        ) is Some),
{
}

/// A torrent that is reported as added was not there before.
pub proof fn law_added_torrent_is_new(now: Seq<Seq<char>>, before: Seq<Seq<char>>)
    ensures
        match first_new(now, before) {
            Some(infohash) => now.contains(infohash) && !before.contains(infohash),
            None => forall|i: int| 0 <= i < now.len() ==> before.contains(#[trigger] now[i]),
        },
    decreases now.len(),
{
    if now.len() > 0 {
        let rest = now.skip(1);
        law_added_torrent_is_new(rest, before);
        if before.contains(now[0]) {
            match first_new(rest, before) {
                Some(infohash) => {
                    let i = choose|i: int| 0 <= i < rest.len() && rest[i] == infohash;
                    assert(now[i + 1] == infohash);
                },
                None => {
                    assert forall|i: int| 0 <= i < now.len() implies before.contains(
                        #[trigger] now[i],
                    ) by {
                        if i > 0 {
                            assert(rest[i - 1] == now[i]);
                        }
                    }
                },
            }
        } else {
            assert(now[0] == first_new(now, before)->Some_0);
        }
    }
}

/// The watch for an added torrent ends: after ten seconds no further look is taken.
pub proof fn law_watch_ends(d: QbittorrentView, stage: StageView, reply: HttpReply, now: u64)
    requires
        stage matches StageView::Now { dir, before, since } && now > since && now - since
            > WAIT_LIMIT,
    ensures
        next_step(d, stage, reply, now) is Done,
{
}

/// A request carries the client's credentials.
pub open spec fn is_signed(d: QbittorrentView, call: CallView) -> bool {
    call.headers.contains(
        (
            "Authorization"@,
            "Basic "@ + encode::base64_text(encode_utf8(d.username + ":"@ + d.password)),
        ),
    )
}

/// A request reads from a path of the API.
pub open spec fn reads(d: QbittorrentView, call: CallView, path: Seq<char>) -> bool {
    &&& !call.post
    &&& call.url == d.api_url + "/api/v2/"@ + path
    &&& call.body == PayloadView::Nothing
    &&& is_signed(d, call)
}

/// A request posts a form to a path of the API.
pub open spec fn posts(d: QbittorrentView, call: CallView, path: Seq<char>, form: Seq<char>) -> bool {
    &&& call.post
    &&& call.url == d.api_url + "/api/v2/"@ + path
    &&& call.headers.contains(("Content-Type"@, "application/x-www-form-urlencoded"@))
    &&& call.body == PayloadView::Text(form)
    &&& is_signed(d, call)
}

/// A field of a form.
pub open spec fn pair(name: Seq<char>, value: Seq<char>) -> Seq<char> {
    encode::field_encoded(name) + "="@ + encode::field_encoded(value)
}

/// The infohash that a torrent is listed with, if it is.
pub open spec fn hash_listed() -> spec_fn(Json) -> Option<Seq<char>> {
    |t: Json| json::text_of(json::member(t, "hash"@))
}

proof fn lemma_hashes(torrents: Seq<Json>)
    ensures
        json::are_those_given(hashes_of(torrents), torrents, hash_listed()),
{
    let f = |t: Json| hash_of(t);
    assert(f =~= hash_listed());
    json::law_collected_in_order(torrents, f);
}

proof fn lemma_reads(d: QbittorrentView, wait_ms: u64, path: Seq<char>)
    ensures
        reads(d, get_call(d, wait_ms, path), path),
{
    assert(get_call(d, wait_ms, path).headers[0] == credentials(d));
}

proof fn lemma_posts(d: QbittorrentView, path: Seq<char>, fields: Seq<(Seq<char>, Seq<char>)>)
    ensures
        posts(d, form_call(d, path, fields), path, form_text(fields)),
        fields.len() == 1 ==> form_text(fields) == pair(fields[0].0, fields[0].1),
        fields.len() == 2 ==> form_text(fields) == pair(fields[0].0, fields[0].1) + "&"@ + pair(
            fields[1].0,
            fields[1].1,
        ),
        fields.len() == 3 ==> form_text(fields) == pair(fields[0].0, fields[0].1) + "&"@ + pair(
            fields[1].0,
            fields[1].1,
        ) + "&"@ + pair(fields[2].0, fields[2].1),
{
    let call = form_call(d, path, fields);
    assert(call.headers[0] == credentials(d));
    assert(call.headers[1] == ("Content-Type"@, "application/x-www-form-urlencoded"@));
    reveal_with_fuel(form_text, 4);
}

/// A poll for completed downloads asks qBittorrent for its completed torrents, and for nothing
/// else; it reports the infohash of every torrent that is listed in answer, in the order of the
/// list, and no other. An answer that is no list is a failure.
pub proof fn law_completed_torrents_are_reported(
    d: QbittorrentView,
    stamp: u128,
    reply: HttpReply,
    torrents: Vec<Json>,
    other: Json,
    now: u64,
)
    ensures
        ({
            &&& first_step(d, Op::PollCompleted, stamp) matches NextView::Call { call, stage }
            &&& reads(d, call, "torrents/info?filter=completed"@)
            &&& downloader::answers(reply, Json::List(torrents)) ==> {
                &&& next_step(d, stage, reply, now) is Done
                &&& next_step(d, stage, reply, now)->Done_0 is Ok
                &&& next_step(d, stage, reply, now)->Done_0->Ok_0 is Tasks
                &&& json::are_those_given(
                    next_step(d, stage, reply, now)->Done_0->Ok_0->Tasks_0,
                    torrents@,
                    hash_listed(),
                )
            }
            &&& reply is Failed || downloader::answers(reply, other) && !(other is List) ==> {
                &&& next_step(d, stage, reply, now) is Done
                &&& next_step(d, stage, reply, now)->Done_0 is Err
            }
        }),
{
    lemma_reads(d, 0, "torrents/info?filter=completed"@);
    lemma_hashes(torrents@);
}

/// A poll for failed downloads asks qBittorrent for the torrents with an error, and for nothing
/// else; it reports the infohash of every torrent that is listed in answer, in the order of the
/// list, and no other. An answer that is no list is a failure.
pub proof fn law_failed_torrents_are_reported(
    d: QbittorrentView,
    stamp: u128,
    reply: HttpReply,
    torrents: Vec<Json>,
    other: Json,
    now: u64,
)
    ensures
        ({
            &&& first_step(d, Op::PollFailed, stamp) matches NextView::Call { call, stage }
            &&& reads(d, call, "torrents/info?filter=errored"@)
            &&& downloader::answers(reply, Json::List(torrents)) ==> {
                &&& next_step(d, stage, reply, now) is Done
                &&& next_step(d, stage, reply, now)->Done_0 is Ok
                &&& next_step(d, stage, reply, now)->Done_0->Ok_0 is Tasks
                &&& json::are_those_given(
                    next_step(d, stage, reply, now)->Done_0->Ok_0->Tasks_0,
                    torrents@,
                    hash_listed(),
                )
            }
            &&& reply is Failed || downloader::answers(reply, other) && !(other is List) ==> {
                &&& next_step(d, stage, reply, now) is Done
                &&& next_step(d, stage, reply, now)->Done_0 is Err
            }
        }),
{
    lemma_reads(d, 0, "torrents/info?filter=errored"@);
    lemma_hashes(torrents@);
}

/// A progress counts as complete if single precision holds it as 1 or more.
pub open spec fn is_full(progress: Number) -> bool {
    match progress {
        Number::Unsigned(n) => n > 0,
        Number::Negative(n) => false,
        Number::Double(bits) => 0x3fef_ffff_f000_0000 <= bits <= 0x7ff0_0000_0000_0000,
    }
}

/// A query asks for all torrents, and shows each that is listed, in the order of the list: with its
/// infohash, name, size, speed and progress as they are listed.
pub proof fn law_query_shows_every_torrent(
    d: QbittorrentView,
    stamp: u128,
    reply: HttpReply,
    torrents: Vec<Json>,
    i: int,
    now: u64,
)
    requires
        downloader::answers(reply, Json::List(torrents)),
        0 <= i < torrents@.len(),
    ensures
        ({
            let shown = next_step(d, StageView::Query, reply, now)->Done_0->Ok_0->Snapshots_0;
            let t = torrents@[i];
            &&& first_step(d, Op::QueryAll, stamp) matches NextView::Call { call, stage }
            &&& reads(d, call, "torrents/info"@)
            &&& stage == StageView::Query
            &&& next_step(d, stage, reply, now) == NextView::<StageView>::Done(
                Ok(AnswerView::Snapshots(shown)),
            )
            &&& shown.len() == torrents@.len()
            &&& json::text_of(json::member(t, "hash"@)) matches Some(hash) ==> shown[i].infohash
                == hash
            &&& json::text_of(json::member(t, "name"@)) matches Some(name) ==> shown[i].name
                == name
            &&& json::unsigned_of(json::member(t, "size"@)) matches Some(size) ==> shown[i].size
                == size
            &&& json::unsigned_of(json::member(t, "dlspeed"@)) matches Some(speed)
                ==> shown[i].speed == speed
            &&& json::number_of(json::member(t, "progress"@)) matches Some(progress)
                ==> shown[i].progress == Progress::Reported(progress)
        }),
{
    lemma_reads(d, 0, "torrents/info"@);
}

/// A torrent with an error is shown as failed, and no other is; one that was paused as paused, and
/// no other. A torrent that uploads is shown as seeding, and so is one that downloads what is
/// already full; one that downloads and is not full is shown as downloading.
pub proof fn law_torrents_are_shown_in_their_state(torrent: Json)
    ensures
        ({
            let state = downloader::text_in(torrent, "state"@);
            let full = is_full(downloader::number_in(torrent, "progress"@));
            let shown = snapshot_of(torrent).state;
            let uploads = state == "uploading"@ || state == "stalledUP"@ || state == "queuedUP"@
                || state == "checkingUP"@;
            let works = state == "downloading"@ || state == "stalledDL"@ || state == "queuedDL"@
                || state == "checkingDL"@ || state == "metaDL"@ || state == "forcedDL"@ || state
                == "forcedUP"@ || state == "allocating"@ || state == "moving"@;
            &&& shown == DownloadState::Failed <==> state == "error"@ || state == "missingFiles"@
                || state == "unknown"@
            &&& shown == DownloadState::Paused <==> state == "pausedUP"@ || state == "pausedDL"@
            &&& shown == DownloadState::Seeding <==> uploads || works && full
            &&& shown == DownloadState::Downloading <==> works && !full
        }),
{
    reveal_strlit("uploading");
    reveal_strlit("stalledUP");
    reveal_strlit("queuedUP");
    reveal_strlit("checkingUP");
    reveal_strlit("downloading");
    reveal_strlit("stalledDL");
    reveal_strlit("queuedDL");
    reveal_strlit("checkingDL");
    reveal_strlit("metaDL");
    reveal_strlit("forcedDL");
    reveal_strlit("forcedUP");
    reveal_strlit("allocating");
    reveal_strlit("moving");
    reveal_strlit("pausedUP");
    reveal_strlit("pausedDL");
    reveal_strlit("error");
    reveal_strlit("missingFiles");
    reveal_strlit("unknown");
    let state = downloader::text_in(torrent, "state"@);
    let first = state[0];
    let second = state[1];
    assert("uploading"@[0] == 'u' && "unknown"@[0] == 'u' && "uploading"@[1] == 'p'
        && "unknown"@[1] == 'n');
    assert("stalledUP"@[0] == 's' && "queuedUP"@[0] == 'q' && "checkingUP"@[0] == 'c');
    assert("stalledDL"@[0] == 's' && "queuedDL"@[0] == 'q' && "checkingDL"@[0] == 'c');
    assert("stalledUP"@[7] == 'U' && "stalledDL"@[7] == 'D' && "queuedUP"@[6] == 'U'
        && "queuedDL"@[6] == 'D' && "checkingUP"@[8] == 'U' && "checkingDL"@[8] == 'D');
    assert("downloading"@[0] == 'd' && "metaDL"@[0] == 'm' && "forcedDL"@[0] == 'f'
        && "forcedUP"@[0] == 'f' && "allocating"@[0] == 'a' && "moving"@[0] == 'm');
    assert("metaDL"@[1] == 'e' && "moving"@[1] == 'o' && "missingFiles"@[1] == 'i');
    assert("pausedUP"@[0] == 'p' && "pausedDL"@[0] == 'p' && "error"@[0] == 'e'
        && "missingFiles"@[0] == 'm');
}

/// The files of a torrent are asked for under its infohash, and given as they are listed: each
/// with its path and the name behind the last slash of the path.
pub proof fn law_listed_files_are_given(
    d: QbittorrentView,
    infohash: String,
    stamp: u128,
    reply: HttpReply,
    entries: Vec<Json>,
    now: u64,
)
    requires
        downloader::answers(reply, Json::List(entries)),
    ensures
        ({
            &&& first_step(d, Op::ListFiles { infohash }, stamp) matches NextView::Call { call, stage }
            &&& reads(d, call, "torrents/files?hash="@ + infohash@)
            &&& next_step(d, stage, reply, now) is Done
            &&& next_step(d, stage, reply, now)->Done_0 is Ok
            &&& next_step(d, stage, reply, now)->Done_0->Ok_0 is Files
            &&& downloader::is_file_list(
                next_step(d, stage, reply, now)->Done_0->Ok_0->Files_0,
                entries@,
            )
        }),
{
    lemma_reads(d, 0, "torrents/files?hash="@ + infohash@);
    downloader::law_files_are_listed(entries@);
}

/// A link is added to the torrents with the directory that it is to be saved in, and nothing else
/// decides where it goes.
pub proof fn law_link_is_added(d: QbittorrentView, uri: String, dir: String, stamp: u128)
    ensures
        first_step(d, Op::AddUri { uri, dir }, stamp) matches NextView::Call { call, stage } && posts(
            d,
            call,
            "torrents/add"@,
            pair("urls"@, uri@) + "&"@ + pair("savepath"@, dir@) + "&"@ + pair(
                "autoTMM"@,
                "false"@,
            ),
        ),
{
    lemma_posts(
        d,
        "torrents/add"@,
        seq![("urls"@, uri@), ("savepath"@, dir@), ("autoTMM"@, "false"@)],
    );
}

/// The bytes of a torrent are uploaded as they are, in a part of their own between the boundary
/// that the request names, followed by the directory that the torrent is to be saved in.
pub proof fn law_bytes_are_uploaded(d: QbittorrentView, data: Vec<u8>, dir: String, stamp: u128)
    ensures
        ({
            &&& first_step(d, Op::AddTorrentBytes { data, dir }, stamp) matches NextView::Call {
                call,
                stage,
            }
            &&& call.post
            &&& call.url == d.api_url + "/api/v2/"@ + "torrents/add"@
            &&& is_signed(d, call)
            &&& call.headers.len() == 2
            &&& call.headers[1].0 == "Content-Type"@
            &&& call.body is Bytes
            &&& exists|mark: Seq<char>|
                call.headers[1].1 == #[trigger] ("multipart/form-data; boundary="@ + mark)
                    && call.body->Bytes_0 == encode_utf8(
                    "--"@ + mark
                        + "\r\nContent-Disposition: form-data; name=\"torrents\"; filename=\"download.torrent\"\r\nContent-Type: application/x-bittorrent\r\n\r\n"@,
                ) + data@ + encode_utf8(
                    "\r\n"@ + ("--"@ + mark + "\r\nContent-Disposition: form-data; name=\""@
                        + "savepath"@ + "\"\r\n\r\n"@ + dir@ + "\r\n"@) + ("--"@ + mark
                        + "\r\nContent-Disposition: form-data; name=\""@ + "autoTMM"@
                        + "\"\r\n\r\n"@ + "false"@ + "\r\n"@) + "--"@ + mark + "--\r\n"@,
                )
        }),
{
    let call = upload_call(d, stamp, data@, dir@);
    assert(call.headers[0] == credentials(d));
    let mark = boundary(stamp);
    assert(call.headers[1].1 == "multipart/form-data; boundary="@ + mark);
}

/// A torrent that qBittorrent names in its answer is reported as added under that name. Otherwise
/// all torrents are listed, twice: one that is listed the second time and was not the first time
/// is reported as added, the first such one of the list.
pub proof fn law_added_torrent_is_reported(
    d: QbittorrentView,
    dir: Seq<char>,
    before: Seq<Seq<char>>,
    since: u64,
    status: u16,
    body: String,
    v: Json,
    members: Vec<Json>,
    reply: HttpReply,
    torrents: Vec<Json>,
    now: u64,
)
    requires
        200 <= status < 300,
        downloader::answers(reply, Json::List(torrents)),
    ensures
        ({
            let answer = HttpReply::Answered { status, body, value: Ok(v) };
            let added = next_step(d, StageView::AddUri { dir }, answer, now);
            let blank = text::trimmed(body@).len() == 0 || text::trimmed(body@) == "Ok."@;
            &&& added == next_step(d, StageView::AddBytes { dir }, answer, now)
            &&& !blank && json::member(v, "added_torrent_ids"@) == Some(Json::List(members))
                && members@.len() > 0 && members@[0] is Text ==> added
                == NextView::<StageView>::Done(
                Ok(AnswerView::Infohash(members@[0]->Text_0@)),
            )
            &&& blank ==> {
                &&& added matches NextView::Call { call, stage }
                &&& reads(d, call, "torrents/info?filter=all"@)
                &&& stage == (StageView::Before { dir })
            }
        }),
        ({
            &&& next_step(d, StageView::Before { dir }, reply, now) matches NextView::Call {
                call,
                stage,
            }
            &&& reads(d, call, "torrents/info?filter=all"@)
            &&& stage is Now
            &&& stage->since == now
            &&& json::are_those_given(stage->before, torrents@, hash_listed())
        }),
        ({
            let looked = next_step(d, StageView::Now { dir, before, since }, reply, now);
            &&& looked matches NextView::Done(Ok(answer)) ==> {
                &&& answer is Infohash
                &&& !before.contains(answer->Infohash_0)
                &&& exists|i: int|
                    0 <= i < torrents@.len() && hash_listed()(#[trigger] torrents@[i]) == Some(
                        answer->Infohash_0,
                    )
            }
            &&& (exists|i: int|
                0 <= i < torrents@.len() && (hash_listed()(#[trigger] torrents@[i]) matches Some(h)
                    && !before.contains(h))) ==> looked is Done && looked->Done_0 is Ok
        }),
{
    lemma_reads(d, 0, "torrents/info?filter=all"@);
    lemma_reads(d, WAIT_STEP, "torrents/info?filter=all"@);
    lemma_hashes(torrents@);
    let f = |t: Json| hash_of(t);
    assert(f =~= hash_listed());
    let found = hashes_of(torrents@);
    law_added_torrent_is_new(found, before);
    if let Some(h) = first_new(found, before) {
        json::law_given_values(found, torrents@, f, h);
    }
    if exists|i: int|
        0 <= i < torrents@.len() && (hash_listed()(#[trigger] torrents@[i]) matches Some(h)
            && !before.contains(h)) {
        let i = choose|i: int|
            0 <= i < torrents@.len() && (hash_listed()(#[trigger] torrents@[i]) matches Some(h)
                && !before.contains(h));
        let h = hash_listed()(torrents@[i])->0;
        json::law_given_values(found, torrents@, f, h);
        assert(found.contains(h));
        let k = found.index_of(h);
        assert(found[k] == h);
    }
}

/// A torrent is renamed, moved, stopped, started or deleted under its own infohash, with what the
/// operation says.
pub proof fn law_changes_are_posted(
    d: QbittorrentView,
    infohash: String,
    one: String,
    two: String,
    delete_files: bool,
    stamp: u128,
)
    ensures
        first_step(
            d,
            Op::RenameFile { infohash, old_path: one, new_name: two },
            stamp,
        ) matches NextView::Call { call, stage } && posts(
            d,
            call,
            "torrents/renameFile"@,
            pair("hash"@, infohash@) + "&"@ + pair("oldPath"@, one@) + "&"@ + pair(
                "newPath"@,
                two@,
            ),
        ) && changes(stage, true),
        first_step(d, Op::MoveFiles { infohash, new_location: one }, stamp) matches NextView::Call {
            call,
            stage,
        } && posts(
            d,
            call,
            "torrents/setLocation"@,
            pair("hashes"@, infohash@) + "&"@ + pair("location"@, one@),
        ) && changes(stage, true),
        first_step(d, Op::Pause { infohash }, stamp) matches NextView::Call { call, stage } && posts(
            d,
            call,
            "torrents/stop"@,
            pair("hashes"@, infohash@),
        ) && changes(stage, false),
        first_step(d, Op::Resume { infohash }, stamp) matches NextView::Call { call, stage }
            && posts(d, call, "torrents/start"@, pair("hashes"@, infohash@)) && changes(
            stage,
            false,
        ),
        first_step(d, Op::Remove { infohash, delete_files }, stamp) matches NextView::Call {
            call,
            stage,
        } && posts(
            d,
            call,
            "torrents/delete"@,
            pair("hashes"@, infohash@) + "&"@ + pair(
                "deleteFiles"@,
                if delete_files {
                    "true"@
                } else {
                    "false"@
                },
            ),
        ) && changes(stage, false),
{
    lemma_posts(
        d,
        "torrents/renameFile"@,
        seq![("hash"@, infohash@), ("oldPath"@, one@), ("newPath"@, two@)],
    );
    lemma_posts(
        d,
        "torrents/setLocation"@,
        seq![("hashes"@, infohash@), ("location"@, one@)],
    );
    lemma_posts(d, "torrents/stop"@, seq![("hashes"@, infohash@)]);
    lemma_posts(d, "torrents/start"@, seq![("hashes"@, infohash@)]);
    lemma_posts(
        d,
        "torrents/delete"@,
        seq![
            ("hashes"@, infohash@),
            ("deleteFiles"@, if delete_files { "true"@ } else { "false"@ }),
        ],
    );
}

/// A stage awaits the answer to a change, of files or of the torrent itself.
pub open spec fn changes(stage: StageView, files: bool) -> bool {
    stage is Changed && (files <==> stage->change is Rename || stage->change is Move)
}

/// A change worked exactly if it is answered with a status of success, and either with nothing, with
/// `Ok.` or with a JSON value.
pub proof fn law_change_works_if_it_is_answered(
    d: QbittorrentView,
    stage: StageView,
    files: bool,
    reply: HttpReply,
    now: u64,
)
    requires
        changes(stage, files),
    ensures
        ({
            let worked = match reply {
                HttpReply::Answered { status, body, value } => 200 <= status < 300 && (
                text::trimmed(body@).len() == 0 || text::trimmed(body@) == "Ok."@ || value is Ok),
                HttpReply::Failed { .. } => false,
            };
            let done = next_step(d, stage, reply, now);
            &&& done is Done
            &&& done->Done_0 is Ok <==> worked
            &&& worked && files ==> done->Done_0->Ok_0 == AnswerView::Changed(OpResult::Done)
            &&& worked && !files ==> done->Done_0->Ok_0 == AnswerView::Done
        }),
{
}

/// qBittorrent is there if it answers the question for its version with 200, and not otherwise.
pub proof fn law_check_asks_for_the_version(
    d: QbittorrentView,
    stamp: u128,
    reply: HttpReply,
    now: u64,
)
    ensures
        ({
            &&& first_step(d, Op::CheckConnection, stamp) matches NextView::Call { call, stage }
            &&& reads(d, call, "app/version"@)
            &&& next_step(d, stage, reply, now) is Done
            &&& next_step(d, stage, reply, now)->Done_0 is Ok <==> (
            reply matches HttpReply::Answered { status, .. } && status == 200)
        }),
{
    lemma_reads(d, 0, "app/version"@);
}

/// A torrent is not reported as added where the request was refused or got no answer.
pub proof fn law_refused_torrent_is_not_added(
    d: QbittorrentView,
    dir: Seq<char>,
    reply: HttpReply,
    now: u64,
)
    requires
        reply is Failed || !(200 <= reply->Answered_status < 300),
    ensures
        next_step(d, StageView::AddUri { dir }, reply, now) matches NextView::Done(Err(_)),
        next_step(d, StageView::AddBytes { dir }, reply, now) matches NextView::Done(Err(_)),
{
}

/// An added torrent that is not listed yet is looked for again every half a second, for ten
/// seconds; then it is a failure.
pub proof fn law_added_torrent_is_waited_for(
    d: QbittorrentView,
    dir: Seq<char>,
    before: Seq<Seq<char>>,
    since: u64,
    reply: HttpReply,
    torrents: Vec<Json>,
    now: u64,
)
    requires
        downloader::answers(reply, Json::List(torrents)),
        forall|i: int|
            0 <= i < torrents@.len() ==> (hash_listed()(#[trigger] torrents@[i]) matches Some(h)
                ==> before.contains(h)),
    ensures
        ({
            let looked = next_step(d, StageView::Now { dir, before, since }, reply, now);
            &&& now > since + 10_000 ==> looked is Done && looked->Done_0 is Err
            &&& now <= since + 10_000 ==> {
                &&& looked matches NextView::Call { call, stage }
                &&& reads(d, call, "torrents/info?filter=all"@)
                &&& call.wait_ms == 500
                &&& stage == (StageView::Now { dir, before, since })
            }
        }),
{
    lemma_reads(d, 500, "torrents/info?filter=all"@);
    let f = |t: Json| hash_of(t);
    assert(f =~= hash_listed());
    let found = hashes_of(torrents@);
    law_added_torrent_is_new(found, before);
    if let Some(h) = first_new(found, before) {
        json::law_given_values(found, torrents@, f, h);
        let i = choose|i: int| 0 <= i < torrents@.len() && f(#[trigger] torrents@[i]) == Some(h);
        assert(hash_listed()(torrents@[i]) == Some(h));
    }
}

} // verus!
