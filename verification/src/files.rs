//! File-system operations, and a file system that only pretends.
use vstd::prelude::*;
use vstd::utf8::*;

use crate::feed_id::FeedId;
use crate::handle::OpenFailure;
use crate::state::{AppState, AppStateView};
use crate::stream::{Cursor, FileStream, ReadSeek};
use crate::tables::{self, Feed, FeedTable, FeedView, Tracker, UrlSet};
use crate::text;
use crate::types::{
    AnimeIdentity, AnimeIdentityView, EpisodeKey, EpisodeKeyView, EpisodeRecord,
    EpisodeRecordView, FeedFilter, FeedFilterView, RecordStatus,
};

verus! {

/// File-system operations.
pub trait FileOps {
    /// What an open file is read from.
    type File;

    /// Whether a path exists.
    fn path_exists(&self, path: &str) -> bool;

    /// Moves a file.
    fn move_file(&mut self, from: &str, to: &str) -> Result<(), String>;

    /// Makes a directory and those above it.
    fn ensure_dir(&mut self, path: &str) -> Result<(), String>;

    /// Reads a file as text.
    fn read_to_string(&self, path: &str) -> Result<String, String>;

    /// Writes a text to a file, in place of what it held.
    fn write_string(&mut self, path: &str, content: &str) -> Result<(), String>;

    /// Opens a file for reading.
    fn open_file(&self, path: &str) -> Result<FileStream<Self::File>, OpenFailure>;
}

/// A file that was moved.
#[derive(Debug, PartialEq)]
pub struct Move {
    pub from: String,
    pub to: String,
}

/// A file that is held in memory.
#[derive(Debug)]
struct StoredFile {
    path: String,
    data: Vec<u8>,
}

/// Fake file system: it keeps track of directories and moves, and holds files in memory.
#[derive(Debug)]
pub struct MockFileSystem {
    dirs: Vec<String>,
    moves: Vec<Move>,
    /// Paths that are taken to exist.
    pub existing: Vec<String>,
    files: Vec<StoredFile>,
    /// What an unknown `.mp4` file holds.
    clip: Vec<u8>,
}

#[verifier::ext_equal]
pub struct MockFsView {
    pub dirs: Seq<Seq<char>>,
    pub moves: Seq<(Seq<char>, Seq<char>)>,
    pub existing: Seq<Seq<char>>,
    /// The files in the order in which they were written; of two with one path the later counts.
    pub files: Seq<(Seq<char>, Seq<u8>)>,
    pub clip: Seq<u8>,
}

impl View for MockFileSystem {
    type V = MockFsView;

    closed spec fn view(&self) -> MockFsView {
        MockFsView {
            dirs: text::views(self.dirs@),
            moves: Seq::new(self.moves@.len(), |i: int| (self.moves@[i].from@, self.moves@[i].to@)),
            existing: text::views(self.existing@),
            files: Seq::new(self.files@.len(), |i: int| (self.files@[i].path@, self.files@[i].data@)),
            clip: self.clip@,
        }
    }
}

/// What a file holds: what was written to its path last.
pub open spec fn stored(files: Seq<(Seq<char>, Seq<u8>)>, path: Seq<char>) -> Option<Seq<u8>>
    decreases files.len(),
{
    if files.len() == 0 {
        None
    } else if files.last().0 == path {
        Some(files.last().1)
    } else {
        stored(files.drop_last(), path)
    }
}

/// The size of an unknown file.
pub const DUMMY_FILE_SIZE: usize = 1_048_576;

/// What an opened file holds; an unknown one is made up.
pub open spec fn opened(fs: MockFsView, path: Seq<char>) -> Seq<u8> {
    match stored(fs.files, path) {
        Some(data) => data,
        None => if ".mp4"@.is_suffix_of(path) {
            fs.clip
        } else {
            Seq::new(DUMMY_FILE_SIZE as nat, |i: int| 0xabu8)
        },
    }
}

fn copy_bytes(bytes: &Vec<u8>) -> (r: Vec<u8>)
    ensures
        r@ == bytes@,
{
    let mut out: Vec<u8> = Vec::new();
    let mut i: usize = 0;
    while i < bytes.len()
        invariant
            i <= bytes@.len(),
            out@ == bytes@.take(i as int),
        decreases bytes@.len() - i,
    {
        out.push(bytes[i]);
        assert(out@ =~= bytes@.take(i + 1));
        i = i + 1;
    }
    assert(bytes@.take(bytes@.len() as int) =~= bytes@);
    out
}

fn bytes_of(text: &str) -> (r: Vec<u8>)
    ensures
        r@ == encode_utf8(text@),
{
    let bytes = text.as_bytes();
    let n: usize = bytes.len();
    let mut out: Vec<u8> = Vec::new();
    let mut i: usize = 0;
    while i < n
        invariant
            n == bytes@.len(),
            i <= n,
            out@ == bytes@.take(i as int),
        decreases n - i,
    {
        out.push(bytes[i]);
        assert(out@ =~= bytes@.take(i + 1));
        i = i + 1;
    }
    assert(bytes@.take(n as int) =~= bytes@);
    out
}

/// The path of a demonstration episode.
pub open spec fn demo_path(episode: u32) -> Seq<char> {
    "/mock/anime/Test Anime/S01/Test Anime S01E"@ + text::decimal2(episode as nat) + ".mp4"@
}

fn make_demo_path(episode: u32) -> (r: String)
    ensures
        r@ == demo_path(episode),
{
    let number = text::decimal2_text(episode as u64);
    text::join3("/mock/anime/Test Anime/S01/Test Anime S01E", &number, ".mp4")
}

impl MockFileSystem {
    /// A file system that holds three demonstration episodes. They and unknown `.mp4` files hold
    /// `clip`.
    pub fn new(clip: Vec<u8>) -> (r: Self)
        ensures
            r@ == (MockFsView {
                dirs: seq![],
                moves: seq![],
                existing: seq![],
                files: seq![
                    (demo_path(1), clip@),
                    (demo_path(2), clip@),
                    (demo_path(3), clip@),
                ],
                clip: clip@,
            }),
    {
        let ghost held = clip@;
        let files = vec![
            StoredFile { path: make_demo_path(1), data: copy_bytes(&clip) },
            StoredFile { path: make_demo_path(2), data: copy_bytes(&clip) },
            StoredFile { path: make_demo_path(3), data: copy_bytes(&clip) },
        ];
        let r = MockFileSystem {
            dirs: Vec::new(),
            moves: Vec::new(),
            existing: Vec::new(),
            files,
            clip,
        };
        assert(r@.files =~= seq![(demo_path(1), held), (demo_path(2), held), (demo_path(3), held)]);
        assert(r@.moves =~= seq![]);
        r
    }

    /// Writes bytes to a file, in place of what it held.
    pub fn write_bytes(&mut self, path: &str, data: Vec<u8>)
        ensures
            final(self)@ == (MockFsView {
                files: old(self)@.files.push((path@, data@)),
                ..old(self)@
            }),
    {
        let ghost before = self@;
        let ghost held = data@;
        self.files.push(StoredFile { path: path.to_owned(), data });
        assert(self@.files =~= before.files.push((path@, held)));
    }

    fn find(&self, path: &str) -> (r: Option<&Vec<u8>>)
        ensures
            (match r {
                Some(data) => Some(data@),
                None => None,
            }) == stored(self@.files, path@),
    {
        let ghost all = self@.files;
        let mut n: usize = self.files.len();
        assert(all.take(n as int) =~= all);
        while n > 0
            invariant
                n <= self.files@.len(),
                all == self@.files,
                all.len() == self.files@.len(),
                stored(all, path@) == stored(all.take(n as int), path@),
            decreases n,
        {
            n = n - 1;
            assert(all[n as int] == (self.files@[n as int].path@, self.files@[n as int].data@));
            if *self.files[n].path.as_str() == *path {
                return Some(&self.files[n].data);
            }
            assert(all.take(n + 1).drop_last() =~= all.take(n as int));
        }
        None
    }

    /// How many files were moved.
    pub fn move_count(&self) -> (r: usize)
        ensures
            r == self@.moves.len(),
    {
        self.moves.len()
    }
}

impl FileOps for MockFileSystem {
    type File = Cursor;

    fn path_exists(&self, path: &str) -> (r: bool)
        ensures
            r == (self@.existing.contains(path@) || stored(self@.files, path@) is Some),
    {
        tables::is_listed(&self.existing, path) || self.find(path).is_some()
    }

    fn move_file(&mut self, from: &str, to: &str) -> (r: Result<(), String>)
        ensures
            r is Ok,
            final(self)@ == (MockFsView {
                moves: old(self)@.moves.push((from@, to@)),
                ..old(self)@
            }),
    {
        let ghost before = self@;
        self.moves.push(Move { from: from.to_owned(), to: to.to_owned() });
        assert(self@.moves =~= before.moves.push((from@, to@)));
        Ok(())
    }

    fn ensure_dir(&mut self, path: &str) -> (r: Result<(), String>)
        ensures
            r is Ok,
            final(self)@ == (MockFsView {
                dirs: if old(self)@.dirs.contains(path@) {
                    old(self)@.dirs
                } else {
                    old(self)@.dirs.push(path@)
                },
                ..old(self)@
            }),
    {
        let ghost before = self@;
        if !tables::is_listed(&self.dirs, path) {
            self.dirs.push(path.to_owned());
            assert(self@.dirs =~= before.dirs.push(path@));
        }
        Ok(())
    }

    fn read_to_string(&self, path: &str) -> (r: Result<String, String>)
        ensures
            match stored(self@.files, path@) {
                None => r is Err && "mock file not found: "@.is_prefix_of(r->Err_0@),
                Some(data) => if valid_utf8(data) {
                    r is Ok && encode_utf8(r->Ok_0@) == data
                } else {
                    r is Err && r->Err_0@ == "mock file not valid UTF-8: "@ + text::utf8_error(data)
                },
            },
    {
        match self.find(path) {
            None => {
                let quoted = quote_path(path);
                let message = text::join2("mock file not found: ", &quoted);
                assert("mock file not found: "@.is_prefix_of("mock file not found: "@ + quoted@));
                Err(message)
            },
            Some(data) => match text::from_utf8(copy_bytes(data)) {
                Ok(content) => Ok(content),
                Err(e) => Err(text::join2("mock file not valid UTF-8: ", &e)),
            },
        }
    }

    fn write_string(&mut self, path: &str, content: &str) -> (r: Result<(), String>)
        ensures
            r is Ok,
            final(self)@ == (MockFsView {
                files: old(self)@.files.push((path@, encode_utf8(content@))),
                ..old(self)@
            }),
    {
        self.write_bytes(path, bytes_of(content));
        Ok(())
    }

    fn open_file(&self, path: &str) -> (r: Result<FileStream<Cursor>, OpenFailure>)
        ensures
            r matches Ok(file) && file.source().content() == opened(self@, path@) && file.len()
                == opened(self@, path@).len() && file.source().position() == 0,
    {
        let data = match self.find(path) {
            Some(data) => copy_bytes(data),
            None => if text::ends_with(path, ".mp4") {
                copy_bytes(&self.clip)
            } else {
                let mut dummy: Vec<u8> = Vec::new();
                let mut i: usize = 0;
                while i < DUMMY_FILE_SIZE
                    invariant
                        i <= DUMMY_FILE_SIZE,
                        dummy@ == Seq::new(i as nat, |k: int| 0xabu8),
                    decreases DUMMY_FILE_SIZE - i,
                {
                    dummy.push(0xab);
                    i = i + 1;
                    assert(dummy@ =~= Seq::new(i as nat, |k: int| 0xabu8));
                }
                assert(dummy@ =~= Seq::new(DUMMY_FILE_SIZE as nat, |k: int| 0xabu8));
                dummy
            },
        };
        assert(data@ =~= opened(self@, path@));
        let size: u64 = data.len() as u64;
        Ok(FileStream::new(Cursor::new(data), size))
    }
}

/// The `Debug` impl of `std::path::Path` prints a path for a message. Nothing is claimed of what it
/// prints: the form of such output is not fixed.
#[verifier::external_body]
fn quote_path(path: &str) -> (r: String) {
    format!("{:?}", std::path::Path::new(path))
}

/// What was written to a file last is read back.
pub proof fn law_written_text_is_read_back(fs: MockFsView, path: Seq<char>, content: Seq<char>)
    ensures
        ({
            let after = fs.files.push((path, encode_utf8(content)));
            &&& stored(after, path) == Some(encode_utf8(content))
            &&& valid_utf8(encode_utf8(content))
            &&& decode_utf8(encode_utf8(content)) == content
        }),
{
    encode_utf8_decode_utf8(content);
    encode_utf8_valid_utf8(content);
}

// ── Demonstration state ──

/// The bits of the identifier of the demonstration feed.
pub const DEMO_FEED: u128 = 0x11111111_1111_1111_1111_111111111111;

/// The demonstration series.
pub open spec fn demo_anime() -> AnimeIdentityView {
    AnimeIdentityView { name: "Test Anime"@, season: 1 }
}

/// The record of a demonstration episode.
pub open spec fn demo_record(infohash: Seq<char>, episode: u32) -> EpisodeRecordView {
    EpisodeRecordView {
        infohash,
        torrent_url: "https://example.com/test.torrent"@,
        feed_id: FeedId { bits: DEMO_FEED },
        key: EpisodeKeyView { anime: demo_anime(), episode },
        status: RecordStatus::InLibrary,
        library_path: Some(demo_path(episode)),
    }
}

/// A state with one feed and three episodes in the library.
pub open spec fn demo() -> AppStateView {
    let a = "AAAAAAAAAAAAAAAAAAAAAAAAAAAAAAAAAAAAAAAA"@;
    let b = "BBBBBBBBBBBBBBBBBBBBBBBBBBBBBBBBBBBBBBBB"@;
    let c = "CCCCCCCCCCCCCCCCCCCCCCCCCCCCCCCCCCCCCCCC"@;
    AppStateView {
        feeds: seq![
            (
                FeedId { bits: DEMO_FEED },
                FeedView {
                    id: FeedId { bits: DEMO_FEED },
                    url: "https://example.com/feed.xml"@,
                    anime: demo_anime(),
                    confirmed: true,
                    bangumi_info: None,
                    filter: FeedFilterView::none(),
                },
            ),
        ],
        tracker: seq![(a, demo_record(a, 1)), (b, demo_record(b, 2)), (c, demo_record(c, 3))],
        seen_urls: set![],
        cached_downloads: seq![],
        download_dir: "/mock/downloads"@,
        library_dir: "/mock/anime"@,
        webhook_url: None,
    }
}

fn make_demo_record(infohash: &str, episode: u32) -> (r: EpisodeRecord)
    ensures
        r@ == demo_record(infohash@, episode),
{
    EpisodeRecord {
        infohash: infohash.to_owned(),
        torrent_url: "https://example.com/test.torrent".to_owned(),
        feed_id: FeedId { bits: DEMO_FEED },
        key: EpisodeKey {
            anime: AnimeIdentity { name: "Test Anime".to_owned(), season: 1 },
            episode,
        },
        status: RecordStatus::InLibrary,
        library_path: Some(make_demo_path(episode)),
    }
}

/// A state with one feed and three episodes in the library.
pub fn demo_state() -> (r: AppState)
    ensures
        r@ == demo(),
{
    let mut feeds = FeedTable::new();
    feeds.insert(
        FeedId { bits: DEMO_FEED },
        Feed {
            id: FeedId { bits: DEMO_FEED },
            url: "https://example.com/feed.xml".to_owned(),
            anime: AnimeIdentity { name: "Test Anime".to_owned(), season: 1 },
            confirmed: true,
            bangumi_info: None,
            filter: FeedFilter::default(),
        },
    );
    let a = "AAAAAAAAAAAAAAAAAAAAAAAAAAAAAAAAAAAAAAAA";
    let b = "BBBBBBBBBBBBBBBBBBBBBBBBBBBBBBBBBBBBBBBB";
    let c = "CCCCCCCCCCCCCCCCCCCCCCCCCCCCCCCCCCCCCCCC";
    proof {
        reveal_strlit("AAAAAAAAAAAAAAAAAAAAAAAAAAAAAAAAAAAAAAAA");
        reveal_strlit("BBBBBBBBBBBBBBBBBBBBBBBBBBBBBBBBBBBBBBBB");
        reveal_strlit("CCCCCCCCCCCCCCCCCCCCCCCCCCCCCCCCCCCCCCCC");
        assert(a@[0] == 'A' && b@[0] == 'B' && c@[0] == 'C');
    }
    let mut tracker = Tracker::new();
    tracker.insert(a.to_owned(), make_demo_record(a, 1));
    tracker.insert(b.to_owned(), make_demo_record(b, 2));
    tracker.insert(c.to_owned(), make_demo_record(c, 3));
    let r = AppState {
        feeds,
        tracker,
        seen_urls: UrlSet::new(),
        cached_downloads: Vec::new(),
        download_dir: "/mock/downloads".to_owned(),
        library_dir: "/mock/anime".to_owned(),
        webhook_url: None,
    };
    assert(r@.tracker =~= demo().tracker);
    assert(r@ =~= demo());
    r
}

} // verus!
