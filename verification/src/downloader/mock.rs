//! A downloader that only pretends, for work without a real one.
use vstd::prelude::*;

use crate::downloader::{
    self, Answer, AnswerView, HttpReply, Next, NextView, Op, OpResult, TorrentDownloader,
};
use crate::encode;
use crate::event;
use crate::handler;
use crate::text;
use crate::types::{
    CompletedDownload, DownloadSnapshot, DownloadSnapshotView, DownloadState, Progress,
    TorrentFile, TorrentFileView,
};

verus! {

/// A task of the mock downloader.
#[derive(Debug)]
pub struct MockTask {
    pub infohash: String,
    pub name: String,
    pub completed: bool,
}

#[verifier::ext_equal]
pub struct MockTaskView {
    pub infohash: Seq<char>,
    pub name: Seq<char>,
    pub completed: bool,
}

impl View for MockTask {
    type V = MockTaskView;

    open spec fn view(&self) -> MockTaskView {
        MockTaskView {
            infohash: self.infohash@,
            name: self.name@,
            completed: self.completed,
        }
    }
}

/// The views of tasks.
pub open spec fn mock_views(tasks: Seq<MockTask>) -> Seq<MockTaskView> {
    Seq::new(tasks.len(), |i: int| tasks[i]@)
}

/// Fake downloader: it makes up infohashes, and every task is completed when it is polled.
#[derive(Debug)]
pub struct MockDownloader {
    tasks: Vec<MockTask>,
    counter: u32,
}

#[verifier::ext_equal]
pub struct MockView {
    pub tasks: Seq<MockTaskView>,
    pub counter: u32,
}

impl View for MockDownloader {
    type V = MockView;

    closed spec fn view(&self) -> MockView {
        MockView { tasks: mock_views(self.tasks@), counter: self.counter }
    }
}

/// The tasks that are there from the start.
pub open spec fn first_tasks() -> Seq<MockTaskView> {
    seq![
        MockTaskView {
            infohash: "AAAAAAAAAAAAAAAAAAAAAAAAAAAAAAAAAAAAAAAA"@,
            name: "Test Anime S01E01"@,
            completed: true,
        },
        MockTaskView {
            infohash: "BBBBBBBBBBBBBBBBBBBBBBBBBBBBBBBBBBBBBBBB"@,
            name: "Test Anime S01E02"@,
            completed: true,
        },
        MockTaskView {
            infohash: "CCCCCCCCCCCCCCCCCCCCCCCCCCCCCCCCCCCCCCCC"@,
            name: "Test Anime S01E03"@,
            completed: true,
        },
    ]
}

/// What stands behind the last slash of a URI.
pub open spec fn last_segment(uri: Seq<char>) -> Seq<char> {
    text::split_on(uri, '/').last()
}

/// The infohash of the task with a number.
pub open spec fn mock_hash(counter: u32) -> Seq<char> {
    "MOCK"@ + encode::zero_padded(encode::hex(counter as nat, true), 8)
}

/// The downloader after a URI was added.
pub open spec fn with_uri(d: MockView, uri: Seq<char>) -> MockView {
    let counter = (d.counter + 1) as u32;
    MockView {
        tasks: d.tasks.push(
            MockTaskView {
                infohash: mock_hash(counter),
                name: last_segment(uri),
                completed: false,
            },
        ),
        counter,
    }
}

/// The name of the first task with an infohash.
pub open spec fn task_name(tasks: Seq<MockTaskView>, infohash: Seq<char>) -> Option<Seq<char>>
    decreases tasks.len(),
{
    if tasks.len() == 0 {
        None
    } else if tasks[0].infohash == infohash {
        Some(tasks[0].name)
    } else {
        task_name(tasks.skip(1), infohash)
    }
}

/// The one file of a task.
pub open spec fn mock_file(name: Seq<char>) -> TorrentFileView {
    let file = "[MockSubs] "@ + name + " - 01 [1080p].mp4"@;
    TorrentFileView { path: file, name: file }
}

/// The infohashes of the tasks that are not completed.
pub open spec fn open_hashes(tasks: Seq<MockTaskView>) -> Seq<Seq<char>>
    decreases tasks.len(),
{
    if tasks.len() == 0 {
        seq![]
    } else if tasks.last().completed {
        open_hashes(tasks.drop_last())
    } else {
        open_hashes(tasks.drop_last()).push(tasks.last().infohash)
    }
}

/// The tasks, all of them completed.
pub open spec fn all_completed(tasks: Seq<MockTaskView>) -> Seq<MockTaskView> {
    Seq::new(tasks.len(), |i: int| MockTaskView { completed: true, ..tasks[i] })
}

/// The snapshot of a task: what it is made up of depends on a number.
pub open spec fn mock_snapshot(task: MockTaskView, seed: u64) -> DownloadSnapshotView {
    let percent = seed % 100;
    let (state, done, total) = if task.completed {
        (DownloadState::Completed, 1u64, 1u64)
    } else if percent < 5 {
        (DownloadState::Waiting, 0u64, 100u64)
    } else if percent < 10 {
        (DownloadState::Paused, seed % 80, 100u64)
    } else {
        (DownloadState::Downloading, percent, 100u64)
    };
    DownloadSnapshotView {
        infohash: task.infohash,
        state,
        progress: Progress::Fraction { done, total },
        speed: if 0 < done < total {
            (seed % 8_000_000 + 500_000) as u64
        } else {
            0
        },
        size: (500_000_000 + seed % 200_000_000) as u64,
        name: task.name,
    }
}

/// The snapshots of tasks, each with its number.
pub open spec fn mock_snapshots(tasks: Seq<MockTaskView>, seeds: Seq<u64>) -> Seq<
    DownloadSnapshotView,
> {
    Seq::new(tasks.len(), |i: int| mock_snapshot(tasks[i], seeds[i]))
}

/// What an operation gives, by a number for each task.
pub open spec fn mock_answer(d: MockView, op: Op, seeds: Seq<u64>) -> Result<AnswerView, Seq<char>> {
    match op {
        Op::AddUri { uri, dir } => Ok(AnswerView::Infohash(mock_hash((d.counter + 1) as u32))),
        Op::AddTorrentBytes { data, dir } => Ok(
            AnswerView::Infohash(mock_hash((d.counter + 1) as u32)),
        ),
        Op::ListFiles { infohash } => match task_name(d.tasks, infohash@) {
            Some(name) => Ok(AnswerView::Files(seq![mock_file(name)])),
            None => Err("mock task not found: "@ + infohash@),
        },
        Op::RenameFile { infohash, old_path, new_name } => Ok(AnswerView::Changed(OpResult::Done)),
        Op::MoveFiles { infohash, new_location } => Ok(
            AnswerView::Changed(OpResult::Unsupported),
        ),
        Op::PollCompleted => Ok(AnswerView::Tasks(open_hashes(d.tasks))),
        Op::PollFailed => Ok(AnswerView::Tasks(seq![])),
        Op::QueryAll => Ok(AnswerView::Snapshots(mock_snapshots(d.tasks, seeds))),
        _ => Ok(AnswerView::Done),
    }
}

/// The downloader after an operation.
pub open spec fn mock_after(d: MockView, op: Op) -> MockView {
    match op {
        Op::AddUri { uri, dir } => with_uri(d, uri@),
        Op::AddTorrentBytes { data, dir } => with_uri(
            d,
            "mock-torrent-"@ + text::decimal(data@.len()),
        ),
        Op::PollCompleted => MockView { tasks: all_completed(d.tasks), ..d },
        _ => d,
    }
}

fn task(infohash: &str, name: &str, completed: bool) -> (r: MockTask)
    ensures
        r@ == (MockTaskView { infohash: infohash@, name: name@, completed }),
{
    MockTask { infohash: infohash.to_owned(), name: name.to_owned(), completed }
}

/// `finish` of `std::collections::hash_map::DefaultHasher` gives a number for what was hashed.
/// Nothing is claimed of the number: the algorithm is not specified.
#[verifier::external_body]
fn hash_number(text: &str) -> u64 {
    let mut hasher = std::collections::hash_map::DefaultHasher::new();
    std::hash::Hash::hash(text, &mut hasher);
    std::hash::Hasher::finish(&hasher)
}

impl MockDownloader {
    /// A downloader with three completed tasks.
    pub fn new() -> (r: Self)
        ensures
            r@ == (MockView { tasks: first_tasks(), counter: 3 }),
    {
        let tasks = vec![
            task("AAAAAAAAAAAAAAAAAAAAAAAAAAAAAAAAAAAAAAAA", "Test Anime S01E01", true),
            task("BBBBBBBBBBBBBBBBBBBBBBBBBBBBBBBBBBBBBBBB", "Test Anime S01E02", true),
            task("CCCCCCCCCCCCCCCCCCCCCCCCCCCCCCCCCCCCCCCC", "Test Anime S01E03", true),
        ];
        assert(mock_views(tasks@) =~= first_tasks());
        MockDownloader { tasks, counter: 3 }
    }

    fn add(&mut self, uri: &str) -> (r: String)
        requires
            old(self)@.counter < u32::MAX,
        ensures
            final(self)@ == with_uri(old(self)@, uri@),
            r@ == mock_hash((old(self)@.counter + 1) as u32),
    {
        self.counter = self.counter + 1;
        let infohash = text::join2("MOCK", &encode::hex_text(self.counter as u128, 8, true));
        let parts = text::split(uri, '/');
        let n: usize = parts.len();
        assert(text::views(parts@).last() == parts@[n - 1]@);
        self.tasks.push(task(&infohash, &parts[n - 1], false));
        assert(self@.tasks =~= with_uri(old(self)@, uri@).tasks);
        infohash
    }

    fn find(&self, infohash: &str) -> (r: Option<&MockTask>)
        ensures
            (match r {
                Some(t) => Some(t.name@),
                None => None,
            }) == task_name(self@.tasks, infohash@),
    {
        let ghost all = self@.tasks;
        let mut i: usize = 0;
        assert(all.skip(0) =~= all);
        while i < self.tasks.len()
            invariant
                i <= self.tasks@.len(),
                all == mock_views(self.tasks@),
                task_name(all, infohash@) == task_name(all.skip(i as int), infohash@),
            decreases self.tasks@.len() - i,
        {
            if *self.tasks[i].infohash.as_str() == *infohash {
                return Some(&self.tasks[i]);
            }
            assert(all.skip(i as int).skip(1) =~= all.skip(i + 1));
            i = i + 1;
        }
        None
    }

    fn poll(&mut self) -> (r: Vec<CompletedDownload>)
        ensures
            downloader::task_views(r@) == open_hashes(old(self)@.tasks),
            final(self)@ == (MockView {
                tasks: all_completed(old(self)@.tasks),
                ..old(self)@
            }),
    {
        let ghost all = self@.tasks;
        let mut out: Vec<CompletedDownload> = Vec::new();
        let mut tasks: Vec<MockTask> = Vec::new();
        let mut i: usize = 0;
        assert(downloader::task_views(out@) =~= open_hashes(all.take(0)));
        while i < self.tasks.len()
            invariant
                i <= self.tasks@.len(),
                self.counter == old(self)@.counter,
                all == mock_views(self.tasks@),
                all == old(self)@.tasks,
                downloader::task_views(out@) == open_hashes(all.take(i as int)),
                tasks@.len() == i,
                forall|j: int|
                    0 <= j < i ==> (#[trigger] tasks@[j])@ == (MockTaskView {
                        completed: true,
                        ..all[j]
                    }),
            decreases self.tasks@.len() - i,
        {
            let ghost before = downloader::task_views(out@);
            assert(all.take(i + 1).drop_last() =~= all.take(i as int));
            let t = &self.tasks[i];
            if !t.completed {
                out.push(CompletedDownload { infohash: t.infohash.clone() });
                assert(downloader::task_views(out@) =~= before.push(all[i as int].infohash));
            }
            tasks.push(task(&t.infohash, &t.name, true));
            i = i + 1;
        }
        assert(all.take(all.len() as int) =~= all);
        self.tasks = tasks;
        assert(self@.tasks =~= all_completed(all));
        out
    }

    /// The snapshots of the tasks, each made up from a number.
    pub fn snapshots_with(&self, seeds: &Vec<u64>) -> (r: Vec<DownloadSnapshot>)
        requires
            seeds@.len() == self@.tasks.len(),
        ensures
            event::snapshot_views(r@) == mock_snapshots(self@.tasks, seeds@),
    {
        let mut out: Vec<DownloadSnapshot> = Vec::new();
        let mut i: usize = 0;
        while i < self.tasks.len()
            invariant
                i <= self.tasks@.len(),
                seeds@.len() == self.tasks@.len(),
                self@.tasks == mock_views(self.tasks@),
                out@.len() == i,
                forall|j: int|
                    0 <= j < i ==> (#[trigger] out@[j])@ == mock_snapshot(
                        self@.tasks[j],
                        seeds@[j],
                    ),
            decreases self.tasks@.len() - i,
        {
            let t = &self.tasks[i];
            let seed: u64 = seeds[i];
            let percent: u64 = seed % 100;
            let (state, done, total): (DownloadState, u64, u64) = if t.completed {
                (DownloadState::Completed, 1, 1)
            } else if percent < 5 {
                (DownloadState::Waiting, 0, 100)
            } else if percent < 10 {
                (DownloadState::Paused, seed % 80, 100)
            } else {
                (DownloadState::Downloading, percent, 100)
            };
            let speed: u64 = if 0 < done && done < total {
                seed % 8_000_000 + 500_000
            } else {
                0
            };
            out.push(
                DownloadSnapshot {
                    infohash: t.infohash.clone(),
                    state,
                    progress: Progress::Fraction { done, total },
                    speed,
                    size: 500_000_000 + seed % 200_000_000,
                    name: t.name.clone(),
                },
            );
            i = i + 1;
        }
        assert(event::snapshot_views(out@) =~= mock_snapshots(self@.tasks, seeds@));
        out
    }

    fn seeds(&self) -> (r: Vec<u64>)
        ensures
            r@.len() == self@.tasks.len(),
    {
        let mut out: Vec<u64> = Vec::new();
        let mut i: usize = 0;
        while i < self.tasks.len()
            invariant
                i <= self.tasks@.len(),
                out@.len() == i,
            decreases self.tasks@.len() - i,
        {
            out.push(hash_number(&self.tasks[i].infohash));
            i = i + 1;
        }
        out
    }
}

/// The mock downloader needs no call.
#[derive(Debug)]
pub struct Stage;

impl View for Stage {
    type V = Stage;

    open spec fn view(&self) -> Stage {
        *self
    }
}

impl TorrentDownloader for MockDownloader {
    type Stage = Stage;

    /// A number for another task is left.
    open spec fn can_start(&self) -> bool {
        self@.counter < u32::MAX
    }

    open spec fn can_advance(&self, stage: Stage) -> bool {
        true
    }

    fn is_ready(&self) -> (r: bool) {
        self.counter < 4294967295
    }

    fn is_open(&self, stage: &Stage) -> (r: bool) {
        true
    }

    fn start(&mut self, op: Op, stamp: u128) -> (r: Next<Stage>)
        ensures
            exists|seeds: Seq<u64>|
                r@ == NextView::<Stage>::Done(#[trigger] mock_answer(old(self)@, op, seeds)),
            final(self)@ == mock_after(old(self)@, op),
    {
        let ghost mut seeds: Seq<u64> = seq![];
        let r = match &op {
            Op::AddUri { uri, dir } => Next::Done(Ok(Answer::Infohash(self.add(uri)))),
            Op::AddTorrentBytes { data, dir } => {
                let count = text::decimal_text(data.len() as u64);
                let uri = text::join2("mock-torrent-", &count);
                Next::Done(Ok(Answer::Infohash(self.add(&uri))))
            },
            Op::ListFiles { infohash } => match self.find(infohash) {
                Some(t) => {
                    let path = text::join3("[MockSubs] ", &t.name, " - 01 [1080p].mp4");
                    let name = path.clone();
                    let files = vec![TorrentFile { path, name }];
                    assert(handler::file_views(files@) =~= seq![mock_file(t.name@)]);
                    Next::Done(Ok(Answer::Files(files)))
                },
                None => downloader::error_for("mock task not found: ", infohash),
            },
            Op::RenameFile { infohash, old_path, new_name } => Next::Done(
                Ok(Answer::Changed(OpResult::Done)),
            ),
            Op::MoveFiles { infohash, new_location } => Next::Done(
                Ok(Answer::Changed(OpResult::Unsupported)),
            ),
            Op::PollCompleted => Next::Done(Ok(Answer::Tasks(self.poll()))),
            Op::PollFailed => {
                let none: Vec<CompletedDownload> = Vec::new();
                assert(downloader::task_views(none@) =~= seq![]);
                Next::Done(Ok(Answer::Tasks(none)))
            },
            Op::QueryAll => {
                let drawn = self.seeds();
                proof {
                    seeds = drawn@;
                }
                Next::Done(Ok(Answer::Snapshots(self.snapshots_with(&drawn))))
            },
            Op::Pause { infohash } => Next::Done(Ok(Answer::Done)),
            Op::Resume { infohash } => Next::Done(Ok(Answer::Done)),
            Op::Remove { infohash, delete_files } => Next::Done(Ok(Answer::Done)),
            Op::CheckConnection => Next::Done(Ok(Answer::Done)),
        };
        assert(r@ == NextView::<Stage>::Done(mock_answer(old(self)@, op, seeds)));
        r
    }

    fn advance(&mut self, stage: Stage, reply: HttpReply, now: u64) -> (r: Next<Stage>)
        ensures
            r@ == NextView::<Stage>::Done(Ok(AnswerView::Done)),
            final(self)@ == old(self)@,
    {
        Next::Done(Ok(Answer::Done))
    }
}

/// The downloader after URIs were added, one after the other.
pub open spec fn with_uris(d: MockView, uris: Seq<Seq<char>>) -> MockView
    decreases uris.len(),
{
    if uris.len() == 0 {
        d
    } else {
        with_uri(with_uris(d, uris.drop_last()), uris.last())
    }
}

/// The infohashes of the next tasks.
pub open spec fn next_hashes(d: MockView, n: nat) -> Seq<Seq<char>> {
    Seq::new(n, |i: int| mock_hash((d.counter + 1 + i) as u32))
}

/// Tasks that were added are reported as completed at the next poll, in the order in which they were
/// added and behind those that were still open before, each under an infohash of its own. No later
/// poll reports any of them again.
pub proof fn law_tasks_complete_once(d: MockView, uris: Seq<Seq<char>>, seeds: Seq<u64>)
    requires
        d.counter + uris.len() <= u32::MAX,
    ensures
        mock_answer(with_uris(d, uris), Op::PollCompleted, seeds) == Ok::<AnswerView, Seq<char>>(
            AnswerView::Tasks(open_hashes(d.tasks) + next_hashes(d, uris.len())),
        ),
        next_hashes(d, uris.len()).no_duplicates(),
        open_hashes(mock_after(with_uris(d, uris), Op::PollCompleted).tasks) == Seq::<
            Seq<char>,
        >::empty(),
{
    lemma_added(d, uris);
    lemma_completed(all_completed(with_uris(d, uris).tasks));
    let hashes = next_hashes(d, uris.len());
    assert forall|i: int, j: int| 0 <= i < hashes.len() && 0 <= j < hashes.len() && i != j implies
        hashes[i] != hashes[j] by {
        if hashes[i] == hashes[j] {
            lemma_hash_is_injective((d.counter + 1 + i) as u32, (d.counter + 1 + j) as u32);
        }
    }
}

/// A downloader whose tasks were all reported reports exactly the tasks that are added, as a new one
/// does.
pub proof fn law_only_added_tasks_complete(d: MockView, uris: Seq<Seq<char>>)
    requires
        d.counter + uris.len() <= u32::MAX,
        forall|i: int| 0 <= i < d.tasks.len() ==> (#[trigger] d.tasks[i]).completed,
    ensures
        open_hashes(with_uris(d, uris).tasks) == next_hashes(d, uris.len()),
        forall|i: int| 0 <= i < first_tasks().len() ==> (#[trigger] first_tasks()[i]).completed,
{
    lemma_added(d, uris);
    lemma_completed(d.tasks);
    assert(open_hashes(d.tasks) + next_hashes(d, uris.len()) =~= next_hashes(d, uris.len()));
}

proof fn lemma_added(d: MockView, uris: Seq<Seq<char>>)
    requires
        d.counter + uris.len() <= u32::MAX,
    ensures
        with_uris(d, uris).counter == d.counter + uris.len(),
        open_hashes(with_uris(d, uris).tasks) == open_hashes(d.tasks) + next_hashes(d, uris.len()),
    decreases uris.len(),
{
    if uris.len() == 0 {
        assert(open_hashes(d.tasks) + next_hashes(d, 0) =~= open_hashes(d.tasks));
    } else {
        let init = uris.drop_last();
        lemma_added(d, init);
        let before = with_uris(d, init);
        let after = with_uris(d, uris);
        assert(after.tasks.drop_last() =~= before.tasks);
        assert(next_hashes(d, init.len()).push(mock_hash((before.counter + 1) as u32))
            =~= next_hashes(d, uris.len()));
        assert((open_hashes(d.tasks) + next_hashes(d, init.len())).push(
            mock_hash((before.counter + 1) as u32),
        ) =~= open_hashes(d.tasks) + next_hashes(d, uris.len()));
    }
}

proof fn lemma_hash_is_injective(a: u32, b: u32)
    requires
        mock_hash(a) == mock_hash(b),
    ensures
        a == b,
{
    let x = encode::zero_padded(encode::hex(a as nat, true), 8);
    let y = encode::zero_padded(encode::hex(b as nat, true), 8);
    let n = "MOCK"@.len() as int;
    assert(mock_hash(a).skip(n) =~= x);
    assert(mock_hash(b).skip(n) =~= y);
    encode::lemma_hex_is_injective(a as nat, b as nat, 8);
}

proof fn lemma_completed(tasks: Seq<MockTaskView>)
    requires
        forall|i: int| 0 <= i < tasks.len() ==> (#[trigger] tasks[i]).completed,
    ensures
        open_hashes(tasks).len() == 0,
    decreases tasks.len(),
{
    if tasks.len() > 0 {
        assert(tasks.last() == tasks[tasks.len() - 1]);
        lemma_completed(tasks.drop_last());
    }
}

} // verus!
