//! Where the state is kept, and the state that the application starts with.
use vstd::prelude::*;

use crate::config::Config;
use crate::state::{AppState, AppStateView};
use crate::text;

verus! {

/// A file in a directory.
pub open spec fn in_dir(dir: Seq<char>, name: Seq<char>) -> Seq<char> {
    if dir.len() == 0 {
        name
    } else if dir.last() == '/' {
        dir + name
    } else {
        dir + "/"@ + name
    }
}

fn join(dir: &str, name: &str) -> (r: String)
    ensures
        r@ == in_dir(dir@, name@),
{
    proof {
        reveal_strlit("/");
        assert("/"@ =~= seq!['/']);
    }
    if dir.is_empty() {
        name.to_owned()
    } else if text::ends_with(dir, "/") {
        assert(dir@.subrange(dir@.len() - 1, dir@.len() as int)[0] == '/');
        text::join2(dir, name)
    } else {
        assert(dir@.last() != '/') by {
            if dir@.last() == '/' {
                assert(dir@.subrange(dir@.len() - 1, dir@.len() as int) =~= "/"@);
            }
        }
        text::join3(dir, "/", name)
    }
}

/// The file that holds the state.
pub fn data_path(data_dir: &str) -> (r: String)
    ensures
        r@ == in_dir(data_dir@, "state.json"@),
{
    join(data_dir, "state.json")
}

/// The file that the state is written to before it takes the place of the old one.
pub fn temporary_path(data_dir: &str) -> (r: String)
    ensures
        r@ == in_dir(data_dir@, "state.tmp"@),
{
    join(data_dir, "state.tmp")
}

/// What is done next to save the state.
#[derive(Debug, PartialEq)]
pub enum SaveStep {
    /// The text of the state is written to a file.
    Write { path: String },
    /// A file takes the place of another.
    Replace { from: String, to: String },
    /// Nothing is left to do: the state is saved, or is not for a reason.
    Finished(Result<(), String>),
}

#[verifier::ext_equal]
pub enum SaveStepView {
    Write { path: Seq<char> },
    Replace { from: Seq<char>, to: Seq<char> },
    Finished(Option<Seq<char>>),
}

/// What went wrong, if anything did.
pub open spec fn failure(result: Result<(), String>) -> Option<Seq<char>> {
    match result {
        Ok(_) => None,
        Err(e) => Some(e@),
    }
}

impl View for SaveStep {
    type V = SaveStepView;

    open spec fn view(&self) -> SaveStepView {
        match self {
            SaveStep::Write { path } => SaveStepView::Write { path: path@ },
            SaveStep::Replace { from, to } => SaveStepView::Replace { from: from@, to: to@ },
            SaveStep::Finished(result) => SaveStepView::Finished(failure(*result)),
        }
    }
}

/// What is done first to save the state.
pub open spec fn first_save_step(data_dir: Seq<char>) -> SaveStepView {
    SaveStepView::Write { path: in_dir(data_dir, "state.tmp"@) }
}

/// What is done after a step that went as told.
pub open spec fn next_save_step(
    data_dir: Seq<char>,
    done: SaveStepView,
    failed: Option<Seq<char>>,
) -> SaveStepView {
    match done {
        SaveStepView::Write { path } => match failed {
            None => SaveStepView::Replace { from: path, to: in_dir(data_dir, "state.json"@) },
            Some(_) => SaveStepView::Finished(failed),
        },
        SaveStepView::Replace { .. } => SaveStepView::Finished(failed),
        SaveStepView::Finished(_) => done,
    }
}

/// Begins to save the state: its text goes to the temporary file.
pub fn begin_save(data_dir: &str) -> (r: SaveStep)
    ensures
        r@ == first_save_step(data_dir@),
{
    SaveStep::Write { path: temporary_path(data_dir) }
}

/// Goes on after a step: a file that was written takes the place of the old state.
pub fn resume_save(data_dir: &str, done: SaveStep, result: Result<(), String>) -> (r: SaveStep)
    ensures
        r@ == next_save_step(data_dir@, done@, failure(result)),
{
    match done {
        SaveStep::Write { path } => match result {
            Ok(_) => SaveStep::Replace { from: path, to: data_path(data_dir) },
            Err(e) => SaveStep::Finished(Err(e)),
        },
        SaveStep::Replace { .. } => SaveStep::Finished(result),
        SaveStep::Finished(r) => SaveStep::Finished(r),
    }
}

/// Saving is atomic: the text of the state is never written to the state's own file, which is
/// only ever replaced, by the temporary file and after that file was written without a failure.
/// Whatever fails is reported, and two steps are enough.
pub proof fn law_state_is_replaced_as_a_whole(
    data_dir: Seq<char>,
    written: Option<Seq<char>>,
    replaced: Option<Seq<char>>,
)
    ensures
        ({
            let temporary = in_dir(data_dir, "state.tmp"@);
            let own = in_dir(data_dir, "state.json"@);
            let first = first_save_step(data_dir);
            let second = next_save_step(data_dir, first, written);
            let third = next_save_step(data_dir, second, replaced);
            &&& temporary != own
            &&& first == SaveStepView::Write { path: temporary }
            &&& written is None ==> second == (SaveStepView::Replace { from: temporary, to: own })
                && third == SaveStepView::Finished(replaced)
            &&& written is Some ==> second == SaveStepView::Finished(written)
        }),
{
    reveal_strlit("state.tmp");
    reveal_strlit("state.json");
    reveal_strlit("/");
    assert(in_dir(data_dir, "state.tmp"@).len() != in_dir(data_dir, "state.json"@).len());
}

/// The state that the application starts with: what was loaded, or an empty state, with the
/// directories of the configuration, which are never persisted.
pub fn load_initial_state(loaded: Option<AppState>, config: &Config) -> (r: AppState)
    ensures
        ({
            let before = match loaded {
                Some(s) => s@,
                None => AppStateView::empty(),
            };
            r@ == AppStateView {
                download_dir: config@.download_dir,
                library_dir: config@.library_dir,
                ..before
            }
        }),
{
    let state = match loaded {
        Some(s) => s,
        None => AppState::default(),
    };
    AppState {
        feeds: state.feeds,
        tracker: state.tracker,
        seen_urls: state.seen_urls,
        cached_downloads: state.cached_downloads,
        download_dir: config.download_dir.clone(),
        library_dir: config.library_dir.clone(),
        webhook_url: state.webhook_url,
    }
}

} // verus!
