//! The decisions of the store: what to make of the file found at load time,
//! and in which order a save replaces it so that a reader of the file sees
//! the old list or the new one, never a part of either.
//!
//! The file system itself is not touched here: a caller performs each step
//! and reports how it went.

use vstd::prelude::*;
use crate::task::Task;
use crate::text::{trim_str, trimmed};

verus! {

/// What a caller found at the path of the task file.
#[derive(Debug)]
pub enum FileState {
    /// Nothing is there.
    Missing,
    /// Something is there and could not be read.
    Unreadable,
    /// The text of the file.
    Text(String),
}

/// What loading does with what was found.
#[derive(PartialEq, Eq, Structural, Clone, Copy, Debug)]
pub enum LoadPlan {
    /// The list is empty; nothing is parsed.
    Empty,
    /// The text holds records and must parse as such.
    Parse,
    /// Loading fails with a read error.
    ReadFailed,
}

/// A missing file and a file of whitespace alone stand for the empty list, an
/// unreadable file is an error, and any other text has to be parsed.
pub open spec fn load_plan(file: FileState) -> LoadPlan {
    match file {
        FileState::Missing => LoadPlan::Empty,
        FileState::Unreadable => LoadPlan::ReadFailed,
        FileState::Text(text) => if trimmed(text@).len() == 0 {
            LoadPlan::Empty
        } else {
            LoadPlan::Parse
        },
    }
}

/// Decides what loading does with `file`.
pub fn plan_load(file: &FileState) -> (plan: LoadPlan)
    ensures
        plan == load_plan(*file),
{
    match file {
        FileState::Missing => LoadPlan::Empty,
        FileState::Unreadable => LoadPlan::ReadFailed,
        FileState::Text(text) => {
            if trim_str(text.as_str()).is_empty() {
                LoadPlan::Empty
            } else {
                LoadPlan::Parse
            }
        },
    }
}

/// One step of a save.
#[derive(PartialEq, Eq, Structural, Clone, Copy, Debug)]
pub enum SaveStep {
    /// Create the directory of the file, with its parents.
    CreateDir,
    /// Turn the list into text.
    Serialize,
    /// Create the temporary file beside the target.
    CreateTemp,
    /// Write the whole text to the temporary file.
    WriteTemp,
    /// Force the temporary file to stable storage.
    SyncTemp,
    /// Rename the temporary file over the target.
    Rename,
    /// Remove the temporary file that could not be renamed.
    RemoveTemp,
}

/// Where a save stands.
#[derive(PartialEq, Eq, Structural, Clone, Copy, Debug)]
pub enum SaveState {
    /// This step is to be performed next.
    Run(SaveStep),
    /// The target holds the new list.
    Done,
    /// The save failed at this step; the target is as it was.
    Failed(SaveStep),
}

/// The first step of a save: the directory is created where the path has one.
pub open spec fn save_start(has_dir: bool) -> SaveState {
    if has_dir {
        SaveState::Run(SaveStep::CreateDir)
    } else {
        SaveState::Run(SaveStep::Serialize)
    }
}

/// The state after `step` went well (`ok`) or not. Every failure ends the
/// save at once, but for a failed rename, after which the temporary file is
/// removed first, whether or not that removal succeeds.
pub open spec fn save_after(step: SaveStep, ok: bool) -> SaveState {
    match step {
        SaveStep::RemoveTemp => SaveState::Failed(SaveStep::Rename),
        SaveStep::Rename => if ok {
            SaveState::Done
        } else {
            SaveState::Run(SaveStep::RemoveTemp)
        },
        _ => if ok {
            SaveState::Run(following(step))
        } else {
            SaveState::Failed(step)
        },
    }
}

/// The step that follows `step` in a save in which nothing fails.
pub open spec fn following(step: SaveStep) -> SaveStep {
    match step {
        SaveStep::CreateDir => SaveStep::Serialize,
        SaveStep::Serialize => SaveStep::CreateTemp,
        SaveStep::CreateTemp => SaveStep::WriteTemp,
        SaveStep::WriteTemp => SaveStep::SyncTemp,
        SaveStep::SyncTemp => SaveStep::Rename,
        SaveStep::Rename => SaveStep::Rename,
        SaveStep::RemoveTemp => SaveStep::RemoveTemp,
    }
}

/// The state in which a save begins.
pub fn start_save(has_dir: bool) -> (state: SaveState)
    ensures
        state == save_start(has_dir),
{
    if has_dir {
        SaveState::Run(SaveStep::CreateDir)
    } else {
        SaveState::Run(SaveStep::Serialize)
    }
}

/// The state of a save after `step` was performed and went well (`ok`) or not.
pub fn next_save_state(step: SaveStep, ok: bool) -> (state: SaveState)
    ensures
        state == save_after(step, ok),
{
    match step {
        SaveStep::CreateDir => if ok {
            SaveState::Run(SaveStep::Serialize)
        } else {
            SaveState::Failed(SaveStep::CreateDir)
        },
        SaveStep::Serialize => if ok {
            SaveState::Run(SaveStep::CreateTemp)
        } else {
            SaveState::Failed(SaveStep::Serialize)
        },
        SaveStep::CreateTemp => if ok {
            SaveState::Run(SaveStep::WriteTemp)
        } else {
            SaveState::Failed(SaveStep::CreateTemp)
        },
        SaveStep::WriteTemp => if ok {
            SaveState::Run(SaveStep::SyncTemp)
        } else {
            SaveState::Failed(SaveStep::WriteTemp)
        },
        SaveStep::SyncTemp => if ok {
            SaveState::Run(SaveStep::Rename)
        } else {
            SaveState::Failed(SaveStep::SyncTemp)
        },
        SaveStep::Rename => if ok {
            SaveState::Done
        } else {
            SaveState::Run(SaveStep::RemoveTemp)
        },
        SaveStep::RemoveTemp => SaveState::Failed(SaveStep::Rename),
    }
}

/// The state of a save once the steps it asked for had the outcomes
/// `outcomes`, in order; outcomes after its end are not looked at.
pub open spec fn save_run(start: SaveState, outcomes: Seq<bool>) -> SaveState
    decreases outcomes.len(),
{
    if outcomes.len() == 0 {
        start
    } else {
        match save_run(start, outcomes.drop_last()) {
            SaveState::Run(step) => save_after(step, outcomes.last()),
            ended => ended,
        }
    }
}

/// The target is renamed over only by a temporary file that was forced to
/// stable storage, and the temporary file is removed only after a rename
/// that failed.
pub proof fn lemma_rename_follows_sync(step: SaveStep, ok: bool)
    ensures
        save_after(step, ok) == SaveState::Run(SaveStep::Rename) <==> step == SaveStep::SyncTemp
            && ok,
        save_after(step, ok) == SaveState::Run(SaveStep::RemoveTemp) <==> step == SaveStep::Rename
            && !ok,
        save_after(step, ok) == SaveState::Done <==> step == SaveStep::Rename && ok,
{
}

/// The first `count` outcomes are all good.
pub open spec fn all_good(outcomes: Seq<bool>, count: int) -> bool {
    forall|i: int| 0 <= i < count ==> outcomes[i]
}

/// The number of steps of a save in which nothing fails.
pub open spec fn save_length(has_dir: bool) -> int {
    if has_dir {
        6
    } else {
        5
    }
}

/// The save has failed, or will once the temporary file is removed.
pub open spec fn is_failing(state: SaveState) -> bool {
    state is Failed || state == SaveState::Run(SaveStep::RemoveTemp)
}

/// Where a save stands after some outcomes: done once each of its steps went
/// well, at the next step while all went well so far, and failing from the
/// first step that did not.
pub proof fn lemma_save_run(has_dir: bool, outcomes: Seq<bool>)
    ensures
        ({
            let n = save_length(has_dir);
            let state = save_run(save_start(has_dir), outcomes);
            if outcomes.len() >= n {
                if all_good(outcomes, n) {
                    state == SaveState::Done
                } else {
                    is_failing(state)
                }
            } else {
                if all_good(outcomes, outcomes.len() as int) {
                    state == SaveState::Run(step_at(6 - n + outcomes.len()))
                } else {
                    is_failing(state)
                }
            }
        }),
    decreases outcomes.len(),
{
    let n = save_length(has_dir);
    if outcomes.len() > 0 {
        let front = outcomes.drop_last();
        lemma_save_run(has_dir, front);
        assert(forall|i: int| 0 <= i < front.len() ==> front[i] == outcomes[i]);
        if front.len() >= n {
            assert(all_good(front, n) == all_good(outcomes, n));
        } else {
            let m = front.len() as int;
            assert(all_good(front, m) == all_good(outcomes, m));
            if all_good(front, m) {
                assert(all_good(outcomes, m + 1) == outcomes[m]);
            } else {
                assert(!all_good(outcomes, m + 1));
                assert(!all_good(outcomes, n));
            }
            if outcomes.len() >= n {
                assert(m + 1 == n);
            }
        }
    }
}

/// A save is done exactly when each of its steps was performed and went
/// well: one failure, and the target is never renamed over.
pub proof fn lemma_save_all_or_nothing(has_dir: bool, outcomes: Seq<bool>)
    ensures
        save_run(save_start(has_dir), outcomes) == SaveState::Done <==> outcomes.len()
            >= save_length(has_dir) && all_good(outcomes, save_length(has_dir)),
{
    lemma_save_run(has_dir, outcomes);
}

/// The steps of a save in which nothing fails, by their place.
pub open spec fn step_at(place: int) -> SaveStep {
    if place <= 0 {
        SaveStep::CreateDir
    } else if place == 1 {
        SaveStep::Serialize
    } else if place == 2 {
        SaveStep::CreateTemp
    } else if place == 3 {
        SaveStep::WriteTemp
    } else if place == 4 {
        SaveStep::SyncTemp
    } else {
        SaveStep::Rename
    }
}

/// The paths that a save works on, as text.
#[derive(Debug)]
pub struct SavePaths {
    /// The directory of the target, where its path has one.
    pub dir: Option<String>,
    /// The file that holds the list.
    pub target: String,
    /// The temporary file beside it.
    pub temp: String,
}

/// Why the store could not load or save the list.
#[derive(Debug)]
pub enum StoreError {
    /// The file at this path is there and could not be read.
    Read(String),
    /// The file at this path holds text that is not a list of records.
    Parse(String),
    /// A save failed at this step.
    Write(SaveStep, SavePaths),
}

/// The text that tells of a save that failed at `step`.
pub open spec fn save_failure_text(step: SaveStep, paths: SavePaths) -> Seq<char> {
    match step {
        SaveStep::CreateDir => "Failed to create data directory at "@ + (match paths.dir {
            Some(dir) => dir@,
            None => Seq::<char>::empty(),
        }),
        SaveStep::Serialize => "Failed to serialize tasks to JSON"@,
        SaveStep::CreateTemp => "Failed to create temporary tasks file at "@ + paths.temp@,
        SaveStep::WriteTemp => "Failed to write tasks to "@ + paths.temp@,
        SaveStep::SyncTemp => "Failed to flush tasks to "@ + paths.temp@,
        _ => "Failed to replace "@ + paths.target@ + " with "@ + paths.temp@,
    }
}

impl StoreError {
    /// The text of the message that tells a user of the failure.
    pub open spec fn message_text(self) -> Seq<char> {
        match self {
            StoreError::Read(path) => "Failed to read tasks file at "@ + path@,
            StoreError::Parse(path) => "Failed to parse tasks file at "@ + path@
                + ". Ensure it contains valid JSON."@,
            StoreError::Write(step, paths) => save_failure_text(step, paths),
        }
    }

    /// The message that tells a user of the failure.
    pub fn message(&self) -> (s: String)
        ensures
            s@ == self.message_text(),
    {
        match self {
            StoreError::Read(path) => {
                String::from_str("Failed to read tasks file at ").concat(path.as_str())
            },
            StoreError::Parse(path) => {
                let mut s = String::from_str("Failed to parse tasks file at ");
                s.append(path.as_str());
                s.append(". Ensure it contains valid JSON.");
                s
            },
            StoreError::Write(step, paths) => {
                let mut s = String::new();
                match step {
                    SaveStep::CreateDir => {
                        s.append("Failed to create data directory at ");
                        match &paths.dir {
                            Some(dir) => {
                                s.append(dir.as_str());
                            },
                            None => {},
                        }
                    },
                    SaveStep::Serialize => {
                        s.append("Failed to serialize tasks to JSON");
                    },
                    SaveStep::CreateTemp => {
                        s.append("Failed to create temporary tasks file at ");
                        s.append(paths.temp.as_str());
                    },
                    SaveStep::WriteTemp => {
                        s.append("Failed to write tasks to ");
                        s.append(paths.temp.as_str());
                    },
                    SaveStep::SyncTemp => {
                        s.append("Failed to flush tasks to ");
                        s.append(paths.temp.as_str());
                    },
                    _ => {
                        s.append("Failed to replace ");
                        s.append(paths.target.as_str());
                        s.append(" with ");
                        s.append(paths.temp.as_str());
                    },
                }
                assert(s@ =~= save_failure_text(*step, *paths));
                s
            },
        }
    }
}

/// What loading returns: the empty list where nothing is parsed, the parsed
/// list where the text had to parse and did, and else the error that says
/// whether reading or parsing failed, with the path of the file.
pub open spec fn load_outcome(plan: LoadPlan, parsed: Option<Vec<Task>>, path: String) -> Result<
    Seq<Task>,
    StoreError,
> {
    match plan {
        LoadPlan::Empty => Ok(Seq::<Task>::empty()),
        LoadPlan::ReadFailed => Err(StoreError::Read(path)),
        LoadPlan::Parse => match parsed {
            Some(tasks) => Ok(tasks@),
            None => Err(StoreError::Parse(path)),
        },
    }
}

/// Ends a load. `parsed` is the list that the text of the file parsed to,
/// `None` where it did not parse; it is looked at only where `plan` asks for
/// parsing.
pub fn load_result(plan: LoadPlan, parsed: Option<Vec<Task>>, path: String) -> (r: Result<
    Vec<Task>,
    StoreError,
>)
    ensures
        match load_outcome(plan, parsed, path) {
            Ok(tasks) => r is Ok && r->Ok_0@ == tasks,
            Err(error) => r == Err::<Vec<Task>, StoreError>(error),
        },
{
    match plan {
        LoadPlan::Empty => Ok(Vec::new()),
        LoadPlan::ReadFailed => Err(StoreError::Read(path)),
        LoadPlan::Parse => match parsed {
            Some(tasks) => Ok(tasks),
            None => Err(StoreError::Parse(path)),
        },
    }
}

} // verus!
