//! The cleanup of projects: the steps that one project goes through, and
//! the summary of a whole run.
//!
//! The library decides; its caller acts. For each project the caller asks
//! which action is due, performs it, and reports what happened. A project
//! whose artifact directory is missing has nothing to free there: the
//! directory is passed over and the project still succeeds.

use vstd::prelude::*;
use vstd::string::StringExecFns;
use crate::project::project::{
    saturated, saturating_sum, ArtifactView, Project, ProjectView,
};
use crate::project::projects::text_views;

verus! {
/// Strategy for removing build directories.
#[derive(Clone, Copy, PartialEq, Eq, Debug, Structural)]
pub enum RemovalStrategy {
    /// Permanently delete the directory.
    Permanent,
    /// Move the directory to the system trash (recoverable deletion).
    Trash,
}

impl RemovalStrategy {
    /// Create a removal strategy from the `use_trash` boolean flag.
    pub fn from_use_trash(use_trash: bool) -> (r: Self)
        ensures
            r == (if use_trash {
                RemovalStrategy::Trash
            } else {
                RemovalStrategy::Permanent
            }),
    {
        if use_trash {
            Self::Trash
        } else {
            Self::Permanent
        }
    }
}

/// Why an artifact directory could not be removed.
#[derive(Clone, Debug)]
pub enum RemovalError {
    /// Reading or deleting failed; the text says how.
    Io(String),
    /// The directory could not be moved to the trash; the text says why.
    TrashUnavailable(String),
}

/// The text that reports a removal error.
pub open spec fn removal_message(e: RemovalError) -> Seq<char> {
    match e {
        RemovalError::Io(reason) => reason@,
        RemovalError::TrashUnavailable(reason) => "failed to move to trash: "@ + reason@,
    }
}

impl RemovalError {
    /// The text that reports the error.
    pub fn message(&self) -> (r: String)
        ensures
            r@ == removal_message(*self),
    {
        match self {
            RemovalError::Io(reason) => reason.clone(),
            RemovalError::TrashUnavailable(reason) => {
                let mut out = String::from_str("failed to move to trash: ");
                out.append(reason.as_str());
                out
            },
        }
    }
}

/// Where the cleanup of one project stands.
#[derive(Clone, Debug)]
pub enum CleanState {
    /// Nothing was done yet.
    Pending,
    /// Executables are being copied out of the artifacts.
    PreservingExecutables,
    /// The artifact at `artifact` is about to be measured; `freed` bytes
    /// were freed before it.
    Measuring { artifact: usize, freed: u64 },
    /// The artifact at `artifact` is about to be removed; `freed` counts
    /// its size already.
    Deleting { artifact: usize, freed: u64 },
    /// Every artifact was dealt with; `freed` bytes were freed.
    Succeeded { freed: u64 },
    /// The artifact directory at `path` could not be removed.
    Failed { path: String, reason: String },
}

/// What happened when the caller performed the action that was due.
#[derive(Clone, Debug)]
pub enum CleanEvent {
    /// The cleanup of the project begins.
    Begin { keep_executables: bool },
    /// Preserving executables ended, well or not: a failure there is a
    /// warning and never stops the cleanup.
    PreservationDone,
    /// The artifact directory does not exist.
    Missing,
    /// The artifact directory exists and holds this many bytes.
    Measured { size: u64 },
    /// The artifact directory was removed.
    Removed,
    /// The artifact directory could not be removed.
    RemovalFailed { error: RemovalError },
}

/// What the caller is to do next for a project.
#[derive(Clone, Debug)]
pub enum CleanAction {
    /// Report that the cleanup begins.
    Begin,
    /// Copy the project's executables out of its artifacts.
    PreserveExecutables,
    /// See whether the directory exists and measure it.
    Measure { path: String },
    /// Remove the directory in the given way.
    Remove { path: String, strategy: RemovalStrategy },
    /// Nothing: the project is done.
    Nothing,
}

/// What a `CleanState` value holds.
pub enum StateView {
    Pending,
    PreservingExecutables,
    Measuring { artifact: nat, freed: u64 },
    Deleting { artifact: nat, freed: u64 },
    Succeeded { freed: u64 },
    Failed { path: Seq<char>, reason: Seq<char> },
}

impl View for CleanState {
    type V = StateView;

    open spec fn view(&self) -> StateView {
        match *self {
            CleanState::Pending => StateView::Pending,
            CleanState::PreservingExecutables => StateView::PreservingExecutables,
            CleanState::Measuring { artifact, freed } => StateView::Measuring {
                artifact: artifact as nat,
                freed,
            },
            CleanState::Deleting { artifact, freed } => StateView::Deleting {
                artifact: artifact as nat,
                freed,
            },
            CleanState::Succeeded { freed } => StateView::Succeeded { freed },
            CleanState::Failed { path, reason } => StateView::Failed {
                path: path@,
                reason: reason@,
            },
        }
    }
}

/// What a `CleanEvent` value holds.
pub enum EventView {
    Begin { keep_executables: bool },
    PreservationDone,
    Missing,
    Measured { size: u64 },
    Removed,
    RemovalFailed { message: Seq<char> },
}

impl View for CleanEvent {
    type V = EventView;

    open spec fn view(&self) -> EventView {
        match *self {
            CleanEvent::Begin { keep_executables } => EventView::Begin { keep_executables },
            CleanEvent::PreservationDone => EventView::PreservationDone,
            CleanEvent::Missing => EventView::Missing,
            CleanEvent::Measured { size } => EventView::Measured { size },
            CleanEvent::Removed => EventView::Removed,
            CleanEvent::RemovalFailed { error } => EventView::RemovalFailed {
                message: removal_message(error),
            },
        }
    }
}

/// What a `CleanAction` value holds.
pub enum ActionView {
    Begin,
    PreserveExecutables,
    Measure { path: Seq<char> },
    Remove { path: Seq<char>, strategy: RemovalStrategy },
    Nothing,
}

impl View for CleanAction {
    type V = ActionView;

    open spec fn view(&self) -> ActionView {
        match *self {
            CleanAction::Begin => ActionView::Begin,
            CleanAction::PreserveExecutables => ActionView::PreserveExecutables,
            CleanAction::Measure { path } => ActionView::Measure { path: path@ },
            CleanAction::Remove { path, strategy } => ActionView::Remove { path: path@, strategy },
            CleanAction::Nothing => ActionView::Nothing,
        }
    }
}

/// The path of the artifact at position `artifact`; the empty text where
/// there is no such artifact.
pub open spec fn artifact_path(artifacts: Seq<Seq<char>>, artifact: nat) -> Seq<char> {
    if artifact < artifacts.len() {
        artifacts[artifact as int]
    } else {
        Seq::empty()
    }
}

/// The state in which the artifact at `artifact` is next, or the success
/// that follows the last artifact.
pub open spec fn proceed(artifacts: Seq<Seq<char>>, artifact: nat, freed: u64) -> StateView {
    if artifact < artifacts.len() {
        StateView::Measuring { artifact, freed }
    } else {
        StateView::Succeeded { freed }
    }
}

/// The state that follows `state` on `event` for a project whose
/// artifacts lie at the paths `artifacts`. An event that does not fit the
/// state changes nothing; the two final states are never left. A removal
/// that fails ends the cleanup with the path of the artifact that could
/// not be removed.
pub open spec fn next_state(
    state: StateView,
    event: EventView,
    artifacts: Seq<Seq<char>>,
) -> StateView {
    match (state, event) {
        (StateView::Pending, EventView::Begin { keep_executables }) => if keep_executables {
            StateView::PreservingExecutables
        } else {
            proceed(artifacts, 0, 0)
        },
        (StateView::PreservingExecutables, EventView::PreservationDone) => proceed(artifacts, 0, 0),
        (StateView::Measuring { artifact, freed }, EventView::Missing) => proceed(
            artifacts,
            artifact + 1,
            freed,
        ),
        (StateView::Measuring { artifact, freed }, EventView::Measured { size }) => {
            StateView::Deleting { artifact, freed: saturated((freed + size) as nat) }
        },
        (StateView::Deleting { artifact, freed }, EventView::Removed) => proceed(
            artifacts,
            artifact + 1,
            freed,
        ),
        (StateView::Deleting { artifact, .. }, EventView::RemovalFailed { message }) => {
            StateView::Failed { path: artifact_path(artifacts, artifact), reason: message }
        },
        _ => state,
    }
}

/// What is due in `state` for a project with the artifacts `artifacts`.
pub open spec fn due_action(state: StateView, artifacts: Seq<Seq<char>>, strategy: RemovalStrategy) -> ActionView {
    match state {
        StateView::Pending => ActionView::Begin,
        StateView::PreservingExecutables => ActionView::PreserveExecutables,
        StateView::Measuring { artifact, .. } => if artifact < artifacts.len() {
            ActionView::Measure { path: artifacts[artifact as int] }
        } else {
            ActionView::Nothing
        },
        StateView::Deleting { artifact, .. } => if artifact < artifacts.len() {
            ActionView::Remove { path: artifacts[artifact as int], strategy }
        } else {
            ActionView::Nothing
        },
        StateView::Succeeded { .. } => ActionView::Nothing,
        StateView::Failed { .. } => ActionView::Nothing,
    }
}

/// The paths of the artifacts of a project.
pub open spec fn artifact_paths(p: ProjectView) -> Seq<Seq<char>> {
    p.artifacts.map_values(|a: ArtifactView| a.path)
}

/// Whether the cleanup of a project has ended.
pub open spec fn is_final(state: StateView) -> bool {
    state is Succeeded || state is Failed
}

/// What a `CleanFailure` value holds.
pub struct FailureView {
    pub path: Seq<char>,
    pub reason: Seq<char>,
}

impl View for CleanFailure {
    type V = FailureView;

    open spec fn view(&self) -> FailureView {
        FailureView { path: self.path@, reason: self.reason@ }
    }
}

/// The result of a cleanup that has ended: the bytes freed, or which
/// artifact could not be removed and why.
pub open spec fn result_of(state: StateView) -> Option<Result<u64, FailureView>> {
    match state {
        StateView::Succeeded { freed } => Some(Ok(freed)),
        StateView::Failed { path, reason } => Some(Err(FailureView { path, reason })),
        _ => None,
    }
}

/// The view of an optional result.
pub open spec fn result_view(r: Option<Result<u64, CleanFailure>>) -> Option<
    Result<u64, FailureView>,
> {
    match r {
        Some(Ok(freed)) => Some(Ok(freed)),
        Some(Err(failure)) => Some(Err(failure@)),
        None => None,
    }
}

impl CleanState {
    /// The state in which the artifact at `artifact` is next.
    fn proceed_to(project: &Project, artifact: usize, freed: u64) -> (r: Self)
        ensures
            r@ == proceed(artifact_paths(project@), artifact as nat, freed),
    {
        if artifact < project.build_arts.len() {
            CleanState::Measuring { artifact, freed }
        } else {
            CleanState::Succeeded { freed }
        }
    }

    /// The state that follows on `event` in the cleanup of `project`.
    pub fn step(self, event: CleanEvent, project: &Project) -> (r: Self)
        ensures
            r@ == next_state(self@, event@, artifact_paths(project@)),
    {
        match (self, event) {
            (CleanState::Pending, CleanEvent::Begin { keep_executables }) => {
                if keep_executables {
                    CleanState::PreservingExecutables
                } else {
                    Self::proceed_to(project, 0, 0)
                }
            },
            (CleanState::PreservingExecutables, CleanEvent::PreservationDone) => {
                Self::proceed_to(project, 0, 0)
            },
            (CleanState::Measuring { artifact, freed }, CleanEvent::Missing) => {
                if artifact < project.build_arts.len() {
                    Self::proceed_to(project, artifact + 1, freed)
                } else {
                    CleanState::Succeeded { freed }
                }
            },
            (CleanState::Measuring { artifact, freed }, CleanEvent::Measured { size }) => {
                CleanState::Deleting { artifact, freed: saturating_sum(freed, size) }
            },
            (CleanState::Deleting { artifact, freed }, CleanEvent::Removed) => {
                if artifact < project.build_arts.len() {
                    Self::proceed_to(project, artifact + 1, freed)
                } else {
                    CleanState::Succeeded { freed }
                }
            },
            (CleanState::Deleting { artifact, freed: _ }, CleanEvent::RemovalFailed { error }) => {
                let path = if artifact < project.build_arts.len() {
                    project.build_arts[artifact].path.clone()
                } else {
                    String::new()
                };
                CleanState::Failed { path, reason: error.message() }
            },
            (state, _) => state,
        }
    }

    /// What the caller is to do next for `project` in this state.
    pub fn action(&self, project: &Project, strategy: RemovalStrategy) -> (r: CleanAction)
        ensures
            r@ == due_action(self@, artifact_paths(project@), strategy),
    {
        match self {
            CleanState::Pending => CleanAction::Begin,
            CleanState::PreservingExecutables => CleanAction::PreserveExecutables,
            CleanState::Measuring { artifact, freed: _ } => {
                if *artifact < project.build_arts.len() {
                    CleanAction::Measure { path: project.build_arts[*artifact].path.clone() }
                } else {
                    CleanAction::Nothing
                }
            },
            CleanState::Deleting { artifact, freed: _ } => {
                if *artifact < project.build_arts.len() {
                    CleanAction::Remove {
                        path: project.build_arts[*artifact].path.clone(),
                        strategy,
                    }
                } else {
                    CleanAction::Nothing
                }
            },
            CleanState::Succeeded { freed: _ } => CleanAction::Nothing,
            CleanState::Failed { path: _, reason: _ } => CleanAction::Nothing,
        }
    }

    /// The result of a cleanup that has ended.
    pub fn result(&self) -> (r: Option<Result<u64, CleanFailure>>)
        ensures
            result_view(r) == result_of(self@),
    {
        match self {
            CleanState::Succeeded { freed } => Some(Ok(*freed)),
            CleanState::Failed { path, reason } => Some(
                Err(CleanFailure { path: path.clone(), reason: reason.clone() }),
            ),
            _ => None,
        }
    }
}

/// Why the cleanup of a project failed.
#[derive(Debug, PartialEq, Eq)]
pub struct CleanFailure {
    /// The artifact directory that could not be removed.
    pub path: String,
    /// What went wrong.
    pub reason: String,
}

/// How the cleanup of one project ended.
#[derive(Debug)]
pub struct ProjectOutcome {
    /// The root of the project.
    pub root_path: String,
    /// The bytes freed, or which artifact could not be removed and why.
    pub result: Result<u64, CleanFailure>,
}

/// Structured result returned after a cleanup operation.
#[derive(Clone, Debug)]
pub struct CleanResult {
    /// Number of projects successfully cleaned.
    pub success_count: usize,
    /// Total bytes actually freed during cleanup.
    pub total_freed: u64,
    /// Estimated total size before cleanup.
    pub estimated_size: u64,
    /// Error messages for projects that failed to clean.
    pub errors: Vec<String>,
}

/// The line that reports a failure: it names the artifact directory that
/// could not be removed, and the reason.
pub open spec fn failure_line(path: Seq<char>, reason: Seq<char>) -> Seq<char> {
    "failed to clean "@ + path + ": "@ + reason
}

/// The bytes freed by all successful outcomes.
pub open spec fn freed_total(outcomes: Seq<ProjectOutcome>) -> nat
    decreases outcomes.len(),
{
    if outcomes.len() == 0 {
        0
    } else {
        freed_total(outcomes.drop_last()) + match outcomes.last().result {
            Ok(freed) => freed as nat,
            Err(_) => 0,
        }
    }
}

/// The lines that report the failed outcomes, in order.
pub open spec fn failure_lines(outcomes: Seq<ProjectOutcome>) -> Seq<Seq<char>>
    decreases outcomes.len(),
{
    if outcomes.len() == 0 {
        Seq::empty()
    } else {
        let before = failure_lines(outcomes.drop_last());
        match outcomes.last().result {
            Ok(_) => before,
            Err(failure) => before.push(failure_line(failure.path@, failure.reason@)),
        }
    }
}

/// Handles the cleanup of build directories from development projects.
#[derive(Clone, Copy, Debug)]
pub struct Cleaner;

impl Cleaner {
    /// Create a new cleaner instance.
    pub fn new() -> Self {
        Self
    }

    /// Summarise a cleanup from the outcome of each project: every failure
    /// is one error line that names the artifact directory that could not
    /// be removed, in the order of the projects; the successes are
    /// the rest; the bytes freed are those of the successes, held at the
    /// 64-bit maximum; the estimate is passed on.
    pub fn clean_projects(outcomes: &Vec<ProjectOutcome>, estimated_size: u64) -> (r: CleanResult)
        ensures
            text_views(r.errors@) == failure_lines(outcomes@),
            r.success_count == outcomes@.len() - failure_lines(outcomes@).len(),
            r.total_freed == saturated(freed_total(outcomes@)),
            r.estimated_size == estimated_size,
    {
        let mut errors: Vec<String> = Vec::new();
        let mut freed: u64 = 0;
        let mut i: usize = 0;
        while i < outcomes.len()
            invariant
                i <= outcomes.len(),
                text_views(errors@) == failure_lines(outcomes@.take(i as int)),
                freed == saturated(freed_total(outcomes@.take(i as int))),
                errors.len() <= i,
            decreases outcomes.len() - i,
        {
            proof {
                assert(outcomes@.take(i + 1).drop_last() =~= outcomes@.take(i as int));
            }
            let outcome = &outcomes[i];
            match &outcome.result {
                Ok(n) => {
                    freed = saturating_sum(freed, *n);
                },
                Err(failure) => {
                    let mut line = String::from_str("failed to clean ");
                    line.append(failure.path.as_str());
                    line.append(": ");
                    line.append(failure.reason.as_str());
                    errors.push(line);
                },
            }
            i += 1;
        }
        assert(outcomes@.take(outcomes@.len() as int) =~= outcomes@);
        let success_count: usize = outcomes.len() - errors.len();
        CleanResult { success_count, total_freed: freed, estimated_size, errors }
    }
}

impl Default for Cleaner {
    fn default() -> Self {
        Self::new()
    }
}

/// A cleanup that has ended stays as it ended, whatever is reported
/// afterwards: nothing is tried again.
pub proof fn lemma_final_states_are_never_left(
    state: StateView,
    event: EventView,
    artifacts: Seq<Seq<char>>,
)
    requires
        is_final(state),
    ensures
        next_state(state, event, artifacts) == state,
{
}

/// A cleanup ends in exactly one way: with the bytes freed or with a
/// reason, never both, and only in a final state.
pub proof fn lemma_results_belong_to_final_states(state: StateView)
    ensures
        result_of(state).is_some() <==> is_final(state),
        state is Succeeded ==> !(state is Failed),
{
}

/// A missing directory frees nothing and lets the cleanup go on with the
/// next artifact.
pub proof fn lemma_missing_directory_is_passed_over(
    artifact: nat,
    freed: u64,
    artifacts: Seq<Seq<char>>,
)
    ensures
        next_state(StateView::Measuring { artifact, freed }, EventView::Missing, artifacts)
            == proceed(artifacts, artifact + 1, freed),
        !(next_state(
            StateView::Measuring { artifact, freed },
            EventView::Missing,
            artifacts,
        ) is Failed),
{
}

/// A removal that fails ends the cleanup with the path of the artifact
/// that could not be removed, and the line that reports it names that
/// path.
pub proof fn lemma_failure_names_the_artifact(
    artifact: nat,
    freed: u64,
    message: Seq<char>,
    artifacts: Seq<Seq<char>>,
)
    requires
        artifact < artifacts.len(),
    ensures
        next_state(
            StateView::Deleting { artifact, freed },
            EventView::RemovalFailed { message },
            artifacts,
        ) == (StateView::Failed { path: artifacts[artifact as int], reason: message }),
        result_of(
            next_state(
                StateView::Deleting { artifact, freed },
                EventView::RemovalFailed { message },
                artifacts,
            ),
        ) == Some(
            Err::<u64, FailureView>(
                FailureView { path: artifacts[artifact as int], reason: message },
            ),
        ),
{
}

/// The outcomes of projects do not touch each other: the failures and the
/// bytes freed of two runs together are those of the one followed by
/// those of the other.
pub proof fn lemma_outcomes_are_independent(a: Seq<ProjectOutcome>, b: Seq<ProjectOutcome>)
    ensures
        failure_lines(a + b) == failure_lines(a) + failure_lines(b),
        freed_total(a + b) == freed_total(a) + freed_total(b),
    decreases b.len(),
{
    if b.len() > 0 {
        lemma_outcomes_are_independent(a, b.drop_last());
        assert((a + b).drop_last() =~= a + b.drop_last());
    }
}

/// Every outcome is either a success or one error line: the two counts
/// add up to the number of projects.
pub proof fn lemma_failures_are_counted_once(outcomes: Seq<ProjectOutcome>)
    ensures
        failure_lines(outcomes).len() <= outcomes.len(),
        failure_lines(outcomes).len() == outcomes.filter(
            |o: ProjectOutcome| o.result is Err,
        ).len(),
    decreases outcomes.len(),
{
    let failed = |o: ProjectOutcome| o.result is Err;
    if outcomes.len() > 0 {
        lemma_failures_are_counted_once(outcomes.drop_last());
        assert(outcomes =~= outcomes.drop_last().push(outcomes.last()));
        outcomes.drop_last().lemma_filter_push(outcomes.last(), failed);
    } else {
        assert(outcomes.filter(failed) =~= Seq::<ProjectOutcome>::empty()) by {
            reveal(Seq::filter);
        }
    }
}

} // verus!
