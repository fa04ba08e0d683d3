//! Download tasks and what a worker of the pool decides while it handles one:
//! whether to fetch, which step comes next, and how the task is counted.

use vstd::prelude::*;
use vstd::wrapping::u64_specs::wrapping_add;
use crate::progress::{Counters, Progress, ProgressView};
use crate::text::opt_text;

verus! {

/// Number of tasks that the queue of the pool holds before a producer waits.
pub const QUEUE_CAPACITY: usize = 1024;

/// One file to fetch.
#[derive(Debug, PartialEq, Eq)]
pub struct Download {
    /// Where the file is fetched from.
    pub url: String,
    /// Size of the file in bytes, where it is known beforehand.
    pub size: Option<u64>,
    /// Where the file is written.
    pub primary_target_path: String,
    /// Where a link to the file is placed, if anywhere.
    pub symlink_path: Option<String>,
    /// Fetch even if the target is there already.
    pub always_download: bool,
}

/// Mathematical content of a [`Download`].
pub struct DownloadView {
    pub url: Seq<char>,
    pub size: Option<u64>,
    pub primary_target_path: Seq<char>,
    pub symlink_path: Option<Seq<char>>,
    pub always_download: bool,
}

impl View for Download {
    type V = DownloadView;

    open spec fn view(&self) -> DownloadView {
        DownloadView {
            url: self.url@,
            size: self.size,
            primary_target_path: self.primary_target_path@,
            symlink_path: opt_text(self.symlink_path),
            always_download: self.always_download,
        }
    }
}

impl DownloadView {
    /// Whether the task is fetched, given what a look at the target showed
    /// (`None`: the look itself failed): always when it is forced, else
    /// unless the target is known to be there.
    pub open spec fn needs_downloading(self, target_exists: Option<bool>) -> bool {
        self.always_download || target_exists != Some(true)
    }
}

/// The directory part of a path, as `std::path::Path::parent` gives it for
/// a Unix path; `None` where the path has none.
pub uninterp spec fn parent_of(path: Seq<char>) -> Option<Seq<char>>;

/// The path that leads from the directory `base` to `path`, as
/// `pathdiff::diff_paths` gives it for Unix paths; `None` where it gives
/// none.
pub uninterp spec fn relative_path(path: Seq<char>, base: Seq<char>) -> Option<Seq<char>>;

/// What a link at `link` must hold to lead to `primary`: the path from the
/// directory of `link` to `primary`.
pub open spec fn link_target(primary: Seq<char>, link: Seq<char>) -> Option<Seq<char>> {
    match parent_of(link) {
        Some(dir) => relative_path(primary, dir),
        None => None,
    }
}

/// Calls `std::path::Path::parent` on the path and hands back the parent as
/// text. Trusted: the result is `parent_of` of the path.
#[verifier::external_body]
fn path_parent(path: &str) -> (r: Option<String>)
    ensures
        opt_text(r) == parent_of(path@),
{
    std::path::Path::new(path).parent().map(|p| p.to_string_lossy().into_owned())
}

/// Calls `pathdiff::diff_paths` and hands back the relative path as text.
/// Trusted: the result is `relative_path` of the two arguments.
#[verifier::external_body]
fn diff_paths(path: &str, base: &str) -> (r: Option<String>)
    ensures
        opt_text(r) == relative_path(path@, base@),
{
    pathdiff::diff_paths(path, base).map(|p| p.to_string_lossy().into_owned())
}

/// The text of a link at `link` that leads to `primary`, if there is one.
pub fn relative_link_target(primary: &str, link: &str) -> (r: Option<String>)
    ensures
        opt_text(r) == link_target(primary@, link@),
{
    match path_parent(link) {
        Some(dir) => diff_paths(primary, dir.as_str()),
        None => None,
    }
}

/// Tells whether a task is fetched, given what a look at its target
/// showed.
pub fn needs_downloading(dl: &Download, target_exists: Option<bool>) -> (r: bool)
    ensures
        r == dl@.needs_downloading(target_exists),
        dl.always_download ==> r,
{
    if dl.always_download {
        return true;
    }
    match target_exists {
        Some(exists) => !exists,
        None => true,
    }
}

/// How the work on one task ended.
#[derive(Debug, Clone, Copy, PartialEq, Eq, Structural)]
pub enum Outcome {
    /// The body was fetched and written.
    Fetched,
    /// Nothing was fetched: the target was there.
    Kept,
    /// A step failed, the source does not have the file, or no relative
    /// path leads from the link to the target.
    Failed,
}

/// Where a worker stands in the handling of one task. The three states of
/// the link carry how the task ends once the link is placed.
#[derive(Debug, Clone, Copy, PartialEq, Eq, Structural)]
pub enum WorkerState {
    /// Looking whether the target is there.
    Probing,
    /// Making the directory of the target.
    MakingDirs,
    /// Creating the target file.
    CreatingFile,
    /// Fetching the body into the target file.
    Fetching,
    /// Removing the target after the source did not have the file.
    RemovingPartial,
    /// Making the directory of the link.
    MakingLinkDir(Outcome),
    /// Removing an earlier link.
    ClearingLink(Outcome),
    /// Placing the link.
    Linking(Outcome),
    /// Done with the task.
    Finished(Outcome),
}

/// What came of the step that the worker was told to take.
#[derive(Debug, Clone, Copy, PartialEq, Eq, Structural)]
pub enum WorkerEvent {
    /// The look at the target told whether it is there.
    Exists(bool),
    /// The step succeeded.
    Done,
    /// The step failed.
    Failed,
    /// The source answered that it does not have the file.
    NotFound,
}

/// The step that the worker takes next.
#[derive(Debug, PartialEq, Eq)]
pub enum WorkerAction {
    /// Look whether the file is there.
    ProbeTarget { path: String },
    /// Make the directory that holds `path`, unless it is there.
    EnsureParentDir { path: String },
    /// Create the file, emptying one that is there.
    CreateFile { path: String },
    /// Request `url` and write the body to the file at `path`, chunk by
    /// chunk.
    Fetch { url: String, path: String },
    /// Remove the file.
    RemoveFile { path: String },
    /// Place a link at `link` that holds `target`.
    Link { target: String, link: String },
    /// Stop and count the task.
    Finish(Outcome),
}

/// Mathematical content of a [`WorkerAction`].
pub enum ActionView {
    ProbeTarget { path: Seq<char> },
    EnsureParentDir { path: Seq<char> },
    CreateFile { path: Seq<char> },
    Fetch { url: Seq<char>, path: Seq<char> },
    RemoveFile { path: Seq<char> },
    Link { target: Seq<char>, link: Seq<char> },
    Finish(Outcome),
}

impl View for WorkerAction {
    type V = ActionView;

    open spec fn view(&self) -> ActionView {
        match self {
            WorkerAction::ProbeTarget { path } => ActionView::ProbeTarget { path: path@ },
            WorkerAction::EnsureParentDir { path } => ActionView::EnsureParentDir { path: path@ },
            WorkerAction::CreateFile { path } => ActionView::CreateFile { path: path@ },
            WorkerAction::Fetch { url, path } => ActionView::Fetch { url: url@, path: path@ },
            WorkerAction::RemoveFile { path } => ActionView::RemoveFile { path: path@ },
            WorkerAction::Link { target, link } => ActionView::Link {
                target: target@,
                link: link@,
            },
            WorkerAction::Finish(o) => ActionView::Finish(*o),
        }
    }
}

/// A state together with the step taken on entering it.
pub type Move = (WorkerState, ActionView);

/// Stopping with an outcome.
pub open spec fn finish(o: Outcome) -> Move {
    (WorkerState::Finished(o), ActionView::Finish(o))
}

/// The first step on a task: a forced task goes straight to work, any other
/// looks at its target first.
pub open spec fn start(dl: DownloadView) -> Move {
    if dl.always_download {
        (WorkerState::MakingDirs, ActionView::EnsureParentDir { path: dl.primary_target_path })
    } else {
        (WorkerState::Probing, ActionView::ProbeTarget { path: dl.primary_target_path })
    }
}

/// The step once the target holds what it should, fetched or kept: the
/// link, where the task asks for one, else the end.
pub open spec fn after_body(dl: DownloadView, done: Outcome) -> Move {
    match dl.symlink_path {
        Some(link) => (
            WorkerState::MakingLinkDir(done),
            ActionView::EnsureParentDir { path: link },
        ),
        None => finish(done),
    }
}

/// What the link of a task must hold, if the task asks for a link and a
/// relative path leads from it to the target.
pub open spec fn task_link_target(dl: DownloadView) -> Option<Seq<char>> {
    match dl.symlink_path {
        Some(link) => link_target(dl.primary_target_path, link),
        None => None,
    }
}

/// The next state and step, given the state, what came of its step, and
/// what the link must hold (`None`: no relative path leads to the target).
///
/// A target that is there keeps an unforced task from being fetched; its
/// link is placed anew all the same. Every task that is worked on is
/// fetched, whatever its size. Every failure ends the task as failed, a
/// link that cannot be placed or has no relative path to the target
/// among them, except that the result of removing an earlier link is not
/// looked at.
/// A source without the file has the target removed, and the task then
/// ends as failed.
pub open spec fn advance_given(
    dl: DownloadView,
    state: WorkerState,
    event: WorkerEvent,
    target: Option<Seq<char>>,
) -> Move {
    match state {
        WorkerState::Probing => if event == WorkerEvent::Exists(true) {
            after_body(dl, Outcome::Kept)
        } else {
            (WorkerState::MakingDirs, ActionView::EnsureParentDir { path: dl.primary_target_path })
        },
        WorkerState::MakingDirs => if event == WorkerEvent::Done {
            (WorkerState::CreatingFile, ActionView::CreateFile { path: dl.primary_target_path })
        } else {
            finish(Outcome::Failed)
        },
        WorkerState::CreatingFile => if event == WorkerEvent::Done {
            (WorkerState::Fetching, ActionView::Fetch { url: dl.url, path: dl.primary_target_path })
        } else {
            finish(Outcome::Failed)
        },
        WorkerState::Fetching => if event == WorkerEvent::Done {
            after_body(dl, Outcome::Fetched)
        } else if event == WorkerEvent::NotFound {
            (WorkerState::RemovingPartial, ActionView::RemoveFile { path: dl.primary_target_path })
        } else {
            finish(Outcome::Failed)
        },
        WorkerState::RemovingPartial => finish(Outcome::Failed),
        WorkerState::MakingLinkDir(done) => if event != WorkerEvent::Done || dl.symlink_path
            is None {
            finish(Outcome::Failed)
        } else if target is None {
            finish(Outcome::Failed)
        } else {
            (WorkerState::ClearingLink(done), ActionView::RemoveFile { path: dl.symlink_path->0 })
        },
        WorkerState::ClearingLink(done) => if dl.symlink_path is None {
            finish(Outcome::Failed)
        } else {
            match target {
                Some(target) => (
                    WorkerState::Linking(done),
                    ActionView::Link { target, link: dl.symlink_path->0 },
                ),
                None => finish(Outcome::Failed),
            }
        },
        WorkerState::Linking(done) => if event == WorkerEvent::Done {
            finish(done)
        } else {
            finish(Outcome::Failed)
        },
        WorkerState::Finished(o) => finish(o),
    }
}

/// The next state and step, given the state and what came of its step: the
/// link holds the relative path from its directory to the target.
pub open spec fn advance(dl: DownloadView, state: WorkerState, event: WorkerEvent) -> Move {
    advance_given(dl, state, event, task_link_target(dl))
}

/// The worker's handling of one task, one step at a time.
pub struct Worker {}

impl Worker {
    /// The first state and step on a task.
    pub fn start(dl: &Download) -> (r: (WorkerState, WorkerAction))
        ensures
            (r.0, r.1@) == start(dl@),
    {
        if dl.always_download {
            (
                WorkerState::MakingDirs,
                WorkerAction::EnsureParentDir { path: dl.primary_target_path.clone() },
            )
        } else {
            (
                WorkerState::Probing,
                WorkerAction::ProbeTarget { path: dl.primary_target_path.clone() },
            )
        }
    }

    fn after_body(dl: &Download, done: Outcome) -> (r: (WorkerState, WorkerAction))
        ensures
            (r.0, r.1@) == after_body(dl@, done),
    {
        match &dl.symlink_path {
            Some(link) => (
                WorkerState::MakingLinkDir(done),
                WorkerAction::EnsureParentDir { path: link.clone() },
            ),
            None => Worker::finish(done),
        }
    }

    fn finish(o: Outcome) -> (r: (WorkerState, WorkerAction))
        ensures
            (r.0, r.1@) == finish(o),
    {
        (WorkerState::Finished(o), WorkerAction::Finish(o))
    }

    /// The text that the link of a task must hold, if the task asks for a
    /// link and a relative path leads from it to the target.
    pub fn link_target(dl: &Download) -> (r: Option<String>)
        ensures
            opt_text(r) == task_link_target(dl@),
    {
        match &dl.symlink_path {
            Some(link) => relative_link_target(dl.primary_target_path.as_str(), link.as_str()),
            None => None,
        }
    }

    /// The next state and step, given the state, what came of its step, and
    /// what the link must hold.
    pub fn advance_with(
        dl: &Download,
        state: WorkerState,
        event: WorkerEvent,
        target: Option<String>,
    ) -> (r: (WorkerState, WorkerAction))
        ensures
            (r.0, r.1@) == advance_given(dl@, state, event, opt_text(target)),
    {
        match state {
            WorkerState::Probing => match event {
                WorkerEvent::Exists(true) => Worker::after_body(dl, Outcome::Kept),
                _ => (
                    WorkerState::MakingDirs,
                    WorkerAction::EnsureParentDir { path: dl.primary_target_path.clone() },
                ),
            },
            WorkerState::MakingDirs => match event {
                WorkerEvent::Done => (
                    WorkerState::CreatingFile,
                    WorkerAction::CreateFile { path: dl.primary_target_path.clone() },
                ),
                _ => Worker::finish(Outcome::Failed),
            },
            WorkerState::CreatingFile => match event {
                WorkerEvent::Done => (
                    WorkerState::Fetching,
                    WorkerAction::Fetch {
                        url: dl.url.clone(),
                        path: dl.primary_target_path.clone(),
                    },
                ),
                _ => Worker::finish(Outcome::Failed),
            },
            WorkerState::Fetching => match event {
                WorkerEvent::Done => Worker::after_body(dl, Outcome::Fetched),
                WorkerEvent::NotFound => (
                    WorkerState::RemovingPartial,
                    WorkerAction::RemoveFile { path: dl.primary_target_path.clone() },
                ),
                _ => Worker::finish(Outcome::Failed),
            },
            WorkerState::RemovingPartial => Worker::finish(Outcome::Failed),
            WorkerState::MakingLinkDir(done) => match (event, &dl.symlink_path) {
                (WorkerEvent::Done, Some(link)) => match target {
                    Some(_) => (
                        WorkerState::ClearingLink(done),
                        WorkerAction::RemoveFile { path: link.clone() },
                    ),
                    None => Worker::finish(Outcome::Failed),
                },
                _ => Worker::finish(Outcome::Failed),
            },
            WorkerState::ClearingLink(done) => match &dl.symlink_path {
                Some(link) => match target {
                    Some(target) => (
                        WorkerState::Linking(done),
                        WorkerAction::Link { target, link: link.clone() },
                    ),
                    None => Worker::finish(Outcome::Failed),
                },
                None => Worker::finish(Outcome::Failed),
            },
            WorkerState::Linking(done) => match event {
                WorkerEvent::Done => Worker::finish(done),
                _ => Worker::finish(Outcome::Failed),
            },
            WorkerState::Finished(o) => Worker::finish(o),
        }
    }

    /// The next state and step, given the state and what came of its step.
    pub fn advance(dl: &Download, state: WorkerState, event: WorkerEvent) -> (r: (
        WorkerState,
        WorkerAction,
    ))
        ensures
            (r.0, r.1@) == advance(dl@, state, event),
    {
        let target = match state {
            WorkerState::MakingLinkDir(_) => Worker::link_target(dl),
            WorkerState::ClearingLink(_) => Worker::link_target(dl),
            _ => None,
        };
        Worker::advance_with(dl, state, event, target)
    }
}

/// The state reached from the first step of a task by a run of events.
pub open spec fn state_after(dl: DownloadView, events: Seq<WorkerEvent>) -> WorkerState
    decreases events.len(),
{
    if events.len() == 0 {
        start(dl).0
    } else {
        advance(dl, state_after(dl, events.drop_last()), events.last()).0
    }
}

/// The step taken after the first `k` events of a run; the step at zero is
/// the first step of the task.
pub open spec fn action_at(dl: DownloadView, events: Seq<WorkerEvent>, k: int) -> ActionView
    recommends
        0 <= k <= events.len(),
{
    if k == 0 {
        start(dl).1
    } else {
        advance(dl, state_after(dl, events.take(k - 1)), events[k - 1]).1
    }
}

/// Steps that a worker in this state has at most before it is done.
pub open spec fn steps_left(state: WorkerState) -> nat {
    match state {
        WorkerState::Probing => 8,
        WorkerState::MakingDirs => 7,
        WorkerState::CreatingFile => 6,
        WorkerState::Fetching => 5,
        WorkerState::RemovingPartial => 1,
        WorkerState::MakingLinkDir(_) => 3,
        WorkerState::ClearingLink(_) => 2,
        WorkerState::Linking(_) => 1,
        WorkerState::Finished(_) => 0,
    }
}

/// Every event brings a worker that is not done closer to the end, and a
/// worker that is done stays done with the same outcome.
pub proof fn lemma_advance_progresses(dl: DownloadView, state: WorkerState, event: WorkerEvent)
    ensures
        state is Finished ==> advance(dl, state, event) == finish(state->Finished_0),
        !(state is Finished) ==> steps_left(advance(dl, state, event).0) < steps_left(state),
{
}

/// The handling of a task is over after eight events at the latest,
/// whatever they are.
pub proof fn lemma_run_ends(dl: DownloadView, events: Seq<WorkerEvent>)
    ensures
        steps_left(state_after(dl, events)) + events.len() <= 8 || state_after(
            dl,
            events,
        ) is Finished,
        events.len() >= 8 ==> state_after(dl, events) is Finished,
    decreases events.len(),
{
    if events.len() > 0 {
        lemma_run_ends(dl, events.drop_last());
        lemma_advance_progresses(dl, state_after(dl, events.drop_last()), events.last());
    }
}

/// A worker sets out to fetch a task exactly when the task needs
/// downloading: at once when it is forced, else after the look at the
/// target, unless that found the target in place; it then goes on to the
/// link, or ends the task as kept where it has none.
pub proof fn lemma_worker_follows_need(dl: DownloadView, event: WorkerEvent)
    ensures
        dl.always_download ==> start(dl).0 == WorkerState::MakingDirs,
        !dl.always_download ==> start(dl).0 == WorkerState::Probing && (advance(
            dl,
            WorkerState::Probing,
            event,
        ).0 == WorkerState::MakingDirs <==> dl.needs_downloading(
            match event {
                WorkerEvent::Exists(found) => Some(found),
                _ => None,
            },
        )),
        advance(dl, WorkerState::Probing, event).0 != WorkerState::MakingDirs ==> advance(
            dl,
            WorkerState::Probing,
            event,
        ) == after_body(dl, Outcome::Kept),
{
}

/// A state in which the target is left as it was found: the link of a
/// kept task is being placed, or the task is over without a fetch.
pub open spec fn leaves_target(state: WorkerState) -> bool {
    match state {
        WorkerState::MakingLinkDir(done) => done == Outcome::Kept,
        WorkerState::ClearingLink(done) => done == Outcome::Kept,
        WorkerState::Linking(done) => done == Outcome::Kept,
        WorkerState::Finished(o) => o != Outcome::Fetched,
        _ => false,
    }
}

/// A task that is not forced and whose target is found in place is not
/// fetched: no step of its handling creates the file or requests anything
/// from the source, and it does not end as fetched.
pub proof fn lemma_present_target_is_kept(dl: DownloadView, events: Seq<WorkerEvent>, k: int)
    requires
        !dl.always_download,
        events.len() > 0,
        events[0] == WorkerEvent::Exists(true),
        0 <= k <= events.len(),
    ensures
        !(action_at(dl, events, k) is Fetch),
        !(action_at(dl, events, k) is CreateFile),
        k >= 1 ==> leaves_target(state_after(dl, events.take(k))),
    decreases k,
{
    if k >= 1 {
        assert(events.take(k).drop_last() =~= events.take(k - 1));
        assert(events.take(k).last() == events[k - 1]);
        if k == 1 {
            assert(events.take(0).len() == 0);
        } else {
            lemma_present_target_is_kept(dl, events, k - 1);
        }
    }
}

/// The link of a kept task is placed anew: with its target in place, an
/// unforced task that asks for a link makes the link's directory, removes
/// the earlier link whatever comes of that, places the link to the target,
/// and ends as kept.
pub proof fn lemma_kept_task_is_linked(dl: DownloadView, removal: WorkerEvent)
    requires
        !dl.always_download,
        dl.symlink_path is Some,
        task_link_target(dl) is Some,
    ensures
        ({
            let link = dl.symlink_path->0;
            let events = seq![WorkerEvent::Exists(true), WorkerEvent::Done, removal, WorkerEvent::Done];
            &&& action_at(dl, events, 1) == (ActionView::EnsureParentDir { path: link })
            &&& action_at(dl, events, 2) == (ActionView::RemoveFile { path: link })
            &&& action_at(dl, events, 3) == (ActionView::Link {
                target: task_link_target(dl)->0,
                link,
            })
            &&& action_at(dl, events, 4) == ActionView::Finish(Outcome::Kept)
        }),
{
    let events = seq![WorkerEvent::Exists(true), WorkerEvent::Done, removal, WorkerEvent::Done];
    let e0 = events.take(0);
    let e1 = events.take(1);
    let e2 = events.take(2);
    let e3 = events.take(3);
    assert(e0.len() == 0);
    assert(e1.drop_last() =~= e0 && e1.last() == events[0]);
    assert(e2.drop_last() =~= e1 && e2.last() == events[1]);
    assert(e3.drop_last() =~= e2 && e3.last() == events[2]);
    assert(state_after(dl, e0) == WorkerState::Probing);
    assert(state_after(dl, e1) == WorkerState::MakingLinkDir(Outcome::Kept));
    assert(state_after(dl, e2) == WorkerState::ClearingLink(Outcome::Kept));
    assert(state_after(dl, e3) == WorkerState::Linking(Outcome::Kept));
}

/// A forced task is always fetched: it never looks at its target but
/// starts by making the directory, and once directory and file are made it
/// requests its URL, whatever its size.
pub proof fn lemma_forced_task_fetches(dl: DownloadView)
    requires
        dl.always_download,
    ensures
        start(dl) == (
            WorkerState::MakingDirs,
            ActionView::EnsureParentDir { path: dl.primary_target_path },
        ),
        action_at(dl, seq![WorkerEvent::Done, WorkerEvent::Done], 1) == (
            ActionView::CreateFile { path: dl.primary_target_path }
        ),
        action_at(dl, seq![WorkerEvent::Done, WorkerEvent::Done], 2) == (
            ActionView::Fetch { url: dl.url, path: dl.primary_target_path }
        ),
{
    let events = seq![WorkerEvent::Done, WorkerEvent::Done];
    let first = events.take(1);
    assert(events.take(0).len() == 0);
    assert(first.len() == 1);
    assert(first.drop_last().len() == 0);
    assert(state_after(dl, first.drop_last()) == start(dl).0);
    assert(first.last() == WorkerEvent::Done);
    assert(state_after(dl, first) == WorkerState::CreatingFile);
}

/// The accounting of a pool of workers: how many they are, and the progress
/// that their tasks add up to.
#[derive(Debug)]
pub struct Downloader {
    /// Number of workers in the pool.
    pub num_threads: u8,
    /// Progress of the tasks queued so far.
    pub progress: Progress,
}

/// The file counters after a task with this outcome is counted: a fetched
/// task as a success, a kept or failed one as skipped.
pub open spec fn counted(files: Counters, outcome: Outcome) -> Counters {
    match outcome {
        Outcome::Fetched => Counters { success: wrapping_add(files.success, 1), ..files },
        Outcome::Kept => Counters { skipped: wrapping_add(files.skipped, 1), ..files },
        Outcome::Failed => Counters { skipped: wrapping_add(files.skipped, 1), ..files },
    }
}

/// The progress after a task of this size is announced: one more file, and
/// as many more bytes as the task is known to have.
pub open spec fn announced(p: ProgressView, size: Option<u64>) -> ProgressView {
    ProgressView {
        files: Counters { total: wrapping_add(p.files.total, 1), ..p.files },
        bytes: match size {
            Some(size) => Counters { total: wrapping_add(p.bytes.total, size), ..p.bytes },
            None => p.bytes,
        },
        ..p
    }
}

/// The progress after a task is announced.
pub open spec fn queued(p: ProgressView, dl: DownloadView) -> ProgressView {
    announced(p, dl.size)
}

/// Bytes of a chunk of `len` bytes that were not announced before it came:
/// what the chunk has more than the bytes that remain.
pub open spec fn unannounced(bytes: Counters, len: u64) -> u64 {
    if len > bytes.remaining() {
        (len - bytes.remaining()) as u64
    } else {
        0
    }
}

/// The byte counters after a chunk of `len` bytes was received: what of
/// it was not announced is announced first, then the chunk is counted as
/// succeeded.
pub open spec fn received(bytes: Counters, len: u64) -> Counters {
    Counters {
        total: wrapping_add(bytes.total, unannounced(bytes, len)),
        success: wrapping_add(bytes.success, len),
        ..bytes
    }
}

/// Receiving a chunk keeps consistent byte counters consistent, short of 64
/// bits of bytes done.
pub proof fn lemma_received_is_consistent(bytes: Counters, len: u64)
    requires
        bytes.consistent(),
        bytes.done() + len <= u64::MAX,
    ensures
        received(bytes, len).consistent(),
        received(bytes, len).total == if bytes.done() + len > bytes.total {
            bytes.done() + len
        } else {
            bytes.total as int
        },
{
}

/// One thing that happens to the accounting of a pool.
pub enum PoolEvent {
    /// A task of this size, where it is known, was queued.
    Queued(Option<u64>),
    /// A chunk of this many bytes was received.
    Chunk(u64),
    /// A worker was done with a task.
    Counted(Outcome),
}

/// The progress after one event.
pub open spec fn pool_step(p: ProgressView, e: PoolEvent) -> ProgressView {
    match e {
        PoolEvent::Queued(size) => announced(p, size),
        PoolEvent::Chunk(len) => ProgressView { bytes: received(p.bytes, len), ..p },
        PoolEvent::Counted(outcome) => ProgressView { files: counted(p.files, outcome), ..p },
    }
}

/// The progress of a pool after a run of events, from fresh progress.
pub open spec fn pool_after(events: Seq<PoolEvent>) -> ProgressView
    decreases events.len(),
{
    if events.len() == 0 {
        Progress::new_view()
    } else {
        pool_step(pool_after(events.drop_last()), events.last())
    }
}

/// Number of tasks queued in a run.
pub open spec fn queued_count(events: Seq<PoolEvent>) -> nat
    decreases events.len(),
{
    if events.len() == 0 {
        0
    } else if events.last() is Queued {
        queued_count(events.drop_last()) + 1
    } else {
        queued_count(events.drop_last())
    }
}

/// Number of tasks that workers were done with in a run.
pub open spec fn tracked_count(events: Seq<PoolEvent>) -> nat
    decreases events.len(),
{
    if events.len() == 0 {
        0
    } else if events.last() is Counted {
        tracked_count(events.drop_last()) + 1
    } else {
        tracked_count(events.drop_last())
    }
}

/// Bytes that a run speaks of: the known sizes of its tasks and the
/// lengths of its chunks.
pub open spec fn bytes_spoken_of(events: Seq<PoolEvent>) -> nat
    decreases events.len(),
{
    if events.len() == 0 {
        0
    } else {
        bytes_spoken_of(events.drop_last()) + match events.last() {
            PoolEvent::Queued(Some(size)) => size as nat,
            PoolEvent::Chunk(len) => len as nat,
            _ => 0,
        }
    }
}

/// Workers are done only with tasks that were queued, and with each once:
/// whenever a worker is done with a task, more tasks were queued before
/// than workers were done with.
pub open spec fn tracked_after_queued(events: Seq<PoolEvent>) -> bool {
    forall|k: int|
        0 <= k < events.len() && (#[trigger] events[k]) is Counted ==> tracked_count(
            events.take(k),
        ) < queued_count(events.take(k))
}

/// The bytes that the first events of a run speak of are among those that
/// the whole run speaks of.
pub proof fn lemma_bytes_spoken_of_grow(events: Seq<PoolEvent>, k: int)
    requires
        0 <= k <= events.len(),
    ensures
        bytes_spoken_of(events.take(k)) <= bytes_spoken_of(events),
    decreases events.len() - k,
{
    if k == events.len() {
        assert(events.take(k) =~= events);
    } else {
        assert(events.take(k + 1).drop_last() =~= events.take(k));
        lemma_bytes_spoken_of_grow(events, k + 1);
    }
}

/// At every point of a run of a pool both series are consistent: done
/// units never exceed the announced total, of files and of bytes alike.
/// This holds of every run in which workers are done only with tasks that
/// were queued, short of 64 bits of events and of bytes.
pub proof fn lemma_pool_is_consistent(events: Seq<PoolEvent>, k: int)
    requires
        tracked_after_queued(events),
        events.len() <= u64::MAX,
        bytes_spoken_of(events) <= u64::MAX,
        0 <= k <= events.len(),
    ensures
        pool_after(events.take(k)).files.consistent(),
        pool_after(events.take(k)).bytes.consistent(),
        pool_after(events.take(k)).files.total == queued_count(events.take(k)),
        pool_after(events.take(k)).files.done() <= tracked_count(events.take(k)),
        tracked_count(events.take(k)) <= queued_count(events.take(k)),
        queued_count(events.take(k)) <= k,
        pool_after(events.take(k)).bytes.total <= bytes_spoken_of(events.take(k)),
        pool_after(events.take(k)).files.failed == 0,
    decreases k,
{
    if k == 0 {
        assert(events.take(0).len() == 0);
    } else {
        lemma_pool_is_consistent(events, k - 1);
        lemma_bytes_spoken_of_grow(events, k);
        let before = events.take(k - 1);
        let upto = events.take(k);
        assert(upto.drop_last() =~= before);
        assert(upto.last() == events[k - 1]);
        let p = pool_after(before);
        match events[k - 1] {
            PoolEvent::Queued(size) => {},
            PoolEvent::Chunk(len) => {
                lemma_received_is_consistent(p.bytes, len);
            },
            PoolEvent::Counted(outcome) => {
                assert(tracked_count(before) < queued_count(before));
            },
        }
    }
}

impl Downloader {
    /// The accounting of a pool of `num_threads` workers, with fresh
    /// progress.
    pub fn build(num_threads: u8) -> (r: Self)
        ensures
            r.num_threads == num_threads,
            r.progress@ == Progress::new_view(),
    {
        Downloader { num_threads, progress: Progress::new() }
    }

    /// Announces a task that is about to enter the queue. Short of 64 bits
    /// of files, consistent file counters stay consistent and show one more
    /// file remaining; short of 64 bits of bytes, consistent byte counters
    /// stay consistent.
    pub fn queue(&mut self, download_entry: &Download)
        ensures
            final(self).progress@ == queued(old(self).progress@, download_entry@),
            final(self).num_threads == old(self).num_threads,
            old(self).progress@.files.consistent() && old(self).progress@.files.total < u64::MAX
                ==> final(self).progress@.files.consistent() && final(self).progress@.files.remaining()
                == old(self).progress@.files.remaining() + 1,
            old(self).progress@.bytes.consistent() && (download_entry.size matches Some(size)
                ==> old(self).progress@.bytes.total + size <= u64::MAX) ==> final(self).progress@.bytes.consistent(),
    {
        if let Some(size) = download_entry.size {
            self.progress.bytes.inc_total(size);
        }
        self.progress.files.inc_total(1);
    }

    /// Counts the bytes of one chunk of a body as received. Bytes that no
    /// task announced, as those of a task of unknown size, are announced
    /// before they are counted, so that, short of 64 bits of bytes,
    /// consistent byte counters stay consistent.
    pub fn chunk_received(&mut self, len: u64)
        ensures
            final(self).progress@ == (ProgressView {
                bytes: received(old(self).progress@.bytes, len),
                ..old(self).progress@
            }),
            final(self).num_threads == old(self).num_threads,
            old(self).progress@.bytes.consistent() && old(self).progress@.bytes.done() + len
                <= u64::MAX ==> final(self).progress@.bytes.consistent(),
    {
        let remaining = self.progress.bytes.remaining();
        if len > remaining {
            self.progress.bytes.inc_total(len - remaining);
        }
        self.progress.bytes.inc_success(len);
    }

    /// Counts a task that a worker is done with, whatever its outcome. If
    /// the file counters were consistent and the task had been announced,
    /// they stay consistent and show one file less remaining.
    pub fn download_and_track(&mut self, outcome: Outcome)
        ensures
            final(self).progress@ == (ProgressView {
                files: counted(old(self).progress@.files, outcome),
                ..old(self).progress@
            }),
            final(self).num_threads == old(self).num_threads,
            old(self).progress@.files.consistent() && old(self).progress@.files.remaining() >= 1
                ==> final(self).progress@.files.consistent() && final(self).progress@.files.remaining() == old(self).progress@.files.remaining() - 1,
    {
        match outcome {
            Outcome::Fetched => self.progress.files.inc_success(1),
            Outcome::Kept => self.progress.files.inc_skipped(1),
            Outcome::Failed => self.progress.files.inc_skipped(1),
        }
    }

    /// The progress of the tasks queued so far.
    pub fn progress(&self) -> (r: &Progress)
        ensures
            r == &self.progress,
    {
        &self.progress
    }
}

} // verus!
