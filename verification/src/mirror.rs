//! The mirror run: its phases in order, the download tasks of the first two
//! phases, and the promotion of what was staged.

use vstd::prelude::*;
use serde_json::Value;
use crate::catalog::{
    entry_text, record_entries, record_text, CatalogError, ExtensionListData, JsonShape, KEY_ID,
    KEY_VERSION,
};
use crate::downloader::{
    action_at, lemma_forced_task_fetches, lemma_present_target_is_kept, start, ActionView,
    Download, DownloadView, Downloader, WorkerEvent,
};
use crate::index::{indexed, succeeded_more, IndexError, Indexer};
use crate::progress::{Counters, Progress, ProgressView};
use vstd::wrapping::u64_specs::wrapping_add;
use crate::text::{
    decimal, decimal_text, join2, strip_trailing_slash, without_trailing_slash,
};

verus! {

/// Newest schema version that the mirror asks the registry for.
pub const MAX_SCHEMA_VERSION: i32 = 1;

/// Registry that is mirrored unless another is named.
pub const DEFAULT_API_URL: &'static str = "https://api.zed.dev";

/// Number of workers unless another is named.
pub const DEFAULT_DL_THREADS: u8 = 8;

/// Options of a mirror run.
#[derive(Debug, Clone)]
pub struct MirrorOpts {
    /// Root of the registry's API.
    pub api_url: String,
    /// Number of workers that fetch.
    pub dl_threads: u8,
}

/// What a mirror run works with.
#[derive(Debug)]
pub struct MirrorCtx {
    /// Root of the staging area.
    pub tmp_path: String,
    /// Accounting of the pool of workers.
    pub downloader: Downloader,
}

/// Root of the staging area of an output root: `.tmp` below it.
pub open spec fn staging_root(output: Seq<char>) -> Seq<char> {
    without_trailing_slash(output) + "/.tmp"@
}

/// Where the catalog is staged.
pub open spec fn staged_catalog_path(tmp_path: Seq<char>) -> Seq<char> {
    tmp_path + "/extensions.json"@
}

/// Where the registry lists its packages: those of no newer schema
/// version than the mirror asks for.
pub open spec fn catalog_url(api_url: Seq<char>) -> Seq<char> {
    api_url + "/extensions?max_schema_version="@ + decimal(MAX_SCHEMA_VERSION as nat)
}

/// The task that fetches the catalog: forced, without a link, of unknown
/// size.
pub open spec fn catalog_task_view(api_url: Seq<char>, tmp_path: Seq<char>) -> DownloadView {
    DownloadView {
        url: catalog_url(api_url),
        size: None,
        primary_target_path: staged_catalog_path(tmp_path),
        symlink_path: None,
        always_download: true,
    }
}

/// Where the registry offers the archive of one version of a package.
pub open spec fn archive_url(api_url: Seq<char>, id: Seq<char>, version: Seq<char>) -> Seq<char> {
    api_url + "/extensions/"@ + id + "/"@ + version + "/download"@
}

/// Where the archive of one version of a package is kept.
pub open spec fn archive_path(output: Seq<char>, id: Seq<char>, version: Seq<char>) -> Seq<char> {
    output + "/extensions/"@ + id + "/"@ + version + "/archive"@
}

/// Where the link to the archive last handled for a package is kept.
pub open spec fn latest_archive_path(output: Seq<char>, id: Seq<char>) -> Seq<char> {
    output + "/extensions/"@ + id + "/archive"@
}

/// The task that fetches one archive: not forced, with the package's link,
/// of unknown size.
pub open spec fn archive_task_view(
    api_url: Seq<char>,
    output: Seq<char>,
    id: Seq<char>,
    version: Seq<char>,
) -> DownloadView {
    DownloadView {
        url: archive_url(api_url, id, version),
        size: None,
        primary_target_path: archive_path(output, id, version),
        symlink_path: Some(latest_archive_path(output, id)),
        always_download: false,
    }
}

/// The task of one catalog record, or why the record has none: it needs a
/// string `id`, and then a string `version`.
pub open spec fn record_task(
    api_url: Seq<char>,
    output: Seq<char>,
    entries: Map<Seq<char>, JsonShape>,
) -> Result<DownloadView, CatalogError> {
    match entry_text(entries, KEY_ID@) {
        None => Err(CatalogError::MissingId),
        Some(id) => match entry_text(entries, KEY_VERSION@) {
            None => Err(CatalogError::MissingVersion),
            Some(version) => Ok(archive_task_view(api_url, output, id, version)),
        },
    }
}

impl MirrorCtx {
    /// The context of a run into `output`: the staging root below it and
    /// the accounting of a pool of `opts.dl_threads` workers.
    pub fn init(opts: &MirrorOpts, output: &str) -> (r: Self)
        ensures
            r.tmp_path@ == staging_root(output@),
            r.downloader.num_threads == opts.dl_threads,
            r.downloader.progress@ == Progress::new_view(),
    {
        let root = strip_trailing_slash(output);
        let tmp_path = join2(root.as_str(), "/.tmp");
        MirrorCtx { tmp_path, downloader: Downloader::build(opts.dl_threads) }
    }
}

/// Where the registry lists its packages.
pub fn catalog_address(api_url: &str) -> (r: String)
    ensures
        r@ == catalog_url(api_url@),
{
    let mut r = join2(api_url, "/extensions?max_schema_version=");
    let newest = decimal_text(MAX_SCHEMA_VERSION as u64);
    r.append(newest.as_str());
    r
}

/// The task that fetches the catalog into the staging area.
pub fn download_extension_list(ctx: &MirrorCtx, opts: &MirrorOpts) -> (r: Download)
    ensures
        r@ == catalog_task_view(opts.api_url@, ctx.tmp_path@),
{
    Download {
        url: catalog_address(opts.api_url.as_str()),
        size: None,
        primary_target_path: join2(ctx.tmp_path.as_str(), "/extensions.json"),
        symlink_path: None,
        always_download: true,
    }
}

/// The task that fetches the archive of one version of a package.
pub fn archive_task(api_url: &str, output: &str, id: &str, version: &str) -> (r: Download)
    ensures
        r@ == archive_task_view(api_url@, output@, id@, version@),
{
    let mut url = join2(api_url, "/extensions/");
    url.append(id);
    url.append("/");
    url.append(version);
    url.append("/download");
    let mut path = join2(output, "/extensions/");
    path.append(id);
    path.append("/");
    path.append(version);
    path.append("/archive");
    let mut link = join2(output, "/extensions/");
    link.append(id);
    link.append("/archive");
    Download {
        url,
        size: None,
        primary_target_path: path,
        symlink_path: Some(link),
        always_download: false,
    }
}

/// The task of one catalog record.
pub fn task_of_record(api_url: &str, output: &str, rec: &serde_json::Map<String, Value>) -> (r:
    Result<Download, CatalogError>)
    ensures
        match record_task(api_url@, output@, record_entries(*rec)) {
            Ok(task) => r is Ok && r->Ok_0@ == task,
            Err(e) => r == Err::<Download, CatalogError>(e),
        },
{
    let id = match record_text(rec, KEY_ID) {
        Some(id) => id,
        None => { return Err(CatalogError::MissingId); },
    };
    let version = match record_text(rec, KEY_VERSION) {
        Some(version) => version,
        None => { return Err(CatalogError::MissingVersion); },
    };
    Ok(archive_task(api_url, output, id.as_str(), version.as_str()))
}

/// The archive tasks of a catalog, in the order of its records, up to the
/// first record that has none.
#[derive(Debug)]
pub struct FanOut {
    /// The tasks to queue, in order.
    pub tasks: Vec<Download>,
    /// Why the run fails once these tasks are queued, if it does.
    pub error: Option<CatalogError>,
}

/// Position of the first record without a task, or the number of records.
pub open spec fn first_invalid(
    api_url: Seq<char>,
    output: Seq<char>,
    records: Seq<serde_json::Map<String, Value>>,
) -> int
    decreases records.len(),
{
    if records.len() == 0 {
        0
    } else if record_task(api_url, output, record_entries(records[0])) is Err {
        0
    } else {
        1 + first_invalid(api_url, output, records.skip(1))
    }
}

/// `first_invalid` is the position before which every record has a task
/// and at which one has none, or the records end.
pub proof fn lemma_first_invalid(
    api_url: Seq<char>,
    output: Seq<char>,
    records: Seq<serde_json::Map<String, Value>>,
    k: int,
)
    requires
        0 <= k <= records.len(),
        forall|j: int| 0 <= j < k ==> record_task(api_url, output, record_entries(records[j])) is Ok,
        k == records.len() || record_task(api_url, output, record_entries(records[k])) is Err,
    ensures
        first_invalid(api_url, output, records) == k,
    decreases records.len(),
{
    if records.len() == 0 || record_task(api_url, output, record_entries(records[0])) is Err {
    } else {
        assert forall|j: int| 0 <= j < k - 1 implies record_task(
            api_url,
            output,
            record_entries(records.skip(1)[j]),
        ) is Ok by {
            assert(records.skip(1)[j] == records[j + 1]);
        }
        lemma_first_invalid(api_url, output, records.skip(1), k - 1);
    }
}

/// The archive tasks of a catalog: one for each record before the first
/// that lacks a string `id` or `version`, and the error of that record if
/// there is one.
pub fn download_extensions(opts: &MirrorOpts, output: &str, list: &ExtensionListData) -> (r: FanOut)
    ensures
        r.tasks@.len() == first_invalid(opts.api_url@, output@, list.data@),
        forall|i: int|
            0 <= i < r.tasks@.len() ==> record_task(
                opts.api_url@,
                output@,
                record_entries(#[trigger] list.data@[i]),
            ) == Ok::<DownloadView, CatalogError>(r.tasks@[i]@),
        r.tasks@.len() == list.data@.len() ==> r.error is None,
        r.tasks@.len() < list.data@.len() ==> r.error is Some && record_task(
            opts.api_url@,
            output@,
            record_entries(list.data@[r.tasks@.len() as int]),
        ) == Err::<DownloadView, CatalogError>(r.error->0),
{
    let mut tasks: Vec<Download> = Vec::new();
    let n = list.data.len();
    let mut i: usize = 0;
    while i < n
        invariant
            i <= n,
            n == list.data@.len(),
            tasks@.len() == i,
            forall|j: int|
                0 <= j < i ==> record_task(
                    opts.api_url@,
                    output@,
                    record_entries(#[trigger] list.data@[j]),
                ) == Ok::<DownloadView, CatalogError>(tasks@[j]@),
        decreases n - i,
    {
        match task_of_record(opts.api_url.as_str(), output, &list.data[i]) {
            Ok(task) => {
                tasks.push(task);
            },
            Err(e) => {
                proof {
                    lemma_first_invalid(opts.api_url@, output@, list.data@, i as int);
                }
                return FanOut { tasks, error: Some(e) };
            },
        }
        i += 1;
    }
    proof {
        lemma_first_invalid(opts.api_url@, output@, list.data@, n as int);
    }
    FanOut { tasks, error: None }
}

/// Every run fetches the catalog anew: its task is forced, so no look is
/// taken at what an earlier run staged, and once the staging directory and
/// the file are made the registry is asked for the catalog.
pub proof fn lemma_catalog_is_always_fetched(api_url: Seq<char>, tmp_path: Seq<char>)
    ensures
        ({
            let task = catalog_task_view(api_url, tmp_path);
            &&& start(task).1 == (ActionView::EnsureParentDir { path: staged_catalog_path(tmp_path) })
            &&& action_at(task, seq![WorkerEvent::Done, WorkerEvent::Done], 2) == (
                ActionView::Fetch { url: catalog_url(api_url), path: staged_catalog_path(tmp_path) }
            )
        }),
{
    lemma_forced_task_fetches(catalog_task_view(api_url, tmp_path));
}

/// A second run over an unchanged catalog requests no archive: the task of
/// a record is not forced, so it starts with a look at its target, and with
/// the target in place no step of its handling asks the source for
/// anything.
pub proof fn lemma_fan_out_is_idempotent(
    api_url: Seq<char>,
    output: Seq<char>,
    entries: Map<Seq<char>, JsonShape>,
    events: Seq<WorkerEvent>,
    k: int,
)
    requires
        record_task(api_url, output, entries) is Ok,
        events.len() > 0,
        events[0] == WorkerEvent::Exists(true),
        0 <= k <= events.len(),
    ensures
        ({
            let task = record_task(api_url, output, entries)->Ok_0;
            &&& start(task).1 == (ActionView::ProbeTarget { path: task.primary_target_path })
            &&& !(action_at(task, events, k) is Fetch)
        }),
{
    let task = record_task(api_url, output, entries)->Ok_0;
    lemma_present_target_is_kept(task, events, k);
}

/// The index stage of a run: the index is created in the staging area, the
/// records of the catalog are announced as files, and the catalog is
/// ingested as one batch.
///
/// On success a writer has committed exactly the records of the catalog,
/// each without its null API version; where a record fails, nothing is
/// committed.
///
/// If the index cannot be created nothing is announced. Otherwise as many
/// files are announced as the catalog has records, and as many are counted
/// as succeeded as were added before the stage ended. Short of 64 bits of
/// files, consistent file counters stay consistent, and a stage that
/// began at zero and succeeded leaves no file remaining.
pub fn generate_index(ctx: &mut MirrorCtx, output: &str, ext_list: ExtensionListData) -> (r: Result<
    (),
    IndexError,
>)
    ensures
        final(ctx).tmp_path == old(ctx).tmp_path,
        final(ctx).downloader.num_threads == old(ctx).downloader.num_threads,
        final(ctx).downloader.progress@ == (ProgressView {
            files: final(ctx).downloader.progress@.files,
            ..old(ctx).downloader.progress@
        }),
        ({
            let before = old(ctx).downloader.progress@.files;
            let announced = Counters {
                total: wrapping_add(before.total, ext_list.data@.len() as u64),
                ..before
            };
            let files = final(ctx).downloader.progress@.files;
            match r {
                Ok(()) => files == succeeded_more(announced, ext_list.data@.len()),
                Err(IndexError::Create(_)) => files == before,
                Err(IndexError::Writer(_)) => files == announced,
                Err(IndexError::Schema) => false,
                Err(IndexError::Document(k, _)) => k < ext_list.data@.len() && files
                    == succeeded_more(announced, k as nat),
                Err(IndexError::Add(k, _)) => k < ext_list.data@.len() && files == succeeded_more(
                    announced,
                    k as nat,
                ),
                Err(IndexError::Commit(_)) => files == succeeded_more(
                    announced,
                    ext_list.data@.len(),
                ),
            }
        }),
        old(ctx).downloader.progress@.files.consistent() && old(ctx).downloader.progress@.files.total
            + ext_list.data@.len() <= u64::MAX ==> final(ctx).downloader.progress@.files.consistent(),
        r is Ok && old(ctx).downloader.progress@.files == Counters::zero() ==> final(
            ctx
        ).downloader.progress@.files.remaining() == 0,
        indexed(ext_list.data@, r),
{
    let indexer = Indexer::init(output)?;
    ctx.downloader.progress.files.inc_total(ext_list.data.len() as u64);
    indexer.index(ext_list, &mut ctx.downloader.progress)
}

/// Number of phases that the display of a run announces.
pub const TOTAL_STEPS: u8 = 3;

/// The stages of a run, in the order in which they are gone through.
#[derive(Debug, Clone, Copy, PartialEq, Eq, Structural)]
pub enum Stage {
    /// Making the staging area and the pool.
    Setup,
    /// Fetching the catalog.
    CatalogFetch,
    /// Fetching the archives of the catalog's records.
    ArchiveFanOut,
    /// Building the index from the catalog.
    IndexBuild,
    /// Putting what was staged in place of what is live.
    Promotion,
}

/// Where a run stands.
#[derive(Debug, Clone, Copy, PartialEq, Eq, Structural)]
pub enum RunState {
    /// The stage is under way.
    Running(Stage),
    /// All stages succeeded.
    Completed,
    /// The stage failed, and with it the run.
    Aborted(Stage),
}

impl Stage {
    /// The stage at a position.
    pub open spec fn at(i: int) -> Stage
        recommends
            0 <= i < 5,
    {
        if i == 0 {
            Stage::Setup
        } else if i == 1 {
            Stage::CatalogFetch
        } else if i == 2 {
            Stage::ArchiveFanOut
        } else if i == 3 {
            Stage::IndexBuild
        } else {
            Stage::Promotion
        }
    }

    /// Where the run stands once the stage has succeeded.
    pub open spec fn followed_by(self) -> RunState {
        match self {
            Stage::Setup => RunState::Running(Stage::CatalogFetch),
            Stage::CatalogFetch => RunState::Running(Stage::ArchiveFanOut),
            Stage::ArchiveFanOut => RunState::Running(Stage::IndexBuild),
            Stage::IndexBuild => RunState::Running(Stage::Promotion),
            Stage::Promotion => RunState::Completed,
        }
    }

    /// The name under which the display shows the stage, for the three
    /// stages that it counts.
    pub open spec fn step_name_spec(self) -> Option<Seq<char>> {
        match self {
            Stage::Setup => None,
            Stage::CatalogFetch => Some("Downloading metadata"@),
            Stage::ArchiveFanOut => Some("Downloading extensions"@),
            Stage::IndexBuild => Some("Generating index"@),
            Stage::Promotion => None,
        }
    }

    /// What an error of the stage is reported with.
    pub open spec fn context_spec(self) -> Seq<char> {
        match self {
            Stage::Setup => "initializing mirror context"@,
            Stage::CatalogFetch => "downloading extension list"@,
            Stage::ArchiveFanOut => "downloading extensions"@,
            Stage::IndexBuild => "generating index"@,
            Stage::Promotion => "finishing up"@,
        }
    }

    /// The name under which the display shows the stage, if it does.
    pub fn step_name(&self) -> (r: Option<&'static str>)
        ensures
            match r {
                Some(name) => self.step_name_spec() == Some(name@),
                None => self.step_name_spec() is None,
            },
    {
        match self {
            Stage::Setup => None,
            Stage::CatalogFetch => Some("Downloading metadata"),
            Stage::ArchiveFanOut => Some("Downloading extensions"),
            Stage::IndexBuild => Some("Generating index"),
            Stage::Promotion => None,
        }
    }

    /// What an error of the stage is reported with.
    pub fn context(&self) -> (r: &'static str)
        ensures
            r@ == self.context_spec(),
    {
        match self {
            Stage::Setup => "initializing mirror context",
            Stage::CatalogFetch => "downloading extension list",
            Stage::ArchiveFanOut => "downloading extensions",
            Stage::IndexBuild => "generating index",
            Stage::Promotion => "finishing up",
        }
    }
}

impl RunState {
    /// Where a run begins.
    pub open spec fn initial() -> RunState {
        RunState::Running(Stage::Setup)
    }

    /// Where the run stands after the stage under way has ended. A run
    /// that is over stays as it is.
    pub open spec fn next(self, succeeded: bool) -> RunState {
        match self {
            RunState::Running(stage) => if succeeded {
                stage.followed_by()
            } else {
                RunState::Aborted(stage)
            },
            _ => self,
        }
    }

    /// Where a run stands after its stages ended with these results, one
    /// after the other.
    pub open spec fn after(results: Seq<bool>) -> RunState
        decreases results.len(),
    {
        if results.len() == 0 {
            RunState::initial()
        } else {
            RunState::after(results.drop_last()).next(results.last())
        }
    }
}

/// Where the run stands after the stage under way has ended: at the next
/// stage after a success, at the end after the last, and aborted after a
/// failure.
pub fn mirror(state: RunState, succeeded: bool) -> (r: RunState)
    ensures
        r == state.next(succeeded),
{
    match state {
        RunState::Running(stage) => {
            if !succeeded {
                RunState::Aborted(stage)
            } else {
                match stage {
                    Stage::Setup => RunState::Running(Stage::CatalogFetch),
                    Stage::CatalogFetch => RunState::Running(Stage::ArchiveFanOut),
                    Stage::ArchiveFanOut => RunState::Running(Stage::IndexBuild),
                    Stage::IndexBuild => RunState::Running(Stage::Promotion),
                    Stage::Promotion => RunState::Completed,
                }
            }
        },
        RunState::Completed => RunState::Completed,
        RunState::Aborted(stage) => RunState::Aborted(stage),
    }
}

/// Position of the first failure among the results, or their number.
pub open spec fn first_failure(results: Seq<bool>) -> int
    decreases results.len(),
{
    if results.len() == 0 {
        0
    } else {
        let before = first_failure(results.drop_last());
        if before < results.len() - 1 || !results.last() {
            before
        } else {
            before + 1
        }
    }
}

/// The stages are gone through strictly in order, each only after the one
/// before it succeeded: a run stands at stage `k` exactly after `k`
/// successes, is completed after five, and is aborted at the stage of the
/// first failure, whatever follows.
pub proof fn lemma_stages_in_order(results: Seq<bool>)
    ensures
        ({
            let k = first_failure(results);
            &&& 0 <= k <= results.len()
            &&& (forall|j: int| 0 <= j < k ==> results[j])
            &&& (k < results.len() ==> !results[k])
            &&& RunState::after(results) == if k >= 5 {
                RunState::Completed
            } else if k < results.len() {
                RunState::Aborted(Stage::at(k))
            } else {
                RunState::Running(Stage::at(k))
            }
        }),
    decreases results.len(),
{
    if results.len() > 0 {
        lemma_stages_in_order(results.drop_last());
        let before = first_failure(results.drop_last());
        assert forall|j: int| 0 <= j < before implies results[j] by {
            assert(results.drop_last()[j] == results[j]);
        }
        if before < results.len() - 1 {
            assert(results.drop_last()[before] == results[before]);
        }
    }
}

/// What is staged and where it goes.
#[derive(Debug, Clone, Copy, PartialEq, Eq, Structural)]
pub enum ArtifactKind {
    /// A single file.
    File,
    /// A directory with all that is in it.
    Directory,
}

/// One thing that a run stages and then puts in place.
#[derive(Debug, PartialEq, Eq)]
pub struct Artifact {
    /// Where the run wrote it.
    pub staged: String,
    /// Where it is served from.
    pub live: String,
    /// What it is.
    pub kind: ArtifactKind,
}

/// One change of the file tree during promotion.
#[derive(Debug, PartialEq, Eq)]
pub enum PromoteStep {
    /// Remove the file at `path`.
    RemoveFile { path: String },
    /// Remove the directory at `path` with all that is in it.
    RemoveDirAll { path: String },
    /// Move what is at `from` to `to`.
    Rename { from: String, to: String },
}

/// Mathematical content of a [`PromoteStep`]: the two removals differ only
/// in what they are applied to.
pub enum TreeStep {
    Remove { path: Seq<char> },
    Rename { from: Seq<char>, to: Seq<char> },
}

impl View for PromoteStep {
    type V = TreeStep;

    open spec fn view(&self) -> TreeStep {
        match self {
            PromoteStep::RemoveFile { path } => TreeStep::Remove { path: path@ },
            PromoteStep::RemoveDirAll { path } => TreeStep::Remove { path: path@ },
            PromoteStep::Rename { from, to } => TreeStep::Rename { from: from@, to: to@ },
        }
    }
}

/// A file tree reduced to what promotion is about: which paths hold
/// something, and what. A directory counts as one thing.
pub type Tree = Map<Seq<char>, int>;

/// The tree after one step. A removal leaves the path empty. A move puts
/// what was at `from` at `to` and leaves `from` empty; where `from` holds
/// nothing, the move fails and the tree stays as it is.
pub open spec fn apply_step(tree: Tree, step: TreeStep) -> Tree {
    match step {
        TreeStep::Remove { path } => tree.remove(path),
        TreeStep::Rename { from, to } => if tree.contains_key(from) {
            tree.remove(from).insert(to, tree[from])
        } else {
            tree
        },
    }
}

/// The tree after the steps, one after the other.
pub open spec fn apply_steps(tree: Tree, steps: Seq<TreeStep>) -> Tree
    decreases steps.len(),
{
    if steps.len() == 0 {
        tree
    } else {
        apply_step(apply_steps(tree, steps.drop_last()), steps.last())
    }
}

/// The steps that put one artifact in place: the live one is removed if it
/// is there, then the staged one is moved to its place.
pub open spec fn promotion_of(staged: Seq<char>, live: Seq<char>, live_exists: bool) -> Seq<
    TreeStep,
> {
    if live_exists {
        seq![TreeStep::Remove { path: live }, TreeStep::Rename { from: staged, to: live }]
    } else {
        seq![TreeStep::Rename { from: staged, to: live }]
    }
}

/// The views of a list of steps.
pub open spec fn step_views(steps: Seq<PromoteStep>) -> Seq<TreeStep> {
    steps.map_values(|s: PromoteStep| s@)
}

/// Where the index is staged.
pub open spec fn staged_index_path(tmp_path: Seq<char>) -> Seq<char> {
    tmp_path + "/idx"@
}

/// Where the live catalog is.
pub open spec fn live_catalog_path(output: Seq<char>) -> Seq<char> {
    output + "/extensions.json"@
}

/// Where the live index is.
pub open spec fn live_index_path(output: Seq<char>) -> Seq<char> {
    output + "/idx"@
}

/// What a run puts in place, in order: the catalog, then the index. Both
/// staged paths differ from both live paths when the staging area is the
/// one of the output root.
pub fn promote_tmp(ctx: &MirrorCtx, output: &str) -> (r: Vec<Artifact>)
    ensures
        r@.len() == 2,
        r@[0].staged@ == staged_catalog_path(ctx.tmp_path@),
        r@[0].live@ == live_catalog_path(output@),
        r@[0].kind == ArtifactKind::File,
        r@[1].staged@ == staged_index_path(ctx.tmp_path@),
        r@[1].live@ == live_index_path(output@),
        r@[1].kind == ArtifactKind::Directory,
{
    let mut r: Vec<Artifact> = Vec::new();
    r.push(
        Artifact {
            staged: join2(ctx.tmp_path.as_str(), "/extensions.json"),
            live: join2(output, "/extensions.json"),
            kind: ArtifactKind::File,
        },
    );
    r.push(
        Artifact {
            staged: join2(ctx.tmp_path.as_str(), "/idx"),
            live: join2(output, "/idx"),
            kind: ArtifactKind::Directory,
        },
    );
    r
}

/// The steps that put one artifact in place, given whether its live
/// counterpart is there.
pub fn promote_steps(artifact: &Artifact, live_exists: bool) -> (r: Vec<PromoteStep>)
    ensures
        step_views(r@) == promotion_of(artifact.staged@, artifact.live@, live_exists),
        live_exists ==> (r@[0] is RemoveDirAll <==> artifact.kind == ArtifactKind::Directory),
{
    let mut r: Vec<PromoteStep> = Vec::new();
    if live_exists {
        match artifact.kind {
            ArtifactKind::File => r.push(PromoteStep::RemoveFile { path: artifact.live.clone() }),
            ArtifactKind::Directory => r.push(
                PromoteStep::RemoveDirAll { path: artifact.live.clone() },
            ),
        }
    }
    r.push(PromoteStep::Rename { from: artifact.staged.clone(), to: artifact.live.clone() });
    assert(step_views(r@) =~= promotion_of(artifact.staged@, artifact.live@, live_exists));
    r
}

/// After the promotion of an artifact that was staged, the live path holds
/// what was staged, the staged path holds nothing, and every other path
/// holds what it held before.
pub proof fn lemma_promotion_replaces_live(tree: Tree, staged: Seq<char>, live: Seq<char>)
    requires
        tree.contains_key(staged),
        staged != live,
    ensures
        ({
            let after = apply_steps(tree, promotion_of(staged, live, tree.contains_key(live)));
            &&& after.contains_key(live) && after[live] == tree[staged]
            &&& !after.contains_key(staged)
            &&& forall|p: Seq<char>|
                p != staged && p != live ==> (after.contains_key(p) <==> #[trigger] tree.contains_key(
                    p,
                )) && (tree.contains_key(p) ==> after[p] == tree[p])
        }),
{
    let steps = promotion_of(staged, live, tree.contains_key(live));
    assert(steps.take(steps.len() as int) =~= steps);
    lemma_promotion_never_mixes(tree, staged, live, steps.len() as int);
}

/// At every point of the promotion of an artifact the live path holds what
/// it held before, or nothing, or what was staged: never anything else.
/// Once the last step is taken it holds what was staged.
pub proof fn lemma_promotion_never_mixes(tree: Tree, staged: Seq<char>, live: Seq<char>, k: int)
    requires
        tree.contains_key(staged),
        staged != live,
        0 <= k <= promotion_of(staged, live, tree.contains_key(live)).len(),
    ensures
        ({
            let steps = promotion_of(staged, live, tree.contains_key(live));
            let at = apply_steps(tree, steps.take(k));
            &&& at.contains_key(live) ==> at[live] == tree[staged] || (tree.contains_key(live)
                && at[live] == tree[live])
            &&& k == steps.len() ==> at.contains_key(live) && at[live] == tree[staged]
                && !at.contains_key(staged)
            &&& forall|p: Seq<char>|
                p != staged && p != live ==> (at.contains_key(p) <==> #[trigger] tree.contains_key(
                    p,
                )) && (tree.contains_key(p) ==> at[p] == tree[p])
        }),
{
    let steps = promotion_of(staged, live, tree.contains_key(live));
    let t0 = steps.take(0);
    assert(t0.len() == 0);
    assert(apply_steps(tree, t0) == tree);
    if k >= 1 {
        let t1 = steps.take(1);
        assert(t1.drop_last() =~= t0);
        assert(t1.last() == steps[0]);
        assert(apply_steps(tree, t1) == apply_step(tree, steps[0]));
        if k >= 2 {
            let t2 = steps.take(2);
            assert(t2.drop_last() =~= t1);
            assert(t2.last() == steps[1]);
            assert(apply_steps(tree, t2) == apply_step(apply_steps(tree, t1), steps[1]));
        }
    }
}

/// After the promotion of a run whose catalog and index were staged, the
/// live catalog holds the staged catalog and the live index the staged
/// index, nothing is left where they were staged, and every other path
/// holds what it held before.
pub proof fn lemma_run_promotion(tree: Tree, output: Seq<char>)
    requires
        tree.contains_key(staged_catalog_path(staging_root(output))),
        tree.contains_key(staged_index_path(staging_root(output))),
    ensures
        ({
            let staged_catalog = staged_catalog_path(staging_root(output));
            let staged_index = staged_index_path(staging_root(output));
            let live_catalog = live_catalog_path(output);
            let live_index = live_index_path(output);
            let between = apply_steps(
                tree,
                promotion_of(staged_catalog, live_catalog, tree.contains_key(live_catalog)),
            );
            let after = apply_steps(
                between,
                promotion_of(staged_index, live_index, between.contains_key(live_index)),
            );
            &&& after.contains_key(live_catalog) && after[live_catalog] == tree[staged_catalog]
            &&& after.contains_key(live_index) && after[live_index] == tree[staged_index]
            &&& !after.contains_key(staged_catalog)
            &&& !after.contains_key(staged_index)
            &&& forall|p: Seq<char>|
                p != staged_catalog && p != staged_index && p != live_catalog && p != live_index
                    ==> (after.contains_key(p) <==> #[trigger] tree.contains_key(p)) && (
                tree.contains_key(p) ==> after[p] == tree[p])
        }),
{
    let staged_catalog = staged_catalog_path(staging_root(output));
    let staged_index = staged_index_path(staging_root(output));
    let live_catalog = live_catalog_path(output);
    let live_index = live_index_path(output);
    lemma_staged_apart_from_live(output);
    lemma_promotion_replaces_live(tree, staged_catalog, live_catalog);
    let between = apply_steps(
        tree,
        promotion_of(staged_catalog, live_catalog, tree.contains_key(live_catalog)),
    );
    assert(tree.contains_key(staged_index));
    assert(between.contains_key(staged_index) && between[staged_index] == tree[staged_index]);
    assert(tree.contains_key(live_index) <==> between.contains_key(live_index));
    lemma_promotion_replaces_live(between, staged_index, live_index);
    let after = apply_steps(
        between,
        promotion_of(staged_index, live_index, between.contains_key(live_index)),
    );
    assert(between.contains_key(live_catalog));
    assert(after.contains_key(live_catalog) && after[live_catalog] == between[live_catalog]);
    assert(tree.contains_key(staged_catalog));
    assert(!after.contains_key(staged_catalog));
    assert forall|p: Seq<char>|
        p != staged_catalog && p != staged_index && p != live_catalog && p != live_index implies (
        after.contains_key(p) <==> #[trigger] tree.contains_key(p)) && (tree.contains_key(p)
        ==> after[p] == tree[p]) by {
        assert(between.contains_key(p) <==> tree.contains_key(p));
    }
}

/// The staged and the live paths of a run are four different paths.
pub proof fn lemma_staged_apart_from_live(output: Seq<char>)
    ensures
        staged_catalog_path(staging_root(output)) != live_catalog_path(output),
        staged_catalog_path(staging_root(output)) != live_index_path(output),
        staged_index_path(staging_root(output)) != live_index_path(output),
        staged_index_path(staging_root(output)) != live_catalog_path(output),
        staged_catalog_path(staging_root(output)) != staged_index_path(staging_root(output)),
        live_catalog_path(output) != live_index_path(output),
{
    reveal_strlit("/.tmp");
    reveal_strlit("/extensions.json");
    reveal_strlit("/idx");
    let root = staging_root(output);
    let n = without_trailing_slash(output).len();
    assert(root.len() == n + 5);
    assert(output.len() == n || output.len() == n + 1);
    assert(staged_catalog_path(root).len() == n + 21);
    assert(staged_index_path(root).len() == n + 9);
    assert(live_catalog_path(output).len() == output.len() + 16);
    assert(live_index_path(output).len() == output.len() + 4);
}

} // verus!
