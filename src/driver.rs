use std::sync::Arc;
use vstd::prelude::*;

use crate::config::{join, join_path, Ctx, ARCHIVE_ROOT, BUNDLE_NAME};
use crate::error::ControllerError;

verus! {

/// Seconds to wait before a failed resource is reconciled again.
pub const RETRY_DELAY_SECS: u64 = 5;

/// What the watcher should do once a reconciliation is over.
#[derive(Debug, Clone, Copy, PartialEq, Eq)]
pub struct Action {
    /// `None`: wait for the next change of the resource; `Some(s)`: reconcile
    /// it again after `s` seconds.
    pub requeue_after_secs: Option<u64>,
}

impl Action {
    /// Wait for the next change; no polling.
    pub fn await_change() -> (r: Action)
        ensures
            r.requeue_after_secs is None,
    {
        Action { requeue_after_secs: None }
    }

    /// Reconcile again after `secs` seconds.
    pub fn requeue(secs: u64) -> (r: Action)
        ensures
            r.requeue_after_secs == Some(secs),
    {
        Action { requeue_after_secs: Some(secs) }
    }
}

/// The retry policy: every failure of every resource waits the same fixed
/// delay before the resource is reconciled again.
pub fn error_policy<T>(_obj: Arc<T>, _error: &ControllerError, _ctx: Arc<Ctx>) -> (r: Action)
    ensures
        r.requeue_after_secs == Some(RETRY_DELAY_SECS),
{
    Action::requeue(RETRY_DELAY_SECS)
}

/// One change event: a policy resource as the watcher delivered it.
pub struct PolicyResource {
    pub name: Option<String>,
    /// Entry file name and its text; `None` when the resource holds no data.
    pub entries: Option<Vec<(String, String)>>,
}

/// A step that the caller performs on the file system.
#[derive(Debug)]
pub enum Command {
    /// Create the directory `path` and its parents.
    CreateDir { resource: String, path: String },
    /// Create or truncate the file `path` and write `content` to it.
    WriteEntry { resource: String, key: String, path: String, content: String },
    /// Build, at `archive`, a gzip-compressed tar archive at best compression
    /// that holds the whole directory `tree` under the root directory `root`,
    /// and finish it.
    Package { tree: String, archive: String, root: String },
    /// Move `from` to `to` in one atomic rename.
    Publish { from: String, to: String },
}

/// How the caller's last step went.
#[derive(Debug)]
pub enum Outcome {
    Success,
    /// The archive file could not be created.
    ArchiveOpenFailed(String),
    /// The tree could not be appended to the archive.
    ArchiveAppendFailed(String),
    /// Any other failure: of a directory, a file write, finishing the archive,
    /// or the rename.
    Failed(String),
}

/// The text that a failure carries.
pub open spec fn failure_detail(o: Outcome) -> String {
    match o {
        Outcome::ArchiveOpenFailed(d) => d,
        Outcome::ArchiveAppendFailed(d) => d,
        Outcome::Failed(d) => d,
        Outcome::Success => arbitrary(),
    }
}

/// Where a reconciliation stands.
#[derive(Debug)]
pub enum Stage {
    CreatingDir,
    /// Writing the entry of this index.
    Writing(usize),
    Packaging,
    Publishing,
    Done,
    Failed(ControllerError),
}

/// A stage without the error that a failure carries.
pub enum StageView {
    CreatingDir,
    Writing(nat),
    Packaging,
    Publishing,
    Done,
    Failed,
}

impl Stage {
    pub open spec fn view(&self) -> StageView {
        match *self {
            Stage::CreatingDir => StageView::CreatingDir,
            Stage::Writing(i) => StageView::Writing(i as nat),
            Stage::Packaging => StageView::Packaging,
            Stage::Publishing => StageView::Publishing,
            Stage::Done => StageView::Done,
            Stage::Failed(_) => StageView::Failed,
        }
    }
}

/// Done and Failed end a reconciliation.
pub open spec fn is_final(st: StageView) -> bool {
    st is Done || st is Failed
}

/// The stage after `st`, for a resource of `n` entries, when its step
/// succeeded (`ok`) or failed.
pub open spec fn next_stage(st: StageView, n: nat, ok: bool) -> StageView {
    if !ok {
        if is_final(st) { st } else { StageView::Failed }
    } else {
        match st {
            StageView::CreatingDir => if n == 0 { StageView::Packaging } else { StageView::Writing(0) },
            StageView::Writing(i) => if i + 1 < n { StageView::Writing(i + 1) } else { StageView::Packaging },
            StageView::Packaging => StageView::Publishing,
            StageView::Publishing => StageView::Done,
            _ => st,
        }
    }
}

/// An entry as plain text.
pub open spec fn entry_view(e: (String, String)) -> (Seq<char>, Seq<char>) {
    (e.0@, e.1@)
}

/// A copy of `entries`.
fn copy_entries(entries: &Vec<(String, String)>) -> (r: Vec<(String, String)>)
    ensures
        r@ == entries@,
{
    let mut r: Vec<(String, String)> = Vec::new();
    let mut i: usize = 0;
    while i < entries.len()
        invariant
            i <= entries@.len(),
            r@ == entries@.subrange(0, i as int),
        decreases entries@.len() - i,
    {
        let e = &entries[i];
        r.push((e.0.clone(), e.1.clone()));
        i += 1;
        assert(r@ =~= entries@.subrange(0, i as int));
    }
    assert(r@ =~= entries@);
    r
}

/// The reconciliation of one named resource with a non-empty set of entries.
pub struct Reconciler {
    pub active: String,
    pub incoming: String,
    pub tmp: String,
    pub name: String,
    pub entries: Vec<(String, String)>,
    pub stage: Stage,
}

impl Reconciler {
    /// The entries as plain text, in the order they are written.
    pub open spec fn entries_view(&self) -> Seq<(Seq<char>, Seq<char>)> {
        self.entries@.map_values(|e: (String, String)| entry_view(e))
    }

    pub open spec fn wf(&self) -> bool {
        &&& self.entries@.len() > 0
        &&& (self.stage matches Stage::Writing(i) ==> i < self.entries@.len())
    }

    /// `self` works in the directories of `ctx` on the resource `name` with
    /// `entries`, and has not started.
    pub open spec fn fresh(&self, ctx: &Ctx, name: String, entries: Vec<(String, String)>) -> bool {
        &&& self.active@ == ctx.active@
        &&& self.incoming@ == ctx.incoming@
        &&& self.tmp@ == ctx.tmp@
        &&& self.name@ == name@
        &&& self.entries@ == entries@
        &&& self.stage is CreatingDir
    }

    /// Where the archive is built.
    pub open spec fn staging_archive(&self) -> Seq<char> {
        join(self.tmp@, BUNDLE_NAME@)
    }

    /// Where readers find the archive.
    pub open spec fn serving_archive(&self) -> Seq<char> {
        join(self.active@, BUNDLE_NAME@)
    }

    /// `c` is the step that stage `st` asks for.
    pub open spec fn issues(&self, st: StageView, c: Command) -> bool {
        match st {
            StageView::CreatingDir => c matches Command::CreateDir { resource, path }
                && resource@ == self.name@ && path@ == join(self.incoming@, self.name@),
            StageView::Writing(i) => c matches Command::WriteEntry { resource, key, path, content }
                && resource@ == self.name@ && key@ == self.entries_view()[i as int].0
                && content@ == self.entries_view()[i as int].1
                && path@ == join(join(self.incoming@, self.name@), key@),
            StageView::Packaging => c matches Command::Package { tree, archive, root }
                && tree@ == self.incoming@ && archive@ == self.staging_archive()
                && root@ == ARCHIVE_ROOT@,
            StageView::Publishing => c matches Command::Publish { from, to }
                && from@ == self.staging_archive() && to@ == self.serving_archive(),
            _ => false,
        }
    }

    /// The error that a failure reported as `o` in stage `st` is classified as.
    pub open spec fn classifies(&self, st: StageView, o: Outcome, e: ControllerError) -> bool {
        let d = failure_detail(o);
        match st {
            StageView::CreatingDir | StageView::Writing(_) => e == ControllerError::OpaBundleDir { detail: d },
            StageView::Packaging => match o {
                Outcome::ArchiveOpenFailed(_) => e matches ControllerError::CreateBundle { detail, path }
                    && detail == d && path@ == self.staging_archive(),
                Outcome::ArchiveAppendFailed(_) => e == ControllerError::AppendToBundleTar { detail: d },
                _ => e == ControllerError::CreateBundleTar { detail: d },
            },
            StageView::Publishing => e matches ControllerError::PublishBundle { detail, path }
                && detail == d && path@ == self.serving_archive(),
            _ => false,
        }
    }

    /// Takes in a change event. A resource without a name is an error and
    /// nothing is written; a resource without entries is no work at all
    /// (`Ok(None)`): the staging tree and the archive stay as they are.
    pub fn start(ctx: &Ctx, resource: &PolicyResource) -> (r: Result<Option<Reconciler>, ControllerError>)
        ensures
            resource.name is None ==> r == Err::<Option<Reconciler>, ControllerError>(ControllerError::OpaBundleHasNoName),
            resource.name is Some ==> r is Ok,
            r matches Ok(None) ==> resource.entries is None || resource.entries.unwrap()@.len() == 0,
            r matches Ok(Some(rc)) ==> rc.wf() && rc.fresh(ctx, resource.name.unwrap(), resource.entries.unwrap()),
            resource.name is Some && resource.entries is Some && resource.entries.unwrap()@.len() > 0
                ==> r matches Ok(Some(_)),
    {
        let name = match &resource.name {
            Some(n) => n,
            None => {
                return Err(ControllerError::OpaBundleHasNoName);
            },
        };
        match &resource.entries {
            Some(entries) => {
                if entries.len() == 0 {
                    Ok(None)
                } else {
                    Ok(Some(Reconciler {
                        active: ctx.active.clone(),
                        incoming: ctx.incoming.clone(),
                        tmp: ctx.tmp.clone(),
                        name: name.clone(),
                        entries: copy_entries(entries),
                        stage: Stage::CreatingDir,
                    }))
                }
            },
            None => Ok(None),
        }
    }

    /// The step to perform now; `None` once the reconciliation is over.
    pub fn next_command(&self) -> (r: Option<Command>)
        requires
            self.wf(),
        ensures
            is_final(self.stage.view()) <==> r is None,
            r matches Some(c) ==> self.issues(self.stage.view(), c),
    {
        match &self.stage {
            Stage::CreatingDir => Some(Command::CreateDir {
                resource: self.name.clone(),
                path: join_path(self.incoming.as_str(), self.name.as_str()),
            }),
            Stage::Writing(i) => {
                let e = &self.entries[*i];
                let dir = join_path(self.incoming.as_str(), self.name.as_str());
                Some(Command::WriteEntry {
                    resource: self.name.clone(),
                    key: e.0.clone(),
                    path: join_path(dir.as_str(), e.0.as_str()),
                    content: e.1.clone(),
                })
            },
            Stage::Packaging => Some(Command::Package {
                tree: self.incoming.clone(),
                archive: join_path(self.tmp.as_str(), BUNDLE_NAME),
                root: String::from_str(ARCHIVE_ROOT),
            }),
            Stage::Publishing => Some(Command::Publish {
                from: join_path(self.tmp.as_str(), BUNDLE_NAME),
                to: join_path(self.active.as_str(), BUNDLE_NAME),
            }),
            Stage::Done => None,
            Stage::Failed(_) => None,
        }
    }

    /// The error for the failure `o` in the current stage.
    fn classify(&self, o: Outcome) -> (e: ControllerError)
        requires
            !is_final(self.stage.view()),
            !(o is Success),
        ensures
            self.classifies(self.stage.view(), o, e),
    {
        let is_open = matches!(o, Outcome::ArchiveOpenFailed(_));
        let is_append = matches!(o, Outcome::ArchiveAppendFailed(_));
        let d = match o {
            Outcome::ArchiveOpenFailed(d) => d,
            Outcome::ArchiveAppendFailed(d) => d,
            Outcome::Failed(d) => d,
            Outcome::Success => String::new(),
        };
        match &self.stage {
            Stage::Packaging => if is_open {
                ControllerError::CreateBundle {
                    detail: d,
                    path: join_path(self.tmp.as_str(), BUNDLE_NAME),
                }
            } else if is_append {
                ControllerError::AppendToBundleTar { detail: d }
            } else {
                ControllerError::CreateBundleTar { detail: d }
            },
            Stage::Publishing => ControllerError::PublishBundle {
                detail: d,
                path: join_path(self.active.as_str(), BUNDLE_NAME),
            },
            _ => ControllerError::OpaBundleDir { detail: d },
        }
    }

    /// Takes in how the step of the current stage went: on success the
    /// reconciliation moves to its next stage, on failure it ends in
    /// `Stage::Failed` with the failure classified by the stage it came in.
    pub fn report(&mut self, outcome: Outcome)
        requires
            old(self).wf(),
            !is_final(old(self).stage.view()),
        ensures
            final(self).wf(),
            final(self).active == old(self).active,
            final(self).incoming == old(self).incoming,
            final(self).tmp == old(self).tmp,
            final(self).name == old(self).name,
            final(self).entries == old(self).entries,
            final(self).stage.view() == next_stage(
                old(self).stage.view(),
                old(self).entries@.len(),
                outcome is Success,
            ),
            final(self).stage matches Stage::Failed(e) ==> old(self).classifies(
                old(self).stage.view(),
                outcome,
                e,
            ),
    {
        let next = match outcome {
            Outcome::Success => match &self.stage {
                Stage::CreatingDir => Stage::Writing(0),
                Stage::Writing(i) => if *i < self.entries.len() - 1 {
                    Stage::Writing(*i + 1)
                } else {
                    Stage::Packaging
                },
                Stage::Packaging => Stage::Publishing,
                _ => Stage::Done,
            },
            _ => Stage::Failed(self.classify(outcome)),
        };
        self.stage = next;
    }

    /// What the watcher does once the reconciliation is over: wait for the
    /// next change after a publish, retry after the fixed delay after a
    /// failure; `None` while steps remain.
    pub fn action(&self) -> (r: Option<Action>)
        ensures
            self.stage is Done ==> r == Some(Action { requeue_after_secs: None }),
            self.stage is Failed ==> r == Some(Action { requeue_after_secs: Some(RETRY_DELAY_SECS) }),
            !is_final(self.stage.view()) ==> r is None,
    {
        match &self.stage {
            Stage::Done => Some(Action::await_change()),
            Stage::Failed(_) => Some(Action::requeue(RETRY_DELAY_SECS)),
            _ => None,
        }
    }
}

} // verus!
